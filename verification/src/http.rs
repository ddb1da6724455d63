//! The shape of an outbound request.
//!
//! The library computes requests as plain values: a method, a rendered
//! address and the form pairs of the body. The caller owns the actual
//! transport; it attaches HTTP Basic authentication from the client's
//! credentials and sends the request, one exchange per call.

use vstd::prelude::*;

use crate::urls::{query_map, qview};

verus! {

/// The HTTP method of an operation.
#[derive(Clone, Copy, Debug, PartialEq, Eq, Structural)]
pub enum Method {
    Get,
    Post,
    Put,
    Delete,
}

/// One outbound exchange: every operation of the client produces
/// exactly one of these, and the caller performs exactly one send for
/// it. An empty form means the request has no body.
#[derive(Clone, Debug)]
pub struct HttpRequest {
    pub method: Method,
    pub url: String,
    pub form: Vec<(String, String)>,
}

/// The effective form-parameter set of a request.
pub open spec fn form_map(r: HttpRequest) -> Map<Seq<char>, Seq<char>> {
    query_map(qview(r.form@))
}

} // verus!
