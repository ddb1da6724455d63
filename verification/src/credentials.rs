//! API key and secret, attached by the caller to every authenticated request.

use vstd::prelude::*;

verus! {

/// Holds the API key pair. Immutable once constructed; the client facade
/// owns one and supplies it for HTTP Basic authentication on every call.
#[derive(Debug)]
pub struct Credentials {
    pub key: String,
    pub secret: String,
}

impl Credentials {
    /// Stores the key pair exactly as given; no local validation is
    /// performed, so malformed credentials surface only as an
    /// authentication failure from the remote service.
    pub fn new(key: &str, secret: &str) -> (r: Credentials)
        ensures
            r.key@ == key@,
            r.secret@ == secret@,
    {
        Credentials { key: key.to_owned(), secret: secret.to_owned() }
    }
}

impl PartialEq for Credentials {
    fn eq(&self, other: &Credentials) -> (r: bool) {
        self.key == other.key && self.secret == other.secret
    }
}

impl vstd::std_specs::cmp::PartialEqSpecImpl for Credentials {
    open spec fn obeys_eq_spec() -> bool {
        true
    }

    open spec fn eq_spec(&self, other: &Credentials) -> bool {
        self.key@ == other.key@ && self.secret@ == other.secret@
    }
}

} // verus!
