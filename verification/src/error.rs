//! The error taxonomy of the library.
//!
//! Every failure is returned as a value, never panicked: a configuration
//! error at construction, a transport failure wrapped by the caller, a
//! malformed response body, or a rejection the exchange itself reported.

use vstd::prelude::*;

verus! {

/// Why a call failed.
#[derive(Clone, Debug)]
pub enum LunoError {
    /// The configured API origin is malformed; raised at client
    /// construction, never at call time.
    Config(String),
    /// The transport could not complete the exchange; carries the
    /// underlying cause's message, supplied by the caller that ran the
    /// request.
    Transport(String),
    /// The response body does not match the expected shape; names the
    /// field or position at fault.
    Decode(String),
    /// The exchange itself rejected the request; carries the server's
    /// own message, distinguishable from any infrastructure failure.
    Remote(String),
}

impl LunoError {
    /// True exactly for a rejection the exchange reported.
    pub fn is_remote(&self) -> (r: bool)
        ensures
            r == (self is Remote),
    {
        match self {
            LunoError::Remote(_) => true,
            _ => false,
        }
    }

    /// True exactly for a malformed response body.
    pub fn is_decode(&self) -> (r: bool)
        ensures
            r == (self is Decode),
    {
        match self {
            LunoError::Decode(_) => true,
            _ => false,
        }
    }

    /// The carried message, whatever the kind.
    pub fn message(&self) -> (r: &String)
        ensures
            r@ == match *self {
                LunoError::Config(ref m) => m@,
                LunoError::Transport(ref m) => m@,
                LunoError::Decode(ref m) => m@,
                LunoError::Remote(ref m) => m@,
            },
    {
        match self {
            LunoError::Config(m) => m,
            LunoError::Transport(m) => m,
            LunoError::Decode(m) => m,
            LunoError::Remote(m) => m,
        }
    }
}

} // verus!
