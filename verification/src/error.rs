//! The error carried to the request boundary: a short source label, a
//! message, and an HTTP-style status code.

use vstd::prelude::*;

verus! {

/// Status code for failures inside the system (remote, parse, persistence).
pub const INTERNAL_SERVER_ERROR: u16 = 500;

/// Status code for a request that is missing a required parameter.
pub const BAD_REQUEST: u16 = 400;

#[derive(Debug, PartialEq, Eq)]
pub struct Error {
    pub message: String,
    pub source: String,
    pub code: u16,
}

impl Clone for Error {
    fn clone(&self) -> (r: Self)
        ensures
            r == *self,
    {
        Error {
            message: self.message.clone(),
            source: self.source.clone(),
            code: self.code,
        }
    }
}

/// A server-side error with the given source label and message.
pub fn new(source: &str, message: &str) -> (r: Error)
    ensures
        r.source@ == source@,
        r.message@ == message@,
        r.code == INTERNAL_SERVER_ERROR,
{
    Error {
        source: source.to_owned(),
        message: message.to_owned(),
        code: INTERNAL_SERVER_ERROR,
    }
}

/// A client-side error with the given source label and message.
pub fn bad_request(source: &str, message: &str) -> (r: Error)
    ensures
        r.source@ == source@,
        r.message@ == message@,
        r.code == BAD_REQUEST,
{
    Error {
        source: source.to_owned(),
        message: message.to_owned(),
        code: BAD_REQUEST,
    }
}

} // verus!
