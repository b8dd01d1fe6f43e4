//! The framework's error taxonomy: a kind and a human-readable message.

use vstd::prelude::*;

verus! {

/// Every failure the framework can surface, by abstract kind.
#[derive(Clone, Copy, Debug, PartialEq, Eq, Structural)]
pub enum ErrorKind {
    ApiConnectionFailure,
    AmqpFailure,
    MalformedRequest,
    MalformedToken,
    TokenDecodingFailure,
    InvalidToken,
    PermissionNotFound,
    SanitizationFailure,
    AutoConfigFailure,
    InternalFailure,
}

/// An error with its kind and a descriptive message.
#[derive(Clone, Debug)]
pub struct Error {
    pub kind: ErrorKind,
    pub message: String,
}

impl Error {
    pub fn new(kind: ErrorKind, message: String) -> (r: Error)
        ensures
            r.kind == kind,
            r.message@ == message@,
    {
        Error { kind, message }
    }

    pub fn kind(&self) -> (r: ErrorKind)
        ensures
            r == self.kind,
    {
        self.kind
    }

    pub fn message(&self) -> (r: &String)
        ensures
            r@ == self.message@,
    {
        &self.message
    }
}

} // verus!
