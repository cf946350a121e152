//! Errors of store operations.
use vstd::prelude::*;

verus! {

/// What went wrong, as far as a caller needs to tell failures apart.
#[derive(Clone, Copy, Debug, PartialEq, Eq, Structural)]
pub enum ErrorKind {
    /// No record has the identifier that was asked for.
    NotFound,
    /// Content is not the JSON that is required where it stands.
    InvalidData,
    /// Any other failure: malformed JSON, a failed read or write.
    Other,
}

#[derive(Clone, Debug)]
pub struct StoreError {
    pub kind: ErrorKind,
    pub message: String,
}

impl StoreError {
    pub fn new(kind: ErrorKind, message: &str) -> (r: StoreError)
        ensures
            r.kind == kind,
            r.message@ == message@,
    {
        StoreError { kind, message: message.to_string() }
    }

    pub fn not_found() -> (r: StoreError)
        ensures
            r.kind == ErrorKind::NotFound,
    {
        StoreError::new(ErrorKind::NotFound, "no such object")
    }

    pub fn kind(&self) -> (r: ErrorKind)
        ensures
            r == self.kind,
    {
        self.kind
    }

    /// A description of the failure.
    pub fn message(&self) -> (r: &str)
        ensures
            r@ == self.message@,
    {
        self.message.as_str()
    }
}

} // verus!
