//! Failure kinds reported by this crate.
use vstd::prelude::*;

verus! {

/// Possible error kinds.
#[derive(Debug, Clone, Copy, PartialEq, Eq, Structural)]
pub enum ErrorKind {
    /// Invalid input was given.
    InvalidInput,
    /// I/O error.
    IoError,
    /// Implementation bug.
    Bug,
    /// Other error.
    Other,
}

/// This crate specific error type: a kind, with nothing else attached.
#[derive(Debug, Clone, Copy, PartialEq, Eq, Structural)]
pub struct Error {
    kind: ErrorKind,
}

impl Error {
    /// The kind this error was made with.
    pub closed spec fn spec_kind(&self) -> ErrorKind {
        self.kind
    }

    /// Makes an error of the given kind.
    pub fn new(kind: ErrorKind) -> (e: Error)
        ensures
            e.spec_kind() == kind,
    {
        Error { kind }
    }

    /// Returns the kind of this error.
    #[verifier::when_used_as_spec(spec_kind)]
    pub fn kind(&self) -> (k: ErrorKind)
        ensures
            k == self.spec_kind(),
    {
        self.kind
    }
}

} // verus!
