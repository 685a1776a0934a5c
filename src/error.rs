//! Error types for working with 8-bit strings
use vstd::prelude::*;

verus! {

/// The kinds of errors this library reports
#[derive(Debug, Clone, PartialEq, Eq)]
pub enum ErrorKind {
    /// A free-form message, as produced by a configuration loader
    Message(String),
    /// The source holds more bytes than the fixed capacity of the string
    Oversize {
        /// Number of bytes the source would need
        len: usize,
        /// Capacity of the target string
        capacity: usize,
    },
    /// A mapping names a screen set other than 1, 2 or 3
    InvalidScreenSet {
        /// The offending screen set
        set: u8,
    },
    /// A legacy code maps to a screen code above 127 before reverse video
    ScreenCodeOutOfRange {
        /// The offending screen code
        value: u8,
    },
}

/// An error, carrying its kind
#[derive(Debug, Clone, PartialEq, Eq)]
pub struct Error {
    kind: ErrorKind,
}

impl Error {
    /// The kind of this error, as a specification value
    pub closed spec fn spec_kind(&self) -> ErrorKind {
        self.kind
    }

    /// Create an error of the given kind
    pub fn new(kind: ErrorKind) -> (e: Error)
        ensures
            e.spec_kind() == kind,
    {
        Error { kind }
    }

    /// Create an error carrying a message
    pub fn message(m: String) -> (e: Error)
        ensures
            e.spec_kind() == ErrorKind::Message(m),
    {
        Error { kind: ErrorKind::Message(m) }
    }

    /// The kind of this error
    pub fn kind(&self) -> (k: &ErrorKind)
        ensures
            *k == self.spec_kind(),
    {
        &self.kind
    }
}

} // verus!
