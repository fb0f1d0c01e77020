use vstd::prelude::*;

verus! {

/// The closed set of failure kinds every component reports through.
/// Callers branch on the kind alone; the message is diagnostic only.
#[derive(Clone, Copy, Debug, PartialEq, Eq, Structural)]
pub enum ErrorKind {
    /// Unclassified I/O or internal failure.
    Unknown,
    /// Key generation, encoding or decoding failure.
    Security,
    /// No persisted record exists for the requested name.
    NotFound,
    /// A persisted or supplied record is structurally wrong.
    InvalidRecord,
}

/// A tagged error value: a kind plus an optional diagnostic message.
#[derive(Debug)]
pub struct Error {
    pub kind: ErrorKind,
    pub message: Option<String>,
}

impl Error {
    pub fn empty(kind: ErrorKind) -> (r: Error)
        ensures
            r.kind == kind,
            r.message is None,
    {
        Error { kind, message: None }
    }

    pub fn debug(message: String, kind: ErrorKind) -> (r: Error)
        ensures
            r.kind == kind,
            r.message == Some(message),
    {
        Error { kind, message: Some(message) }
    }
}

} // verus!
