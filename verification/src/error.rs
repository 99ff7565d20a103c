use vstd::prelude::*;

verus! {

/// The kinds of failure an inventory operation can report.
#[derive(Clone, Copy, Debug, PartialEq, Eq, Structural)]
pub enum ErrorKind {
    /// A point lookup, or an endpoint of an attachment, names no row.
    NotFound,
    /// A uniqueness rule would be broken: the attachment is already there.
    Conflict,
    /// An argument is out of its domain: a quantity or a page size below one.
    InvalidArgument,
    /// The store refused the operation: a constraint of the schema is violated.
    StorageError,
    /// A later step of a multi-step operation failed after an earlier one was applied.
    InternalError,
}

/// The error of every store and service operation.
#[derive(Clone, Copy, Debug, PartialEq, Eq, Structural)]
pub struct Error {
    pub kind: ErrorKind,
}

impl Error {
    /// The error of the given kind.
    pub fn new(kind: ErrorKind) -> (e: Error)
        ensures
            e.kind == kind,
    {
        Error { kind }
    }

    /// A short fixed text for the kind of this error.
    pub fn message(&self) -> (text: &'static str)
        ensures
            text == kind_text(self.kind),
    {
        match self.kind {
            ErrorKind::NotFound => "not found",
            ErrorKind::Conflict => "conflict",
            ErrorKind::InvalidArgument => "invalid argument",
            ErrorKind::StorageError => "storage error",
            ErrorKind::InternalError => "internal error",
        }
    }
}

/// The fixed text of each kind of failure.
pub open spec fn kind_text(kind: ErrorKind) -> &'static str {
    match kind {
        ErrorKind::NotFound => "not found",
        ErrorKind::Conflict => "conflict",
        ErrorKind::InvalidArgument => "invalid argument",
        ErrorKind::StorageError => "storage error",
        ErrorKind::InternalError => "internal error",
    }
}

} // verus!
