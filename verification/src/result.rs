//! What a request layer answers when an operation fails: a status code and
//! a text.

use crate::error::{kind_text, ErrorKind};
use vstd::prelude::*;

verus! {

/// A failure as a response: an HTTP status code with a detail text.
#[derive(Clone, Debug, PartialEq, Eq)]
pub struct Error {
    pub status: u16,
    pub detail: String,
}

/// The status code of each kind of failure: a missing row is 404, a broken
/// uniqueness rule 409, a bad argument 400, and the two kinds of fault on
/// the side of the store are in the 5xx range.
pub open spec fn status_of(kind: ErrorKind) -> u16 {
    match kind {
        ErrorKind::NotFound => 404,
        ErrorKind::Conflict => 409,
        ErrorKind::InvalidArgument => 400,
        ErrorKind::StorageError => 599,
        ErrorKind::InternalError => 500,
    }
}

/// The status code of a kind of failure.
pub fn status_code(kind: ErrorKind) -> (status: u16)
    ensures
        status == status_of(kind),
        kind == ErrorKind::StorageError || kind == ErrorKind::InternalError <==> 500 <= status <= 599,
{
    match kind {
        ErrorKind::NotFound => 404,
        ErrorKind::Conflict => 409,
        ErrorKind::InvalidArgument => 400,
        ErrorKind::StorageError => 599,
        ErrorKind::InternalError => 500,
    }
}

impl Error {
    /// A response with the given status code and text.
    pub fn new(status: u16, detail: String) -> (e: Error)
        ensures
            e.status == status,
            e.detail == detail,
    {
        Error { status, detail }
    }

    /// The response for a failure of a store or of the service.
    pub fn from_failure(failure: &crate::error::Error) -> (e: Error)
        ensures
            e.status == status_of(failure.kind),
            e.detail@ == kind_text(failure.kind)@,
    {
        Error { status: status_code(failure.kind), detail: failure.message().to_owned() }
    }
}

} // verus!
