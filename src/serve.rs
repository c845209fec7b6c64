//! What a request for an object turns into at the boundary of the service.
use vstd::prelude::*;

verus! {

/// Why a request for an object failed.
#[derive(PartialEq, Eq, Structural, Clone, Copy, Debug)]
pub enum ServeError {
    /// The requested path cannot be read as a key.
    KeyFormat,
    /// Neither the cache nor the remote store has the object.
    NotFound,
    /// The remote store failed for another reason than absence.
    Upstream,
    /// Reading or writing a file of the cache failed.
    DiskIo,
}

impl ServeError {
    /// The HTTP status that the error is reported with. A failure of the
    /// remote store is reported as absence.
    pub fn status_code(&self) -> (r: u16)
        ensures
            r == match *self {
                ServeError::KeyFormat => 400u16,
                ServeError::NotFound => 404u16,
                ServeError::Upstream => 404u16,
                ServeError::DiskIo => 500u16,
            },
    {
        match self {
            ServeError::KeyFormat => 400,
            ServeError::NotFound => 404,
            ServeError::Upstream => 404,
            ServeError::DiskIo => 500,
        }
    }
}

/// The length to announce for a fetched object, from the length that the
/// remote store declared: none where it declared none or a negative one, so
/// that the response is sent in chunks.
pub fn declared_length(len: Option<i64>) -> (r: Option<u64>)
    ensures
        r == match len {
            Some(n) => if n >= 0 {
                Some(n as u64)
            } else {
                None::<u64>
            },
            None => None::<u64>,
        },
{
    match len {
        Some(n) => if n >= 0 {
            Some(n as u64)
        } else {
            None
        },
        None => None,
    }
}

} // verus!
