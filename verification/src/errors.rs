use vstd::prelude::*;

verus! {

/// The fatal failures a sync run can end with. A duplicate primary key during
/// ingestion and a malformed remap key are deliberately absent: both are
/// tolerated and recovered from locally, never surfaced as errors.
#[derive(Clone, Copy, Debug, PartialEq, Eq, Structural)]
pub enum SyncError {
    /// A network fetch failed.
    TransportError,
    /// A payload (JSON or archive) could not be decoded.
    DecodeError,
    /// No fingerprint token was found in the checksum endpoint's body.
    NotFound,
    /// A storage operation failed.
    StorageError,
}

impl SyncError {
    /// A human-readable description, for callers that report failures.
    pub fn message(&self) -> (r: &'static str)
        ensures
            *self is NotFound ==> r@ == "MD5 checksum not found in response"@,
    {
        match self {
            SyncError::TransportError => "network fetch failed",
            SyncError::DecodeError => "failed to decode remote payload",
            SyncError::NotFound => "MD5 checksum not found in response",
            SyncError::StorageError => "storage operation failed",
        }
    }
}

} // verus!
