//! The failures that a sync pass can report.

use vstd::prelude::*;

verus! {

/// Why a lookup or a pass did not give a result.
#[derive(Clone, Copy, Debug, PartialEq, Eq, Structural)]
pub enum SyncError {
    /// No record answers to the given identity.
    NotFound,
    /// The upstream service sent data that cannot be read as facts.
    UpstreamUnavailable,
}

impl SyncError {
    /// A line for the operator's log.
    pub fn message(&self) -> (r: &'static str)
        ensures
            r@ == (match *self {
                SyncError::NotFound => "record not found"@,
                SyncError::UpstreamUnavailable => "upstream service unavailable or malformed data"@,
            }),
    {
        match self {
            SyncError::NotFound => "record not found",
            SyncError::UpstreamUnavailable => "upstream service unavailable or malformed data",
        }
    }
}

} // verus!
