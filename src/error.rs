//! The errors of a harvesting and reconciliation cycle, each with its context.

use vstd::prelude::*;

verus! {

#[derive(Debug)]
pub enum SyncError {
    /// A transport failure or a non-success status: only the current fetch is lost.
    Fetch(String),
    /// An expected part of a document is absent: the item is skipped.
    Parse(String),
    /// The store refused a write or was unreachable: only the current show is lost.
    Store(String),
    /// The chat platform rejected a call.
    Platform(String),
}

impl SyncError {
    /// The context the error carries.
    pub fn context(&self) -> (r: &str)
        ensures
            r@ == match self {
                SyncError::Fetch(m) | SyncError::Parse(m) | SyncError::Store(m) | SyncError::Platform(m) => m@,
            },
    {
        match self {
            SyncError::Fetch(m) | SyncError::Parse(m) | SyncError::Store(m) | SyncError::Platform(m) => m.as_str(),
        }
    }
}

} // verus!
