//! Failures of the store operations.

use vstd::prelude::*;

verus! {

/// The ways in which an operation on the store can fail.
#[derive(Debug, Clone, PartialEq, Eq)]
pub enum ManagerError {
    /// An entry of that name (compared without regard to case) is already stored.
    EntryExists { name: String },
    /// No stored entry has that name (compared without regard to case).
    EntryDoesntExist { name: String },
    /// A note was addressed by a position at or past the end of the entry's notes.
    NoteIdOOB { id: usize, len: usize },
    /// The stored data holds something other than a list of entries.
    Corrupt,
}

/// Whether `r` is the failure for a name `q` that no entry answers to.
pub open spec fn not_found<T>(r: Result<T, ManagerError>, q: Seq<char>) -> bool {
    r matches Err(ManagerError::EntryDoesntExist { name }) && name@ == q
}

} // verus!
