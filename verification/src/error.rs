//! What can go wrong, as the caller sees it.

use vstd::prelude::*;

verus! {

/// The ways in which an operation of this crate fails. Every failure is
/// handed back to the caller; none is retried or swallowed.
#[derive(Debug, Clone, Copy, PartialEq, Eq, Structural)]
pub enum Error {
    /// None of a document's status comments carries a citation.
    NoStatusFound,
    /// A payload does not hold exactly one readable document.
    MalformedPayload,
    /// The history holds no commit a branch could start from.
    NoBranchPoint,
    /// A lineage branch could not be replayed onto the trunk.
    ReconciliationFailed,
    /// Something could not be stored, or was not there to be read.
    StorageError,
    /// A URL names no directory from which a key could be taken.
    NoKey,
}

impl Error {
    /// One line for a person to read.
    pub open spec fn spec_message(&self) -> Seq<char> {
        match self {
            Error::NoStatusFound => "no status comment could be parsed"@,
            Error::MalformedPayload => "expected exactly one xml document in the payload"@,
            Error::NoBranchPoint => "no commit precedes the snapshot"@,
            Error::ReconciliationFailed => "the branch could not be replayed onto the trunk"@,
            Error::StorageError => "the snapshot store could not be read or written"@,
            Error::NoKey => "URL has no parent"@,
        }
    }

    /// One line for a person to read.
    pub fn message(&self) -> (text: &'static str)
        ensures
            text@ == self.spec_message(),
    {
        match self {
            Error::NoStatusFound => "no status comment could be parsed",
            Error::MalformedPayload => "expected exactly one xml document in the payload",
            Error::NoBranchPoint => "no commit precedes the snapshot",
            Error::ReconciliationFailed => "the branch could not be replayed onto the trunk",
            Error::StorageError => "the snapshot store could not be read or written",
            Error::NoKey => "URL has no parent",
        }
    }
}

} // verus!
