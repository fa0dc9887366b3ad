//! The ways in which a trash operation can fail.

use vstd::prelude::*;

verus! {

/// Why an operation on one path or one trash entry was refused or broke off.
#[derive(Debug, Clone, Copy, PartialEq, Eq, Structural)]
pub enum TrashError {
    /// The path does not exist, or no entry has the requested identifier.
    NotFound,
    /// The path lies under a protected system directory and `force` was not given.
    Protected,
    /// The restore target already exists and `force` was not given.
    Conflict,
    /// The entry is known but its copy in the trash area has vanished.
    MissingContent,
    /// A copy or removal on the file system failed.
    IoFailure,
    /// Stored metadata could not be read or understood.
    Corrupt,
}

impl TrashError {
    /// The text that stands for each error in messages to the user.
    pub open spec fn message_text(self) -> Seq<char> {
        match self {
            TrashError::NotFound => "not found"@,
            TrashError::Protected => "system directory protected (use force to override)"@,
            TrashError::Conflict => "target exists (use force to overwrite)"@,
            TrashError::MissingContent => "trash content is missing"@,
            TrashError::IoFailure => "file system operation failed"@,
            TrashError::Corrupt => "metadata is corrupt"@,
        }
    }

    /// A short human-readable description of the error.
    pub fn message(&self) -> (s: String)
        ensures
            s@ == self.message_text(),
    {
        match self {
            TrashError::NotFound => String::from_str("not found"),
            TrashError::Protected => String::from_str(
                "system directory protected (use force to override)",
            ),
            TrashError::Conflict => String::from_str("target exists (use force to overwrite)"),
            TrashError::MissingContent => String::from_str("trash content is missing"),
            TrashError::IoFailure => String::from_str("file system operation failed"),
            TrashError::Corrupt => String::from_str("metadata is corrupt"),
        }
    }
}

} // verus!
