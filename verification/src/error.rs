//! The errors of the account repository.

use crate::hashing::HashingError;
use crate::validation::ValidationError;
use vstd::prelude::*;

verus! {

/// Why a repository operation did not go through.
#[derive(Clone, Copy, Debug, PartialEq, Eq, Structural)]
pub enum RepositoryError {
    /// A field of the request is malformed; nothing was hashed or written.
    ValidationFailed(ValidationError),
    /// The credential could not be hashed; nothing was written.
    HashingError(HashingError),
    /// No account has the email the request names.
    NotFound,
    /// The store refused the write on a uniqueness constraint.
    DuplicateEmail,
    /// The store could not be reached, or the wait for a connection ran out.
    StorageUnavailable,
}

impl RepositoryError {
    /// The text shown to a caller. It never holds a secret or a digest.
    pub open spec fn message_of(self) -> Seq<char> {
        match self {
            RepositoryError::ValidationFailed(_) => "Validation failed: malformed email"@,
            RepositoryError::HashingError(_) => "Failed to hash password"@,
            RepositoryError::NotFound => "User not found"@,
            RepositoryError::DuplicateEmail => "Email already in use"@,
            RepositoryError::StorageUnavailable => "Storage unavailable"@,
        }
    }

    /// The text shown to a caller.
    pub fn message(self) -> (s: &'static str)
        ensures
            s@ == self.message_of(),
    {
        match self {
            RepositoryError::ValidationFailed(_) => "Validation failed: malformed email",
            RepositoryError::HashingError(_) => "Failed to hash password",
            RepositoryError::NotFound => "User not found",
            RepositoryError::DuplicateEmail => "Email already in use",
            RepositoryError::StorageUnavailable => "Storage unavailable",
        }
    }
}

} // verus!
