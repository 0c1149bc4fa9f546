//! The ways a request, or the seeding at startup, can fail.

use vstd::prelude::*;

verus! {

/// Why a request got no profile.
#[derive(Clone, Copy, Debug, PartialEq, Eq, Structural)]
pub enum ServiceError {
    /// No usable subject identifier could be derived from the request.
    IdentityMissing,
    /// The store holds no record for the caller.
    NotFound,
    /// The store itself failed.
    RepositoryFailure,
}

impl ServiceError {
    /// What the caller is told. Nothing of the store's own error is in it.
    pub fn message(&self) -> (r: String)
        ensures
            r@ == (match *self {
                ServiceError::IdentityMissing => "Missing sub in claims"@,
                ServiceError::NotFound => "User not found"@,
                ServiceError::RepositoryFailure => "Failed to read user"@,
            }),
    {
        match self {
            ServiceError::IdentityMissing => "Missing sub in claims".to_owned(),
            ServiceError::NotFound => "User not found".to_owned(),
            ServiceError::RepositoryFailure => "Failed to read user".to_owned(),
        }
    }
}

} // verus!
