use vstd::prelude::*;

verus! {

/// The error taxonomy of the service: what went wrong and whose fault it is.
#[derive(Clone, Copy, Debug, PartialEq, Eq, Structural)]
pub enum AppError {
    /// Malformed or missing input fields: the client's fault.
    ValidationError,
    /// Bad credentials or no authenticated session; deliberately does not
    /// reveal which part of the credential check failed.
    AuthenticationError,
    /// Authenticated, but not the owner of the targeted record.
    AuthorizationError,
    /// No record with the requested id (or username) exists.
    NotFoundError,
    /// The backing store cannot accept the operation.
    StorageError,
    /// The cryptographic hashing operation failed; fatal for the request.
    HashingError,
}

} // verus!
