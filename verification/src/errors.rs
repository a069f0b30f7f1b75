use vstd::prelude::*;

verus! {

/// The three failure kinds of the service.
///
/// Every operation either succeeds or reports one of these as a value;
/// a failing operation never leaves a partial mutation behind.
#[derive(Clone, Copy, Debug, PartialEq, Eq, Structural)]
pub enum Error {
    /// Registration was attempted with a username that already exists.
    DuplicateUsername,
    /// Login was attempted with an unknown username or a wrong credential.
    InvalidCredentials,
    /// A task operation or logout was attempted without an active session.
    NotAuthenticated,
    /// A task mutation named a title with no matching owned task.
    TaskNotFound,
}

impl Error {
    /// The human-readable message reported to callers at the boundary.
    pub fn message(&self) -> (r: &'static str)
        ensures
            *self == Error::DuplicateUsername ==> r@ == "Username already exists"@,
            *self == Error::InvalidCredentials ==> r@ == "Invalid username or password"@,
            *self == Error::NotAuthenticated ==> r@ == "User not authenticated"@,
            *self == Error::TaskNotFound ==> r@ == "Task not found"@,
    {
        match self {
            Error::DuplicateUsername => "Username already exists",
            Error::InvalidCredentials => "Invalid username or password",
            Error::NotAuthenticated => "User not authenticated",
            Error::TaskNotFound => "Task not found",
        }
    }
}

} // verus!
