use vstd::prelude::*;

verus! {

/// The ways an operation on the list can fail; each is recoverable by the caller.
#[derive(Debug, Clone, Copy, PartialEq, Eq, Structural)]
pub enum ListError {
    /// A referenced entry, player or record does not exist.
    NotFound,
    /// An input is out of range or malformed.
    ValidationError,
    /// The acting staff member lacks the capability the operation needs.
    Forbidden,
    /// The operation clashes with existing state (a duplicate, a lost race).
    Conflict,
}

impl ListError {
    /// The status code family an HTTP layer reports this error with.
    pub fn status_code(&self) -> (r: u16)
        ensures
            r == match *self {
                ListError::NotFound => 404u16,
                ListError::ValidationError => 422u16,
                ListError::Forbidden => 403u16,
                ListError::Conflict => 409u16,
            },
    {
        match self {
            ListError::NotFound => 404,
            ListError::ValidationError => 422,
            ListError::Forbidden => 403,
            ListError::Conflict => 409,
        }
    }
}

} // verus!
