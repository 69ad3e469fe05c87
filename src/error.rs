use anyhow::Error as AnyhowError;
use vstd::prelude::*;

verus! {

#[verifier::external_type_specification]
#[verifier::external_body]
pub struct ExAnyhowError(AnyhowError);

/// A failure of a task, tagged by where it came from.
///
/// `User` errors are raised by application code (a producer body or a
/// consumer handler) and are what a pipeline reports to its caller; `Internal`
/// errors come from the plumbing (closed channels, all subscribers gone, a task
/// that was aborted).
#[derive(Debug)]
pub enum Error {
    Internal(anyhow::Error),
    User(anyhow::Error),
}

impl Error {
    /// The error carried by either variant.
    pub open spec fn payload(self) -> anyhow::Error {
        match self {
            Error::Internal(e) => e,
            Error::User(e) => e,
        }
    }

    /// Unwraps the carried error, forgetting where it came from.
    pub fn inner(self) -> (r: anyhow::Error)
        ensures
            r == self.payload(),
    {
        match self {
            Error::Internal(e) => e,
            Error::User(e) => e,
        }
    }

    /// Whether the error was raised by application code.
    pub fn is_user(&self) -> (r: bool)
        ensures
            r <==> self is User,
    {
        match self {
            Error::Internal(_) => false,
            Error::User(_) => true,
        }
    }
}

/// Relies on `anyhow::Error::msg`: builds an error that carries the message.
#[verifier::external_body]
pub(crate) fn message_error(msg: &str) -> (r: anyhow::Error) {
    anyhow::Error::msg(msg.to_string())
}

/// An internal error with the given message.
pub(crate) fn internal(msg: &str) -> (r: Error)
    ensures
        r is Internal,
{
    Error::Internal(message_error(msg))
}

} // verus!
