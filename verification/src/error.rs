//! What can go wrong in a call to the engine.

use vstd::prelude::*;

verus! {

/// A failure reported by the engine.
#[derive(Clone, Copy, Debug, PartialEq, Eq, Structural)]
pub enum Error {
    /// A constructor of the engine returned the null handle.
    CreationFailed,
    /// An operation of the engine returned this nonzero status.
    OperationFailed(u32),
}

/// What a status of the engine means: zero is success, anything else is the
/// failure that carries it.
pub open spec fn status_outcome(status: u32) -> Result<(), Error> {
    if status == 0 {
        Ok(())
    } else {
        Err(Error::OperationFailed(status))
    }
}

/// Turns a status of the engine into a result.
pub fn as_result(status: u32) -> (r: Result<(), Error>)
    ensures
        r == status_outcome(status),
{
    if status == 0 {
        Ok(())
    } else {
        Err(Error::OperationFailed(status))
    }
}

impl Error {
    /// The status that the engine gave, where the failure carries one.
    pub fn code(&self) -> (c: Option<u32>)
        ensures
            c == match *self {
                Error::CreationFailed => None::<u32>,
                Error::OperationFailed(s) => Some(s),
            },
    {
        match self {
            Error::CreationFailed => None,
            Error::OperationFailed(s) => Some(*s),
        }
    }
}

} // verus!
