use vstd::prelude::*;

verus! {

/// Waiting on a close signal failed: its sending side is gone.
#[derive(Debug, Clone, Copy, PartialEq, Eq, Structural)]
pub struct CloseError;

/// Closing failed: the signal was already closed.
#[derive(Debug, Clone, Copy, PartialEq, Eq, Structural)]
pub struct CloserError;

impl CloseError {
    /// The message that describes this error.
    pub fn message(&self) -> (r: &'static str)
        ensures
            r@ == "Close channel closed"@,
    {
        "Close channel closed"
    }
}

impl CloserError {
    /// The message that describes this error.
    pub fn message(&self) -> (r: &'static str)
        ensures
            r@ == "Could not close, already closed?"@,
    {
        "Could not close, already closed?"
    }
}

} // verus!
