//! Errors of the shared clipboard handle, and how a handle's system results
//! turn into them.
use vstd::prelude::*;

verus! {

/// Errors when reading or writing through the shared clipboard handle.
#[derive(Debug, PartialEq, Eq, Clone, Copy, Structural)]
pub enum ClipboardError {
    FailedToRead,
    FailedToSet,
}

/// A read's outcome: the content, or `FailedToRead` whatever the system's
/// error was.
pub fn read_outcome<E>(outcome: Result<String, E>) -> (res: Result<String, ClipboardError>)
    ensures
        match outcome {
            Ok(s) => res matches Ok(t) && t == s,
            Err(_) => res == Err::<String, ClipboardError>(ClipboardError::FailedToRead),
        },
{
    match outcome {
        Ok(s) => Ok(s),
        Err(_) => Err(ClipboardError::FailedToRead),
    }
}

/// A write's outcome: `FailedToSet` whatever the system's error was.
pub fn write_outcome<E>(outcome: Result<(), E>) -> (res: Result<(), ClipboardError>)
    ensures
        match outcome {
            Ok(()) => res is Ok,
            Err(_) => res == Err::<(), ClipboardError>(ClipboardError::FailedToSet),
        },
{
    match outcome {
        Ok(()) => Ok(()),
        Err(_) => Err(ClipboardError::FailedToSet),
    }
}

} // verus!
