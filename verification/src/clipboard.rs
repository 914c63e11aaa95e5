//! Clipboard errors, with the text the system gave for each failure.
use vstd::prelude::*;

verus! {

/// Errors of the clipboard abstraction.
pub enum ClipboardError {
    /// Failure when initializing the clipboard.
    FailedToInit(String),
    /// Failure to read the clipboard's content.
    FailedToFetchContent(String),
    /// Failure to set the clipboard's content.
    FailedToSetContent(String),
}

/// The system's text that an error carries.
pub open spec fn clipboard_error_text(e: ClipboardError) -> Seq<char> {
    match e {
        ClipboardError::FailedToInit(s) => s@,
        ClipboardError::FailedToFetchContent(s) => s@,
        ClipboardError::FailedToSetContent(s) => s@,
    }
}

impl ClipboardError {
    /// The text this error displays as: the system's text.
    pub fn message(&self) -> (res: String)
        ensures
            res@ == clipboard_error_text(*self),
    {
        match self {
            ClipboardError::FailedToInit(s) => s.clone(),
            ClipboardError::FailedToFetchContent(s) => s.clone(),
            ClipboardError::FailedToSetContent(s) => s.clone(),
        }
    }
}

} // verus!
