//! The error type shared by the platform abstractions.
use crate::geolocation::{geolocation_error_debug, GeolocationError};
use vstd::prelude::*;

verus! {

/// Any error of the platform abstractions.
pub enum DioxusStdError {
    /// A clipboard error, with its text.
    Clipboard(String),
    /// A notification error, with its text.
    Notification(String),
    /// A camera error, with its text.
    Camera(String),
    /// A geolocation error.
    Geolocation(GeolocationError),
}

/// The text an error displays as.
pub open spec fn std_error_text(e: DioxusStdError) -> Seq<char> {
    match e {
        DioxusStdError::Clipboard(s) => "clipboard error: "@ + s@,
        DioxusStdError::Notification(s) => "notification error: "@ + s@,
        DioxusStdError::Camera(s) => "camera error: "@ + s@,
        DioxusStdError::Geolocation(g) => "geolocation error: "@ + geolocation_error_debug(g),
    }
}

impl DioxusStdError {
    /// The text this error displays as.
    pub fn message(&self) -> (res: String)
        ensures
            res@ == std_error_text(*self),
    {
        match self {
            DioxusStdError::Clipboard(s) => {
                let mut res = String::from_str("clipboard error: ");
                res.append(s.as_str());
                res
            },
            DioxusStdError::Notification(s) => {
                let mut res = String::from_str("notification error: ");
                res.append(s.as_str());
                res
            },
            DioxusStdError::Camera(s) => {
                let mut res = String::from_str("camera error: ");
                res.append(s.as_str());
                res
            },
            DioxusStdError::Geolocation(g) => {
                let mut res = String::from_str("geolocation error: ");
                res.append(g.debug_text().as_str());
                res
            },
        }
    }
}

} // verus!
