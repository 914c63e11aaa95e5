//! Cameras: the devices a camera list describes, frame-rate choice, and
//! whether a stream is open.
use crate::error::DioxusStdError;
use vstd::prelude::*;

verus! {

/// A camera device.
pub struct CameraDevice {
    pub id: usize,
    pub name: String,
    pub description: String,
    pub misc_info: String,
}

/// How a camera's frame rate is chosen.
#[derive(Debug, PartialEq, Eq, Clone, Copy, Structural)]
pub enum FpsSelector {
    /// The camera's own rate.
    Camera,
    /// A given rate.
    Custom(u32),
}

/// The camera devices. Listing devices is not available yet: the result is
/// always a camera error saying so.
pub fn get_camera_devices() -> (res: Result<Vec<CameraDevice>, DioxusStdError>)
    ensures
        res matches Err(DioxusStdError::Camera(s)) && s@ == "this feature is a work in progress"@,
{
    Err(DioxusStdError::Camera(String::from_str("this feature is a work in progress")))
}

/// Whether a camera's stream is open.
pub struct CameraStream {
    pub stream_open: bool,
}

impl CameraStream {
    /// A closed stream.
    pub fn new() -> (res: Self)
        ensures
            !res.stream_open,
    {
        CameraStream { stream_open: false }
    }

    /// Whether opening the stream needs a call to the camera: not when it
    /// is open already.
    pub fn open_needs_call(&self) -> (res: bool)
        ensures
            res == !self.stream_open,
    {
        !self.stream_open
    }

    /// Records the camera's answer to opening the stream: success marks it
    /// open, and a failure becomes a camera error with the camera's text.
    pub fn opened(&mut self, outcome: Result<(), String>) -> (res: Result<(), DioxusStdError>)
        ensures
            match outcome {
                Ok(()) => res is Ok && final(self).stream_open,
                Err(e) => (res matches Err(DioxusStdError::Camera(s)) && s == e)
                    && final(self).stream_open == old(self).stream_open,
            },
    {
        match outcome {
            Ok(()) => {
                self.stream_open = true;
                Ok(())
            },
            Err(e) => Err(DioxusStdError::Camera(e)),
        }
    }

    /// Whether stopping the stream needs a call to the camera: not when it
    /// is closed already.
    pub fn stop_needs_call(&self) -> (res: bool)
        ensures
            res == self.stream_open,
    {
        self.stream_open
    }

    /// Records the camera's answer to stopping the stream. A success sets
    /// the open flag to true (the flag is not cleared on stop); a failure
    /// becomes a camera error with the camera's text and leaves the flag.
    pub fn stopped(&mut self, outcome: Result<(), String>) -> (res: Result<(), DioxusStdError>)
        ensures
            match outcome {
                Ok(()) => res is Ok && final(self).stream_open,
                Err(e) => (res matches Err(DioxusStdError::Camera(s)) && s == e)
                    && final(self).stream_open == old(self).stream_open,
            },
    {
        match outcome {
            Ok(()) => {
                self.stream_open = true;
                Ok(())
            },
            Err(e) => Err(DioxusStdError::Camera(e)),
        }
    }
}

} // verus!
