//! Geolocation: access rules, device status, and how the latest reading is
//! kept as position and status events arrive.
use vstd::prelude::*;

verus! {

/// The text that `{:?}` gives for a string: the string quoted, with quotes,
/// backslashes and unprintable characters escaped.
pub uninterp spec fn debug_quoted(s: Seq<char>) -> Seq<char>;

/// Calls `<str as Debug>::fmt` through `format!("{:?}", s)`. The contract
/// claims only that the outcome is the one named by `debug_quoted` for these
/// characters.
#[verifier::external_body]
fn debug_str(s: &str) -> (res: String)
    ensures
        res@ == debug_quoted(s@),
{
    format!("{:?}", s)
}

/// Errors of the geolocation abstraction.
pub enum GeolocationError {
    AccessDenied,
    DeviceError(String),
    FailedToFetchCoordinates(String),
}

/// The text `{:?}` prints for an error.
pub open spec fn geolocation_error_debug(e: GeolocationError) -> Seq<char> {
    match e {
        GeolocationError::AccessDenied => "AccessDenied"@,
        GeolocationError::DeviceError(s) => "DeviceError("@ + debug_quoted(s@) + ")"@,
        GeolocationError::FailedToFetchCoordinates(s) => "FailedToFetchCoordinates("@
            + debug_quoted(s@) + ")"@,
    }
}

impl Clone for GeolocationError {
    fn clone(&self) -> (res: Self)
        ensures
            res == *self,
    {
        match self {
            GeolocationError::AccessDenied => GeolocationError::AccessDenied,
            GeolocationError::DeviceError(s) => GeolocationError::DeviceError(s.clone()),
            GeolocationError::FailedToFetchCoordinates(s) => GeolocationError::FailedToFetchCoordinates(
                s.clone(),
            ),
        }
    }
}

impl GeolocationError {
    /// The text `{:?}` prints for this error.
    pub fn debug_text(&self) -> (res: String)
        ensures
            res@ == geolocation_error_debug(*self),
    {
        match self {
            GeolocationError::AccessDenied => {
                let res = String::from_str("AccessDenied");
                res
            },
            GeolocationError::DeviceError(s) => {
                let mut res = String::from_str("DeviceError(");
                res.append(debug_str(s.as_str()).as_str());
                res.append(")");
                res
            },
            GeolocationError::FailedToFetchCoordinates(s) => {
                let mut res = String::from_str("FailedToFetchCoordinates(");
                res.append(debug_str(s.as_str()).as_str());
                res.append(")");
                res
            },
        }
    }
}

/// Whether the application may use location services.
#[derive(Debug, PartialEq, Eq, Clone, Copy, Structural)]
pub enum GeolocationAccess {
    Allowed,
    Denied,
    Unspecified,
}

/// What the platform answered to an access request.
#[derive(Debug, PartialEq, Eq, Clone, Copy, Structural)]
pub enum PlatformAccessStatus {
    Allowed,
    Denied,
    Other,
}

/// The access that a platform answer grants.
pub fn access_from_status(status: PlatformAccessStatus) -> (res: GeolocationAccess)
    ensures
        res == match status {
            PlatformAccessStatus::Allowed => GeolocationAccess::Allowed,
            PlatformAccessStatus::Denied => GeolocationAccess::Denied,
            PlatformAccessStatus::Other => GeolocationAccess::Unspecified,
        },
{
    match status {
        PlatformAccessStatus::Allowed => GeolocationAccess::Allowed,
        PlatformAccessStatus::Denied => GeolocationAccess::Denied,
        PlatformAccessStatus::Other => GeolocationAccess::Unspecified,
    }
}

/// The state of the location device.
#[derive(Debug, PartialEq, Eq, Clone, Copy, Structural)]
pub enum DeviceStatus {
    Ready,
    Initializing,
    Disabled,
    NotAvailable,
    Unknown,
}

/// The device status that a platform position-status code stands for.
pub open spec fn status_of_code(code: i32) -> DeviceStatus {
    if code == 0 {
        DeviceStatus::Ready
    } else if code == 1 {
        DeviceStatus::Initializing
    } else if code == 3 {
        DeviceStatus::Disabled
    } else if code == 5 {
        DeviceStatus::NotAvailable
    } else {
        DeviceStatus::Unknown
    }
}

impl DeviceStatus {
    /// Reads a platform position-status code: 0 ready, 1 initializing,
    /// 3 disabled, 5 not available, anything else unknown.
    pub fn from_code(code: i32) -> (res: DeviceStatus)
        ensures
            res == status_of_code(code),
    {
        match code {
            0 => DeviceStatus::Ready,
            1 => DeviceStatus::Initializing,
            3 => DeviceStatus::Disabled,
            5 => DeviceStatus::NotAvailable,
            _ => DeviceStatus::Unknown,
        }
    }
}

/// What answering an access request takes.
#[derive(Debug, PartialEq, Eq, Clone, Copy, Structural)]
pub enum AccessRequest {
    /// Access was granted before: no need to ask again.
    AlreadyAllowed,
    /// Ask the platform.
    AskPlatform,
}

/// A geolocator: the access it was granted and the platform device `D`.
pub struct Geolocator<D> {
    pub access: GeolocationAccess,
    pub device_geolocator: D,
}

impl<D> Geolocator<D> {
    /// A geolocator with the access granted when it was made.
    pub fn new(access: GeolocationAccess, device_geolocator: D) -> (res: Self)
        ensures
            res.access == access,
            res.device_geolocator == device_geolocator,
    {
        Geolocator { access, device_geolocator }
    }

    /// Whether to ask the platform for access: not when it was allowed
    /// already.
    pub fn request_access(&self) -> (res: AccessRequest)
        ensures
            res == if self.access == GeolocationAccess::Allowed {
                AccessRequest::AlreadyAllowed
            } else {
                AccessRequest::AskPlatform
            },
    {
        if self.access == GeolocationAccess::Allowed {
            AccessRequest::AlreadyAllowed
        } else {
            AccessRequest::AskPlatform
        }
    }

    /// Whether coordinates may be fetched: an access-denied error unless
    /// access was allowed.
    pub fn check_coordinates_access(&self) -> (res: Result<(), GeolocationError>)
        ensures
            self.access == GeolocationAccess::Allowed ==> res is Ok,
            self.access != GeolocationAccess::Allowed ==> res matches Err(
                GeolocationError::AccessDenied,
            ),
    {
        if self.access != GeolocationAccess::Allowed {
            return Err(GeolocationError::AccessDenied);
        }
        Ok(())
    }
}

/// What the location device reports.
pub enum GeolocationEvent<C> {
    /// New coordinates.
    NewGeocoordinates(C),
    /// The device's status changed.
    StatusChanged(DeviceStatus),
}

/// The latest reading after an event: new coordinates replace it, a device
/// that becomes disabled turns it into an access-denied error, and other
/// status changes leave it as it was.
pub open spec fn next_reading<C>(current: Result<C, GeolocationError>, event: GeolocationEvent<C>) -> Result<
    C,
    GeolocationError,
> {
    match event {
        GeolocationEvent::NewGeocoordinates(c) => Ok(c),
        GeolocationEvent::StatusChanged(s) => if s == DeviceStatus::Disabled {
            Err(GeolocationError::AccessDenied)
        } else {
            current
        },
    }
}

/// New coordinates become the reading whatever it was before, an error
/// included; a device that becomes disabled turns any reading into an
/// access-denied error; any other status change leaves the reading as it
/// was.
pub proof fn lemma_reading_after_event<C>(current: Result<C, GeolocationError>, c: C, s: DeviceStatus)
    ensures
        next_reading(current, GeolocationEvent::NewGeocoordinates(c)) == Ok::<C, GeolocationError>(c),
        s == DeviceStatus::Disabled ==> next_reading(current, GeolocationEvent::StatusChanged(s))
            == Err::<C, GeolocationError>(GeolocationError::AccessDenied),
        s != DeviceStatus::Disabled ==> next_reading(current, GeolocationEvent::StatusChanged(s))
            == current,
{
}

/// Updates the latest reading with an event.
pub fn apply_event<C>(current: Result<C, GeolocationError>, event: GeolocationEvent<C>) -> (res:
    Result<C, GeolocationError>)
    ensures
        res == next_reading(current, event),
{
    match event {
        GeolocationEvent::NewGeocoordinates(c) => Ok(c),
        GeolocationEvent::StatusChanged(s) => {
            if s == DeviceStatus::Disabled {
                Err(GeolocationError::AccessDenied)
            } else {
                current
            }
        },
    }
}

} // verus!
