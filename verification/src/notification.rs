//! Desktop notifications: what a notification says and how long it shows.
use vstd::prelude::*;

verus! {

/// How long a notification shows.
#[derive(Debug, PartialEq, Eq, Clone, Copy, Structural)]
pub enum NotificationTimeout {
    /// The target system's default.
    Default,
    Never,
    Milliseconds(u32),
}

/// What a notification says, built up with setters.
pub struct Notification {
    pub app_name: String,
    pub summary: String,
    pub body: String,
    pub icon_path: String,
    pub timeout: NotificationTimeout,
}

impl Notification {
    /// A notification with empty texts and the default timeout.
    pub fn new() -> (res: Self)
        ensures
            res.app_name@ == Seq::<char>::empty(),
            res.summary@ == Seq::<char>::empty(),
            res.body@ == Seq::<char>::empty(),
            res.icon_path@ == Seq::<char>::empty(),
            res.timeout == NotificationTimeout::Default,
    {
        Notification {
            app_name: String::new(),
            summary: String::new(),
            body: String::new(),
            icon_path: String::new(),
            timeout: NotificationTimeout::Default,
        }
    }

    /// Sets the application's name.
    pub fn app_name(&mut self, value: String) -> (res: &mut Self)
        ensures
            *res == (Notification { app_name: value, ..*old(self) }),
            *final(self) == *final(res),
    {
        self.app_name = value;
        self
    }

    /// Sets the summary.
    pub fn summary(&mut self, value: String) -> (res: &mut Self)
        ensures
            *res == (Notification { summary: value, ..*old(self) }),
            *final(self) == *final(res),
    {
        self.summary = value;
        self
    }

    /// Sets the body.
    pub fn body(&mut self, value: String) -> (res: &mut Self)
        ensures
            *res == (Notification { body: value, ..*old(self) }),
            *final(self) == *final(res),
    {
        self.body = value;
        self
    }

    /// Sets the full path of the image to show (used on Linux only).
    pub fn icon_path(&mut self, value: String) -> (res: &mut Self)
        ensures
            *res == (Notification { icon_path: value, ..*old(self) }),
            *final(self) == *final(res),
    {
        self.icon_path = value;
        self
    }

    /// Sets when the notification hides.
    pub fn timeout(&mut self, value: NotificationTimeout) -> (res: &mut Self)
        ensures
            *res == (Notification { timeout: value, ..*old(self) }),
            *final(self) == *final(res),
    {
        self.timeout = value;
        self
    }
}

impl Default for Notification {
    fn default() -> (res: Self)
        ensures
            res.app_name@ == Seq::<char>::empty(),
            res.summary@ == Seq::<char>::empty(),
            res.body@ == Seq::<char>::empty(),
            res.icon_path@ == Seq::<char>::empty(),
            res.timeout == NotificationTimeout::Default,
    {
        Self::new()
    }
}

/// Errors when showing a notification.
pub enum NotificationError {
    /// The system failed to show the notification; the text says why.
    FailedToShowNotification(String),
}

impl NotificationError {
    /// The error's text.
    pub fn message(&self) -> (res: String)
        ensures
            match self {
                NotificationError::FailedToShowNotification(s) => res@ == s@,
            },
    {
        match self {
            NotificationError::FailedToShowNotification(s) => s.clone(),
        }
    }

    /// The outcome of showing a notification, with the system's failure
    /// text kept as this error.
    pub fn from_outcome(outcome: Result<(), String>) -> (res: Result<(), NotificationError>)
        ensures
            match outcome {
                Ok(()) => res is Ok,
                Err(s) => res matches Err(NotificationError::FailedToShowNotification(t)) && t
                    == s,
            },
    {
        match outcome {
            Ok(()) => Ok(()),
            Err(s) => Err(NotificationError::FailedToShowNotification(s)),
        }
    }
}

} // verus!
