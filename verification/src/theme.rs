//! The system theme and the user's preferred color scheme, and how the
//! platform's answers turn into them.
use vstd::prelude::*;

verus! {

/// The system theme.
#[derive(Debug, Clone, Copy, PartialEq, Eq, Structural)]
pub enum SystemTheme {
    Light,
    Dark,
}

impl SystemTheme {
    /// The theme's name: `light` or `dark`.
    pub fn name(&self) -> (res: &'static str)
        ensures
            res@ == match self {
                SystemTheme::Light => "light"@,
                SystemTheme::Dark => "dark"@,
            },
    {
        match self {
            SystemTheme::Light => "light",
            SystemTheme::Dark => "dark",
        }
    }
}

/// Errors of the system theme utilities.
#[derive(Debug, Clone, Copy, PartialEq, Eq, Structural)]
pub enum SystemThemeError {
    /// System theme is not supported on this platform.
    NotSupported,
    /// Failed to get the system theme.
    CheckFailed,
    /// System returned an unknown theme.
    UnknownTheme,
}

impl SystemThemeError {
    /// The text this error displays as.
    pub fn message(&self) -> (res: &'static str)
        ensures
            res@ == match self {
                SystemThemeError::NotSupported => "the current platform is not supported"@,
                SystemThemeError::CheckFailed => "the system returned an error while checking the color theme"@,
                SystemThemeError::UnknownTheme => "the system provided a theme other than `light` or `dark`"@,
            },
    {
        match self {
            SystemThemeError::NotSupported => "the current platform is not supported",
            SystemThemeError::CheckFailed => "the system returned an error while checking the color theme",
            SystemThemeError::UnknownTheme => "the system provided a theme other than `light` or `dark`",
        }
    }
}

/// The theme a desktop window reports.
#[derive(Debug, Clone, Copy, PartialEq, Eq, Structural)]
pub enum WindowTheme {
    Light,
    Dark,
    Other,
}

/// The system theme a window's theme stands for; other themes are unknown.
pub fn theme_from_window(theme: WindowTheme) -> (res: Result<SystemTheme, SystemThemeError>)
    ensures
        res == match theme {
            WindowTheme::Light => Ok::<SystemTheme, SystemThemeError>(SystemTheme::Light),
            WindowTheme::Dark => Ok(SystemTheme::Dark),
            WindowTheme::Other => Err(SystemThemeError::UnknownTheme),
        },
{
    match theme {
        WindowTheme::Light => Ok(SystemTheme::Light),
        WindowTheme::Dark => Ok(SystemTheme::Dark),
        WindowTheme::Other => Err(SystemThemeError::UnknownTheme),
    }
}

/// The system theme on the desktop: not supported when there is no desktop
/// window to ask, else what the window's theme stands for.
pub fn theme_from_desktop(window: Option<WindowTheme>) -> (res: Result<SystemTheme, SystemThemeError>)
    ensures
        res == match window {
            None => Err::<SystemTheme, SystemThemeError>(SystemThemeError::NotSupported),
            Some(t) => match t {
                WindowTheme::Light => Ok::<SystemTheme, SystemThemeError>(SystemTheme::Light),
                WindowTheme::Dark => Ok(SystemTheme::Dark),
                WindowTheme::Other => Err(SystemThemeError::UnknownTheme),
            },
        },
{
    match window {
        None => Err(SystemThemeError::NotSupported),
        Some(t) => theme_from_window(t),
    }
}

/// What the browser answered when asked whether dark is preferred.
#[derive(Debug, Clone, Copy, PartialEq, Eq, Structural)]
pub enum DarkQuery {
    /// There is no window.
    NoWindow,
    /// The media query failed.
    QueryFailed,
    /// The media query gave no list.
    NoMatchList,
    /// Whether the dark query matches.
    Matches(bool),
}

/// The system theme a browser answer stands for.
pub fn theme_from_query(answer: DarkQuery) -> (res: Result<SystemTheme, SystemThemeError>)
    ensures
        res == match answer {
            DarkQuery::NoWindow => Err::<SystemTheme, SystemThemeError>(SystemThemeError::NotSupported),
            DarkQuery::QueryFailed => Err(SystemThemeError::CheckFailed),
            DarkQuery::NoMatchList => Err(SystemThemeError::UnknownTheme),
            DarkQuery::Matches(true) => Ok(SystemTheme::Dark),
            DarkQuery::Matches(false) => Ok(SystemTheme::Light),
        },
{
    match answer {
        DarkQuery::NoWindow => Err(SystemThemeError::NotSupported),
        DarkQuery::QueryFailed => Err(SystemThemeError::CheckFailed),
        DarkQuery::NoMatchList => Err(SystemThemeError::UnknownTheme),
        DarkQuery::Matches(dark) => if dark {
            Ok(SystemTheme::Dark)
        } else {
            Ok(SystemTheme::Light)
        },
    }
}

/// The user's preferred color scheme.
#[derive(Debug, Clone, Copy, PartialEq, Eq, Structural)]
pub enum PreferredColorScheme {
    Light,
    Dark,
}

/// The scheme for a dark-preference answer.
pub fn determine_scheme(value: bool) -> (res: PreferredColorScheme)
    ensures
        res == if value {
            PreferredColorScheme::Dark
        } else {
            PreferredColorScheme::Light
        },
{
    if value {
        PreferredColorScheme::Dark
    } else {
        PreferredColorScheme::Light
    }
}

/// Errors of the preferred color scheme hook.
pub enum PreferredColorSchemeError {
    /// Used on an unsupported platform.
    NotSupported(String),
    /// The scheme could not be determined.
    SchemeCheckFailed(String),
}

impl PreferredColorSchemeError {
    /// The text this error displays as.
    pub fn message(&self) -> (res: String)
        ensures
            res@ == match self {
                PreferredColorSchemeError::NotSupported(s) => s@,
                PreferredColorSchemeError::SchemeCheckFailed(s) => s@,
            },
    {
        match self {
            PreferredColorSchemeError::NotSupported(s) => s.clone(),
            PreferredColorSchemeError::SchemeCheckFailed(s) => s.clone(),
        }
    }
}

/// What the browser answered when asked for the preferred color scheme.
pub enum SchemeQuery {
    /// There is no window.
    NoWindow,
    /// The media query failed, with the error's text when it has one.
    QueryFailed(Option<String>),
    /// The media query gave no list.
    NoMatchList,
    /// Whether the dark query matches.
    Matches(bool),
}

/// The preferred color scheme a browser answer stands for, or the error
/// with its text.
pub fn scheme_from_query(answer: SchemeQuery) -> (res: Result<PreferredColorScheme, PreferredColorSchemeError>)
    ensures
        match answer {
            SchemeQuery::NoWindow => res matches Err(PreferredColorSchemeError::NotSupported(s))
                && s@ == "this feature is only supported on web assembly"@,
            SchemeQuery::QueryFailed(Some(e)) => res matches Err(
                PreferredColorSchemeError::SchemeCheckFailed(s),
            ) && s == e,
            SchemeQuery::QueryFailed(None) => res matches Err(
                PreferredColorSchemeError::SchemeCheckFailed(s),
            ) && s@ == "Failed to determine preferred scheme and couldn't retrieve error"@,
            SchemeQuery::NoMatchList => res matches Err(
                PreferredColorSchemeError::SchemeCheckFailed(s),
            ) && s@ == "failed to determine color scheme"@,
            SchemeQuery::Matches(dark) => res == Ok::<PreferredColorScheme, PreferredColorSchemeError>(
                if dark {
                    PreferredColorScheme::Dark
                } else {
                    PreferredColorScheme::Light
                },
            ),
        },
{
    match answer {
        SchemeQuery::NoWindow => Err(
            PreferredColorSchemeError::NotSupported(
                String::from_str("this feature is only supported on web assembly"),
            ),
        ),
        SchemeQuery::QueryFailed(Some(e)) => Err(PreferredColorSchemeError::SchemeCheckFailed(e)),
        SchemeQuery::QueryFailed(None) => Err(
            PreferredColorSchemeError::SchemeCheckFailed(
                String::from_str("Failed to determine preferred scheme and couldn't retrieve error"),
            ),
        ),
        SchemeQuery::NoMatchList => Err(
            PreferredColorSchemeError::SchemeCheckFailed(
                String::from_str("failed to determine color scheme"),
            ),
        ),
        SchemeQuery::Matches(dark) => Ok(determine_scheme(dark)),
    }
}

/// The size of a window, screen or viewport, in pixels.
#[derive(Debug, Clone, Copy, PartialEq, Eq, Structural)]
pub struct WindowSize {
    pub width: u32,
    pub height: u32,
}

} // verus!
