//! Verified core of a toolkit of application utilities: translations with
//! language fallbacks, client storage encoding and in-memory stores, channel
//! listeners, debouncing, geolocation access rules, notifications and the
//! error types that the platform layer reports.
pub mod keymap;

pub mod chars;

pub mod langid;

pub mod i18n;

pub mod shared_i18n;

pub mod storage;

pub mod channel;

pub mod timing;

pub mod notification;

pub mod geolocation;

pub mod error;

pub mod clipboard;

pub mod clipboard_access;

pub mod camera;

pub mod conn;

pub mod theme;
