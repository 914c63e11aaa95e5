use dioxus_sdk::camera::{get_camera_devices, CameraStream, FpsSelector};
use dioxus_sdk::channel::{
    continues_after, delivers, handled_items, keeps_listening, starts_listening,
    ChannelListenerState, Received, UseListenChannel,
};
use dioxus_sdk::clipboard::ClipboardError;
use dioxus_sdk::clipboard_access;
use dioxus_sdk::conn::{ConnError, Manager, Message};
use dioxus_sdk::error::DioxusStdError;
use dioxus_sdk::geolocation::{
    access_from_status, apply_event, AccessRequest, DeviceStatus, GeolocationAccess,
    GeolocationError, GeolocationEvent, Geolocator, PlatformAccessStatus,
};
use dioxus_sdk::notification::{Notification, NotificationError, NotificationTimeout};
use dioxus_sdk::theme::{
    determine_scheme, scheme_from_query, theme_from_desktop, theme_from_query, theme_from_window,
    DarkQuery, PreferredColorScheme, PreferredColorSchemeError, SchemeQuery, SystemTheme,
    SystemThemeError, WindowSize, WindowTheme,
};
use dioxus_sdk::timing::Debounce;

#[test]
fn notification_builder_sets_fields() {
    let mut n = Notification::new();
    n.app_name("dioxus test".to_string())
        .summary("hi, this is dioxus test".to_string())
        .body("lorem ipsum??".to_string())
        .timeout(NotificationTimeout::Milliseconds(10));
    assert_eq!(n.app_name, "dioxus test");
    assert_eq!(n.summary, "hi, this is dioxus test");
    assert_eq!(n.body, "lorem ipsum??");
    assert_eq!(n.icon_path, "");
    assert_eq!(n.timeout, NotificationTimeout::Milliseconds(10));
    let d = Notification::default();
    assert_eq!(d.timeout, NotificationTimeout::Default);
    n.icon_path("/tmp/icon.png".to_string());
    assert_eq!(n.icon_path, "/tmp/icon.png");
}

#[test]
fn notification_errors_keep_the_system_text() {
    let e = NotificationError::FailedToShowNotification("no daemon".to_string());
    assert_eq!(e.message(), "no daemon");
    match NotificationError::from_outcome(Err("boom".to_string())) {
        Err(NotificationError::FailedToShowNotification(s)) => assert_eq!(s, "boom"),
        Ok(()) => panic!("expected an error"),
    }
    assert!(NotificationError::from_outcome(Ok(())).is_ok());
}

#[test]
fn error_texts() {
    assert_eq!(DioxusStdError::Clipboard("x".to_string()).message(), "clipboard error: x");
    assert_eq!(DioxusStdError::Notification("y".to_string()).message(), "notification error: y");
    assert_eq!(DioxusStdError::Camera("z".to_string()).message(), "camera error: z");
    assert_eq!(
        DioxusStdError::Geolocation(GeolocationError::AccessDenied).message(),
        "geolocation error: AccessDenied"
    );
    assert_eq!(
        DioxusStdError::Geolocation(GeolocationError::DeviceError("a \"b\"".to_string())).message(),
        "geolocation error: DeviceError(\"a \\\"b\\\"\")"
    );
    assert_eq!(ClipboardError::FailedToInit("i".to_string()).message(), "i");
    assert_eq!(ClipboardError::FailedToFetchContent("f".to_string()).message(), "f");
    assert_eq!(ClipboardError::FailedToSetContent("s".to_string()).message(), "s");
}

#[test]
fn clipboard_handle_errors() {
    assert_eq!(clipboard_access::read_outcome::<()>(Ok("c".to_string())), Ok("c".to_string()));
    assert_eq!(
        clipboard_access::read_outcome::<()>(Err(())),
        Err(clipboard_access::ClipboardError::FailedToRead)
    );
    assert_eq!(
        clipboard_access::write_outcome::<()>(Err(())),
        Err(clipboard_access::ClipboardError::FailedToSet)
    );
    assert_eq!(clipboard_access::write_outcome::<()>(Ok(())), Ok(()));
}

#[test]
fn camera_stream_flags() {
    match get_camera_devices() {
        Err(DioxusStdError::Camera(s)) => assert_eq!(s, "this feature is a work in progress"),
        _ => panic!("expected a camera error"),
    }
    let mut s = CameraStream::new();
    assert!(s.open_needs_call());
    assert!(s.opened(Ok(())).is_ok());
    assert!(!s.open_needs_call());
    assert!(s.stop_needs_call());
    assert!(s.stopped(Ok(())).is_ok());
    assert!(s.stream_open);
    let mut closed = CameraStream::new();
    match closed.opened(Err("busy".to_string())) {
        Err(DioxusStdError::Camera(t)) => assert_eq!(t, "busy"),
        _ => panic!("expected a camera error"),
    }
    assert!(!closed.stream_open);
    assert_eq!(FpsSelector::Custom(30), FpsSelector::Custom(30));
}

#[test]
fn listener_state_rules() {
    let mut l = UseListenChannel::new();
    assert_eq!(l.listener_state, ChannelListenerState::Running);
    l.stop();
    l.stop();
    assert_eq!(l.listener_state, ChannelListenerState::Stopped);
    l.resume();
    assert_eq!(l.listener_state, ChannelListenerState::Running);
    assert!(starts_listening(ChannelListenerState::Running));
    assert!(!starts_listening(ChannelListenerState::Stopped));
    assert!(delivers(ChannelListenerState::Running, Received::Message));
    assert!(!delivers(ChannelListenerState::Stopped, Received::Message));
    assert!(!delivers(ChannelListenerState::Running, Received::Overflowed));
    assert!(keeps_listening(ChannelListenerState::Running, Received::Overflowed));
    assert!(!keeps_listening(ChannelListenerState::Running, Received::Closed));
    assert!(!keeps_listening(ChannelListenerState::Stopped, Received::Message));
    assert!(continues_after(Received::Message));
    assert!(!continues_after(Received::Closed));
}

#[test]
fn debounce_spacing() {
    let mut d = Debounce::new(100);
    assert!(d.offer(1000));
    assert!(!d.offer(1050));
    assert!(!d.offer(1099));
    assert!(d.offer(1100));
    assert_eq!(d.last_called, Some(1100));
    assert!(!d.offer(50));
}

#[test]
fn geolocation_rules() {
    assert_eq!(access_from_status(PlatformAccessStatus::Allowed), GeolocationAccess::Allowed);
    assert_eq!(access_from_status(PlatformAccessStatus::Denied), GeolocationAccess::Denied);
    assert_eq!(access_from_status(PlatformAccessStatus::Other), GeolocationAccess::Unspecified);
    assert_eq!(DeviceStatus::from_code(0), DeviceStatus::Ready);
    assert_eq!(DeviceStatus::from_code(1), DeviceStatus::Initializing);
    assert_eq!(DeviceStatus::from_code(2), DeviceStatus::Unknown);
    assert_eq!(DeviceStatus::from_code(3), DeviceStatus::Disabled);
    assert_eq!(DeviceStatus::from_code(5), DeviceStatus::NotAvailable);
    let allowed = Geolocator::new(GeolocationAccess::Allowed, ());
    assert_eq!(allowed.request_access(), AccessRequest::AlreadyAllowed);
    assert!(allowed.check_coordinates_access().is_ok());
    let denied = Geolocator::new(GeolocationAccess::Denied, ());
    assert_eq!(denied.request_access(), AccessRequest::AskPlatform);
    assert!(matches!(denied.check_coordinates_access(), Err(GeolocationError::AccessDenied)));
    let r = apply_event(Ok(1), GeolocationEvent::NewGeocoordinates(2));
    assert!(matches!(r, Ok(2)));
    let r = apply_event(r, GeolocationEvent::StatusChanged(DeviceStatus::Ready));
    assert!(matches!(r, Ok(2)));
    let r = apply_event(r, GeolocationEvent::StatusChanged(DeviceStatus::Disabled));
    assert!(matches!(r, Err(GeolocationError::AccessDenied)));
}

#[test]
fn connection_routing() {
    let mut m: Manager<u8> = Manager::new();
    m.channel("chat".to_string(), 1);
    m.channel("news".to_string(), 2);
    let msg = Message::new("chat".to_string(), "hi".to_string());
    assert_eq!(m.route(&msg), Some(&1));
    assert_eq!(m.route(&Message::new("other".to_string(), "x".to_string())), None);
    m.channel("chat".to_string(), 3);
    assert_eq!(m.route(&msg), Some(&3));
    assert_eq!(msg.data, "hi");
    assert!(matches!(ConnError::Send("e".to_string()), ConnError::Send(_)));
}

#[test]
fn theme_rules() {
    assert_eq!(SystemTheme::Light.name(), "light");
    assert_eq!(SystemTheme::Dark.name(), "dark");
    assert_eq!(SystemThemeError::NotSupported.message(), "the current platform is not supported");
    assert_eq!(theme_from_window(WindowTheme::Dark), Ok(SystemTheme::Dark));
    assert_eq!(theme_from_window(WindowTheme::Other), Err(SystemThemeError::UnknownTheme));
    assert_eq!(theme_from_query(DarkQuery::NoWindow), Err(SystemThemeError::NotSupported));
    assert_eq!(theme_from_query(DarkQuery::QueryFailed), Err(SystemThemeError::CheckFailed));
    assert_eq!(theme_from_query(DarkQuery::NoMatchList), Err(SystemThemeError::UnknownTheme));
    assert_eq!(theme_from_query(DarkQuery::Matches(true)), Ok(SystemTheme::Dark));
    assert_eq!(theme_from_query(DarkQuery::Matches(false)), Ok(SystemTheme::Light));
    assert_eq!(determine_scheme(true), PreferredColorScheme::Dark);
    assert_eq!(determine_scheme(false), PreferredColorScheme::Light);
    assert_eq!(PreferredColorSchemeError::NotSupported("n".to_string()).message(), "n");
    let size = WindowSize { width: 3, height: 4 };
    assert_eq!(size.width + size.height, 7);
}

#[test]
fn listener_hands_over_outcomes_until_close() {
    let (m, o, c) = (Received::Message, Received::Overflowed, Received::Closed);
    assert_eq!(handled_items(&vec![m, o, m, c, m]), 4);
    assert_eq!(handled_items(&vec![m, m]), 2);
    assert_eq!(handled_items(&vec![c, m]), 1);
    assert_eq!(handled_items(&vec![]), 0);
}

#[test]
fn desktop_theme_needs_a_window() {
    assert_eq!(theme_from_desktop(None), Err(SystemThemeError::NotSupported));
    assert_eq!(theme_from_desktop(Some(WindowTheme::Light)), Ok(SystemTheme::Light));
    assert_eq!(theme_from_desktop(Some(WindowTheme::Dark)), Ok(SystemTheme::Dark));
    assert_eq!(theme_from_desktop(Some(WindowTheme::Other)), Err(SystemThemeError::UnknownTheme));
}

#[test]
fn preferred_scheme_from_browser_answer() {
    match scheme_from_query(SchemeQuery::NoWindow) {
        Err(PreferredColorSchemeError::NotSupported(s)) => {
            assert_eq!(s, "this feature is only supported on web assembly")
        }
        _ => panic!("expected not supported"),
    }
    match scheme_from_query(SchemeQuery::NoMatchList) {
        Err(PreferredColorSchemeError::SchemeCheckFailed(s)) => assert_eq!(s, "failed to determine color scheme"),
        _ => panic!("expected a check failure"),
    }
    match scheme_from_query(SchemeQuery::QueryFailed(Some("boom".to_string()))) {
        Err(PreferredColorSchemeError::SchemeCheckFailed(s)) => assert_eq!(s, "boom"),
        _ => panic!("expected a check failure"),
    }
    match scheme_from_query(SchemeQuery::QueryFailed(None)) {
        Err(PreferredColorSchemeError::SchemeCheckFailed(s)) => {
            assert_eq!(s, "Failed to determine preferred scheme and couldn't retrieve error")
        }
        _ => panic!("expected a check failure"),
    }
    assert!(matches!(scheme_from_query(SchemeQuery::Matches(true)), Ok(PreferredColorScheme::Dark)));
    assert!(matches!(scheme_from_query(SchemeQuery::Matches(false)), Ok(PreferredColorScheme::Light)));
}
