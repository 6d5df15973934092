//! What is offered on the session bus.
use ewm::dbus::display_config::DisplayConfig;
use ewm::dbus::screen_cast::{
    accepts_path, session_path, stream_path, ScreenCast, ScreenCastError, ScreenCastToCompositor, Session,
    Stream, StreamNumbers,
};
use ewm::dbus::{accepts_service_client, CastTarget, OutputInfo};

fn output(name: &str, x: i32, width: i32, refresh: u32) -> OutputInfo {
    OutputInfo { name: name.to_string(), x, y: 5, width, height: 1080, refresh }
}

#[test]
fn object_paths_are_numbered() {
    assert_eq!(session_path(0), "/org/gnome/Mutter/ScreenCast/Session/u0");
    assert_eq!(session_path(41), "/org/gnome/Mutter/ScreenCast/Session/u41");
    assert_eq!(stream_path(7), "/org/gnome/Mutter/ScreenCast/Stream/u7");
    assert_ne!(session_path(1), session_path(10));
}

#[test]
fn object_paths_are_checked() {
    assert!(accepts_path("/"));
    assert!(accepts_path("/org/gnome/_1"));
    assert!(accepts_path(&session_path(3)));
    assert!(!accepts_path(""));
    assert!(!accepts_path("org"));
    assert!(!accepts_path("/org/"));
    assert!(!accepts_path("//org"));
    assert!(!accepts_path("/ha.d"));
    assert!(!accepts_path("/größe"));
}

#[test]
fn sessions_get_numbers_of_their_own() {
    let mut sc = ScreenCast::new();
    let (a, pa) = sc.create_session(None);
    let (b, pb) = sc.create_session(Some(2));
    assert_eq!((a.id, a.cursor_mode), (0, 1));
    assert_eq!((b.id, b.cursor_mode), (1, 2));
    assert_ne!(pa, pb);
    assert!(sc.session_added(a.id, true).is_ok());
    let err = sc.session_added(b.id, false).unwrap_err();
    assert_eq!(err.message(), "session path already exists");
    assert_eq!(sc.sessions, vec![0]);
}

#[test]
fn streams_start_once_and_stop_once() {
    let outputs = vec![output("DP-1", 0, 1920, 60), output("DP-2", 1920, 2560, 144)];
    let mut numbers = StreamNumbers::new();
    let mut s = Session::new(3, 1);
    let (monitor, path) = s.record_monitor(&outputs, "DP-2", &mut numbers).unwrap();
    assert_eq!(path, stream_path(0));
    assert_eq!(monitor.parameters().size, (2560, 1080));
    let (window, path) = s.record_window(77, &mut numbers);
    assert_eq!(path, stream_path(1));
    assert_eq!(window.parameters().size, (1, 1));
    assert!(s.stream_added(monitor, true).is_ok());
    assert!(s.stream_added(window, true).is_ok());
    let started = s.start();
    assert_eq!(started.len(), 2);
    match &started[0] {
        ScreenCastToCompositor::StartCast { session_id, target, stream_id, cursor_mode } => {
            assert_eq!((*session_id, *stream_id, *cursor_mode), (3, 0, 1));
            assert!(matches!(target, CastTarget::Output { name } if name == "DP-2"));
        }
        _ => panic!("a start"),
    }
    assert!(matches!(
        &started[1],
        ScreenCastToCompositor::StartCast { target: CastTarget::Window { id: 77 }, .. }
    ));
    assert!(s.start().is_empty());
    let end = s.stop().unwrap();
    assert_eq!(end.streams, vec![0, 1]);
    assert!(matches!(end.message, ScreenCastToCompositor::StopCast { session_id: 3 }));
    assert!(s.stop().is_none());
}

#[test]
fn unknown_outputs_are_refused() {
    let mut numbers = StreamNumbers::new();
    let mut s = Session::new(0, 1);
    let err = s.record_monitor(&vec![], "DP-9", &mut numbers).unwrap_err();
    assert_eq!(err.message(), "output 'DP-9' not found");
    assert!(matches!(err, ScreenCastError::OutputNotFound { .. }));
    assert_eq!(numbers.take(), 0);
    let stream = Stream::new_window(5, 0, 1);
    let err = s.stream_added(stream, false).unwrap_err();
    assert_eq!(err.message(), "stream path already exists");
    assert!(s.streams.is_empty());
}

#[test]
fn stream_numbers_start_over() {
    let mut n = StreamNumbers { next: u64::MAX };
    assert_eq!(n.take(), u64::MAX);
    assert_eq!(n.take(), 0);
}

#[test]
fn monitors_are_listed_by_connector() {
    let config = DisplayConfig::new(vec![
        output("eDP-1", 0, 1920, 60_007),
        output("DP-2", 1920, 2560, 5),
        output("DP-10", 4480, 800, 1000),
    ]);
    let state = config.get_current_state();
    assert_eq!((state.serial, state.layout_mode), (0, 1));
    let names: Vec<&str> =
        state.monitors.iter().map(|m| m.names.connector.as_str()).collect();
    assert_eq!(names, vec!["DP-10", "DP-2", "eDP-1"]);
    assert_eq!(state.monitors[0].names.serial, "2");
    assert_eq!(state.monitors[0].names.vendor, "Unknown");
    assert_eq!(state.monitors[0].modes[0].id, "800x1080@1.000");
    assert_eq!(state.monitors[1].modes[0].id, "2560x1080@0.005");
    assert_eq!(state.monitors[2].modes[0].id, "1920x1080@60.007");
    assert_eq!(state.monitors[2].modes[0].supported_scales, vec![120, 150, 180, 240]);
    assert_eq!(state.monitors[2].display_name, "eDP-1");
    assert!(!state.monitors[2].is_builtin);
    let primary: Vec<bool> = state.logical_monitors.iter().map(|m| m.is_primary).collect();
    assert_eq!(primary, vec![false, false, true]);
    assert_eq!((state.logical_monitors[0].x, state.logical_monitors[0].y), (4480, 5));
    assert_eq!(config.power_save_mode(), -1);
}

#[test]
fn equal_names_stay_in_order() {
    let config = DisplayConfig::new(vec![output("A", 1, 10, 0), output("A", 2, 10, 0)]);
    let state = config.get_current_state();
    assert_eq!(state.monitors[0].names.serial, "0");
    assert_eq!(state.logical_monitors[1].x, 2);
}

#[test]
fn mode_names_match_the_formatted_rate() {
    for refresh in [0u32, 1, 999, 1000, 59_940, 60_007, 144_000, 4_294_967_295] {
        let config = DisplayConfig::new(vec![OutputInfo {
            name: "X".to_string(),
            x: 0,
            y: 0,
            width: -3,
            height: 7,
            refresh,
        }]);
        let state = config.get_current_state();
        let rate = refresh as f64 / 1000.0;
        assert_eq!(state.monitors[0].modes[0].id, format!("-3x7@{:.3}", rate));
    }
}

#[test]
fn only_the_portal_gets_a_connection() {
    assert!(accepts_service_client(1));
    assert!(!accepts_service_client(0));
    assert!(!accepts_service_client(2));
}
