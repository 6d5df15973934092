//! Queues between Emacs and the compositor, and what Emacs passes in.
use ewm::input::{
    parse_accel_profile, parse_click_method, parse_scroll_method, parse_tap_button_map,
    AccelProfile, ClickMethod, DeviceType, ScrollMethod, TapButtonMap,
};
use ewm::keys::InterceptedKey;
use ewm::keysyms::{
    intercept_keys, intercept_keys_module, key_name_guesses, resolve_keysym_from_name, KeyName,
    KeyNameGuess, KeySpec,
};
use ewm::lisp::{
    configure_idle_module, configure_input_module, configure_output_module, enabled_argument,
    list_xdg_apps, output_layout_module, read_input_config, InputConfigError, InstalledApp,
    LispValue, SurfacePlist,
};
use ewm::module::{
    create_activation_token, drain_commands, event_line, get_focus_history,
    get_in_prefix_sequence, get_intercepted_keys, peek_commands, peek_pending_frame_outputs,
    push_activation_token, record_focus, set_in_prefix_sequence, take_pending_focus,
    take_pending_frame_output, ActivationTokenPool, CommandQueue, CompositorState, FocusHistory,
    InterceptedKeys, ModuleCommand, PendingFrameOutputs, PrefixSequence, TokenStep,
    FOCUS_HISTORY_SIZE, TOKEN_POLLS,
};

#[test]
fn last_focus_command_is_taken_and_the_rest_stays() {
    let mut q = CommandQueue::new();
    q.push_command(ModuleCommand::Focus { id: 1 });
    q.push_command(ModuleCommand::GetLayouts);
    q.push_command(ModuleCommand::Focus { id: 2 });
    q.push_command(ModuleCommand::Close { id: 9 });
    assert_eq!(take_pending_focus(&mut q), Some(2));
    assert_eq!(take_pending_focus(&mut q), None);
    assert_eq!(peek_commands(&q).len(), 2);
    let all = drain_commands(&mut q);
    assert!(matches!(all[0], ModuleCommand::GetLayouts));
    assert!(matches!(all[1], ModuleCommand::Close { id: 9 }));
    assert!(drain_commands(&mut q).is_empty());
}

#[test]
fn frames_come_first_in_first_out() {
    let mut p = PendingFrameOutputs::pending_frame_outputs();
    p.prepare_frame("DP-1".to_string());
    p.prepare_frame("DP-2".to_string());
    assert_eq!(peek_pending_frame_outputs(&p), vec!["DP-1", "DP-2"]);
    assert_eq!(take_pending_frame_output(&mut p).as_deref(), Some("DP-1"));
    assert_eq!(take_pending_frame_output(&mut p).as_deref(), Some("DP-2"));
    assert_eq!(take_pending_frame_output(&mut p), None);
}

#[test]
fn bindings_and_prefix_flag() {
    let mut keys = InterceptedKeys::intercepted_keys();
    assert!(get_intercepted_keys(&keys).is_empty());
    let ik = InterceptedKey {
        keysym: 0x78,
        ctrl: true,
        alt: false,
        shift: false,
        logo: false,
        allow_fullscreen: true,
    };
    keys.set(vec![ik]);
    assert_eq!(get_intercepted_keys(&keys), vec![ik]);
    let mut flag = PrefixSequence { active: false };
    set_in_prefix_sequence(&mut flag, true);
    assert!(get_in_prefix_sequence(&flag));
}

#[test]
fn activation_tokens_are_waited_for() {
    let mut pool = ActivationTokenPool::activation_token_pool();
    assert!(matches!(create_activation_token(&mut pool, 0), TokenStep::AskAndWait));
    assert!(matches!(create_activation_token(&mut pool, 1), TokenStep::Wait));
    assert!(matches!(create_activation_token(&mut pool, TOKEN_POLLS), TokenStep::TimedOut));
    push_activation_token(&mut pool, "one".to_string());
    push_activation_token(&mut pool, "two".to_string());
    match create_activation_token(&mut pool, 3) {
        TokenStep::Ready(t) => assert_eq!(t, "one"),
        _ => panic!("a token is there"),
    }
    assert_eq!(pool.pop_activation_token().as_deref(), Some("two"));
}

#[test]
fn focus_history_holds_the_last_changes() {
    let mut h = FocusHistory::focus_history();
    for i in 0..25u64 {
        record_focus(&mut h, i, "test", if i == 24 { Some("last") } else { None });
    }
    let events = get_focus_history(&h);
    assert_eq!(events.len(), FOCUS_HISTORY_SIZE);
    assert_eq!(events[0].surface_id, 5);
    assert_eq!(events[0].seq, 5);
    assert_eq!(events[19].surface_id, 24);
    assert_eq!(events[19].context.as_deref(), Some("last"));
    assert_eq!(events[3].source, "test");
}

#[test]
fn starting_and_stopping() {
    let mut s = CompositorState::compositor_state();
    assert!(s.start(false));
    assert!(!s.start(true));
    assert!(!s.stop(false));
    assert!(!s.stop_requested);
    assert!(s.stop(true));
    assert!(s.stop_requested);
    assert!(s.start(false));
    assert!(!s.stop_requested);
    assert!(s.debug_mode_module(None));
    assert!(!s.debug_mode_module(None));
    assert!(s.debug_mode_module(Some(true)));
    assert!(s.debug_mode_module(Some(true)));
    assert_eq!(event_line(vec![123, 125]), vec![123, 125, 10]);
}

fn plist(id: i64, x: i64, focused: LispValue) -> SurfacePlist {
    SurfacePlist { id, x, y: -1, w: 640, h: 480, focused, fullscreen: LispValue::False }
}

#[test]
fn layouts_are_read_from_plists() {
    let surfaces = vec![plist(3, 10, LispValue::Other), plist(4, -5, LispValue::Nil)];
    let tabs = vec![(Some("one".to_string()), LispValue::Other), (None, LispValue::False)];
    match output_layout_module("DP-1".to_string(), &surfaces, &tabs) {
        ModuleCommand::OutputLayout { output, surfaces, tabs } => {
            assert_eq!(output, "DP-1");
            assert_eq!(surfaces[0].id, 3);
            assert!(surfaces[0].focused && !surfaces[0].fullscreen && !surfaces[0].primary);
            assert_eq!((surfaces[1].x, surfaces[1].y), (-5, -1));
            assert!(!surfaces[1].focused);
            assert_eq!(tabs[0].name, "one");
            assert!(tabs[0].active);
            assert_eq!(tabs[1].name, "");
            assert!(!tabs[1].active);
        }
        _ => panic!("a layout"),
    }
}

#[test]
fn flags_of_arguments() {
    assert_eq!(enabled_argument(&LispValue::Unset), None);
    assert_eq!(enabled_argument(&LispValue::Nil), Some(false));
    assert_eq!(enabled_argument(&LispValue::Other), Some(true));
    assert!(LispValue::Other.is_true());
    assert!(!LispValue::False.is_true());
    assert!(LispValue::False.is_not_nil());
}

#[test]
fn output_and_idle_commands() {
    let cmd = configure_output_module(
        "DP-1".to_string(),
        Some(10),
        None,
        None,
        None,
        None,
        Some(180),
        Some(1),
        &LispValue::Unset,
    );
    match cmd {
        ModuleCommand::ConfigureOutput { name, x, y, scale_120, transform, enabled, .. } => {
            assert_eq!(name, "DP-1");
            assert_eq!(x, Some(10));
            assert_eq!(y, None);
            assert_eq!(scale_120, Some(180));
            assert_eq!(transform, Some(1));
            assert_eq!(enabled, None);
        }
        _ => panic!("an output"),
    }
    match configure_idle_module(Some(300), None) {
        ModuleCommand::ConfigureIdle { timeout_secs, .. } => assert_eq!(timeout_secs, Some(300)),
        _ => panic!("idle"),
    }
    match configure_idle_module(None, Some("lock".to_string())) {
        ModuleCommand::ConfigureIdle { timeout_secs, action } => {
            assert_eq!(timeout_secs, None);
            assert_eq!(action, "lock");
        }
        _ => panic!("idle"),
    }
}

fn pair(k: &str, v: LispValue) -> (String, LispValue) {
    (k.to_string(), v)
}

fn text(s: &str) -> LispValue {
    LispValue::Text(s.to_string())
}

#[test]
fn later_input_setting_wins() {
    let p = vec![
        pair(":type", text("mouse")),
        pair(":accel-profile", text("flat")),
        pair(":accel-profile", text("adaptive")),
    ];
    let read = read_input_config(&p).unwrap();
    assert_eq!(read.accel_profile, Some(AccelProfile::Adaptive));
    let once = read_input_config(&vec![
        pair(":type", text("mouse")),
        pair(":accel-profile", text("adaptive")),
    ]);
    assert_eq!(once.unwrap().accel_profile, read.accel_profile);
}

#[test]
fn input_settings_are_read() {
    let p = vec![
        pair(":type", text("touchpad")),
        pair(":natural-scroll", LispValue::Other),
        pair(":tap", LispValue::False),
        pair(":accel-profile", text("flat")),
        pair(":repeat-rate", LispValue::Int(25)),
        pair(":tap", LispValue::Other),
    ];
    let e = read_input_config(&p).unwrap();
    assert_eq!(e.device_type, Some(DeviceType::Touchpad));
    assert_eq!(e.natural_scroll, Some(true));
    assert_eq!(e.tap, Some(true));
    assert_eq!(e.accel_profile, Some(AccelProfile::Flat));
    assert_eq!(e.repeat_rate, Some(25));
    assert_eq!(e.dwt, None);
}

#[test]
fn input_errors_are_told_apart() {
    let invalid = read_input_config(&vec![pair(":accel-profile", text("fast"))]);
    assert!(matches!(invalid, Err(InputConfigError::InvalidValue { .. })));
    let unknown = read_input_config(&vec![pair(":speed", text("fast"))]);
    assert!(matches!(unknown, Err(InputConfigError::UnknownKey { .. })));
    let wrong = read_input_config(&vec![pair(":accel-profile", LispValue::Int(1))]);
    assert!(matches!(wrong, Err(InputConfigError::WrongType)));
    let good = vec![pair(":tap", LispValue::Other)];
    let bad = vec![pair(":nothing", LispValue::Other)];
    assert!(configure_input_module(&vec![good, bad]).is_err());
}

#[test]
fn names_of_input_settings() {
    assert_eq!(parse_accel_profile("flat"), Some(AccelProfile::Flat));
    assert_eq!(parse_accel_profile("adaptive"), Some(AccelProfile::Adaptive));
    assert_eq!(parse_accel_profile("Flat"), None);
    assert_eq!(parse_click_method("button-areas"), Some(ClickMethod::ButtonAreas));
    assert_eq!(parse_click_method("clickfinger"), Some(ClickMethod::Clickfinger));
    assert_eq!(parse_click_method(""), None);
    assert_eq!(parse_scroll_method("no-scroll"), Some(ScrollMethod::NoScroll));
    assert_eq!(parse_scroll_method("two-finger"), Some(ScrollMethod::TwoFinger));
    assert_eq!(parse_scroll_method("edge"), Some(ScrollMethod::Edge));
    assert_eq!(parse_scroll_method("on-button-down"), Some(ScrollMethod::OnButtonDown));
    assert_eq!(parse_scroll_method("x"), None);
    assert_eq!(parse_tap_button_map("left-right-middle"), Some(TapButtonMap::LeftRightMiddle));
    assert_eq!(parse_tap_button_map("left-middle-right"), Some(TapButtonMap::LeftMiddleRight));
    assert_eq!(parse_tap_button_map("middle"), None);
    assert_eq!(DeviceType::parse("mouse"), Some(DeviceType::Mouse));
    assert_eq!(DeviceType::parse("trackball"), Some(DeviceType::Trackball));
    assert_eq!(DeviceType::parse("trackpoint"), Some(DeviceType::Trackpoint));
    assert_eq!(DeviceType::parse("keyboard"), Some(DeviceType::Keyboard));
    assert_eq!(DeviceType::parse("pen"), None);
}

fn table(g: KeyNameGuess) -> u32 {
    let known: &[(&str, u32)] = &[
        ("left", 0xff51),
        ("page_up", 0xff55),
        ("xf86audiomute", 0x1008_ff12),
        ("ISO_Left_Tab", 0xfe20),
    ];
    let name = if g.ignore_case { g.name.to_lowercase() } else { g.name };
    known.iter().find(|(n, _)| *n == name).map_or(0, |(_, k)| *k)
}

#[test]
fn keysyms_are_looked_up_by_name() {
    let guesses = key_name_guesses("page-up");
    let names: Vec<&str> = guesses.iter().map(|g| g.name.as_str()).collect();
    assert_eq!(names, vec!["page-up", "page_up", "XF86page-up"]);
    assert_eq!(key_name_guesses("left").len(), 2);
    let compound = key_name_guesses("iso-lefttab");
    assert_eq!(compound[3].name, "ISO_Left_Tab");
    assert!(!compound[3].ignore_case);
    assert_eq!(resolve_keysym_from_name("Left", &table), 0xff51);
    assert_eq!(resolve_keysym_from_name("page-up", &table), 0xff55);
    assert_eq!(resolve_keysym_from_name("AudioMute", &table), 0x1008_ff12);
    assert_eq!(resolve_keysym_from_name("iso-lefttab", &table), 0xfe20);
    assert_eq!(resolve_keysym_from_name("nonsense", &table), 0);
}

#[test]
fn intercepted_keys_follow_their_descriptions() {
    let spec = |key: KeyName, ctrl: LispValue| KeySpec {
        key,
        ctrl,
        alt: LispValue::Nil,
        shift: LispValue::Nil,
        logo: LispValue::False,
        allow_fullscreen: LispValue::Other,
    };
    let specs = vec![
        spec(KeyName::Name("Left".to_string()), LispValue::Other),
        spec(KeyName::Name("nonsense".to_string()), LispValue::Other),
        spec(KeyName::Neither, LispValue::Other),
        spec(KeyName::Codepoint(0x61), LispValue::Nil),
        spec(KeyName::Codepoint(0), LispValue::Nil),
    ];
    let codepoint = |c: u32| c;
    let mut stored = InterceptedKeys::intercepted_keys();
    let one = vec![spec(KeyName::Codepoint(0x7a), LispValue::Nil)];
    intercept_keys_module(&mut stored, &one, &table, &codepoint);
    assert_eq!(stored.keys.len(), 1);
    intercept_keys_module(&mut stored, &specs, &table, &codepoint);
    let keys = get_intercepted_keys(&stored);
    assert_eq!(keys, intercept_keys(&specs, &table, &codepoint));
    assert_eq!(keys.len(), 2);
    assert_eq!((keys[0].keysym, keys[1].keysym), (0xff51, 0x61));
    assert!(keys[0].ctrl && !keys[0].alt && !keys[0].logo && keys[0].allow_fullscreen);
    assert!(!keys[1].ctrl);
}

#[test]
fn only_runnable_applications_are_listed() {
    let app = |show: bool, name: &str, cmd: Option<&str>| InstalledApp {
        should_show: show,
        name: name.to_string(),
        commandline: cmd.map(|c| c.to_string()),
    };
    let apps = vec![
        app(true, "A", Some("a %u")),
        app(false, "B", Some("b")),
        app(true, "C", None),
        app(true, "D", Some("d")),
    ];
    let list = list_xdg_apps(&apps);
    assert_eq!(list.len(), 2);
    assert_eq!(list[0], ("A".to_string(), "a %u".to_string()));
    assert_eq!(list[1], ("D".to_string(), "d".to_string()));
}
