//! Text helpers, virtual terminals, and the session's environment.
use ewm::ewm::windows::{selection_read, wants_selection, window_program};
use ewm::event::Event;
use ewm::session::{
    current_vt, import_command, is_laptop_panel, session_environment, socket_name,
    variable_names, vt_suffix,
};
use ewm::tables::{IdMap, NameMap};
use ewm::text::{
    concat2, contains_str, parse_u32, precedes, printable, replace_char, split, starts_with,
    to_decimal, to_hex, trim,
};

#[test]
fn decimal_and_hexadecimal() {
    assert_eq!(to_decimal(0), "0");
    assert_eq!(to_decimal(907), "907");
    assert_eq!(to_decimal(u64::MAX), "18446744073709551615");
    assert_eq!(to_hex(0), "0");
    assert_eq!(to_hex(0xdead_beef), "deadbeef");
}

#[test]
fn numbers_are_parsed() {
    assert_eq!(parse_u32("12"), Some(12));
    assert_eq!(parse_u32("+7"), Some(7));
    assert_eq!(parse_u32("4294967295"), Some(u32::MAX));
    assert_eq!(parse_u32("4294967296"), None);
    assert_eq!(parse_u32(""), None);
    assert_eq!(parse_u32("+"), None);
    assert_eq!(parse_u32("1a"), None);
    assert_eq!(parse_u32("-1"), None);
}

#[test]
fn trimming_splitting_and_joining() {
    let white = "\u{9}\u{d}\u{20}\u{85}\u{a0}\u{1680}\u{2000}\u{200a}\u{2028}\u{2029}";
    assert_eq!(trim(&format!("{white}x\u{202f}\u{205f}\u{3000}")), "x");
    let rest = ["\u{8}", "\u{e}", "\u{84}", "\u{180e}", "\u{200b}", "\u{2060}", "\u{feff}"];
    for c in rest {
        assert_eq!(trim(c), c);
    }
    assert_eq!(trim(" \t us \n"), "us");
    assert_eq!(trim("\u{3000}x\u{2003}"), "x");
    assert_eq!(trim("   "), "");
    assert_eq!(split("a,,b", ','), vec!["a", "", "b"]);
    assert_eq!(split("", ','), vec![""]);
    assert_eq!(concat2("ab", "cd"), "abcd");
    assert_eq!(replace_char("a-b-c", '-', '_'), "a_b_c");
    assert!(contains_str("text/plain", "text"));
    assert!(!contains_str("image/png", "text"));
    assert!(contains_str("x", ""));
    assert!(starts_with("tty3", "tty"));
    assert!(!starts_with("tt", "tty"));
    assert!(printable("a"));
    assert!(!printable("\u{7f}"));
    assert!(!printable(""));
}

#[test]
fn texts_are_ordered_by_characters() {
    assert!(precedes("DP-1", "eDP-1"));
    assert!(precedes("DP-1", "DP-10"));
    assert!(precedes("DP-10", "DP-2"));
    assert!(!precedes("DP-1", "DP-1"));
    assert!(!precedes("b", "a"));
    assert!(precedes("", "a"));
}

#[test]
fn virtual_terminal_from_its_name() {
    assert_eq!(current_vt(Some("tty3\n")), Some(3));
    assert_eq!(current_vt(Some("tty12")), Some(12));
    assert_eq!(current_vt(Some("pts/3")), None);
    assert_eq!(current_vt(None), None);
    assert_eq!(vt_suffix(Some(2)), "-vt2");
    assert_eq!(vt_suffix(None), "");
    assert_eq!(socket_name(Some(2)), "wayland-ewm-vt2");
}

#[test]
fn built_in_panels() {
    assert!(is_laptop_panel("eDP-1"));
    assert!(is_laptop_panel("LVDS-1"));
    assert!(is_laptop_panel("DSI-1"));
    assert!(!is_laptop_panel("DP-1"));
    assert!(!is_laptop_panel("HDMI-A-1"));
}

#[test]
fn environment_of_the_session() {
    let vars = session_environment("wayland-ewm", None);
    assert!(vars.iter().any(|(k, v)| k == "WAYLAND_DISPLAY" && v == "wayland-ewm"));
    let with_x = session_environment("wayland-ewm", Some(":1"));
    assert!(with_x.iter().any(|(k, v)| k == "DISPLAY" && v == ":1"));
    assert_eq!(with_x.len(), vars.len() + 1);
    let pair = vec![
        ("A".to_string(), "1".to_string()),
        ("B".to_string(), "2".to_string()),
    ];
    assert_eq!(variable_names(&pair), "A B");
    assert!(import_command(&pair).contains("A B"));
}

#[test]
fn programs_of_windows() {
    assert_eq!(window_program(Some("firefox".to_string()), Some("x\n".to_string())), "firefox");
    assert_eq!(window_program(None, Some("emacs\n".to_string())), "emacs");
    assert_eq!(window_program(None, None), "unknown");
}

#[test]
fn selections_of_clients() {
    assert!(wants_selection(true, &vec!["image/png".to_string(), "text/plain".to_string()]));
    assert!(!wants_selection(true, &vec!["image/png".to_string()]));
    assert!(!wants_selection(false, &vec!["text/plain".to_string()]));
    match selection_read("größe".as_bytes().to_vec()) {
        Some(Event::SelectionChanged { text }) => assert_eq!(text, "größe"),
        _ => panic!("the text is told"),
    }
    assert!(selection_read(vec![]).is_none());
    assert!(selection_read(vec![0xff, 0xfe]).is_none());
}

#[test]
fn tables_keep_their_order() {
    let mut t: NameMap<u32> = NameMap::new();
    t.insert(&"b".to_string(), 1);
    t.insert(&"a".to_string(), 2);
    t.insert(&"b".to_string(), 3);
    assert_eq!(t.entries.len(), 2);
    assert_eq!(t.entries[0].0, "b");
    assert_eq!(t.get("b"), Some(&3));
    assert_eq!(t.remove("b"), Some(3));
    assert_eq!(t.remove("b"), None);
    assert!(!t.contains("b"));
    let mut n: IdMap<u8> = IdMap::new();
    n.insert(7, 1);
    n.insert(9, 2);
    assert_eq!(n.find(9), Some(1));
    assert_eq!(n.remove(7), Some(1));
    assert_eq!(n.get(9), Some(&2));
}
