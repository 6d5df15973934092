//! Key interception and the keyboard filter.
use std::cell::Cell;

use ewm::keys::{
    action_for, filter_key, filter_key_event, find_intercepted, is_kill_combo, locked_key_action,
    vt_switch_target, FilterContext, InterceptKind, InterceptedKey, KeyEvent, KeyPress,
    KeyboardAction, ModifiersState,
};
use ewm::text::printable;

const KEY_A_LOWER: u32 = 0x61;
const KEY_A_UPPER: u32 = 0x41;
const KEY_B_LOWER: u32 = 0x62;
const KEY_X_LOWER: u32 = 0x78;
const KEY_COLON: u32 = 0x3a;
const KEY_SEMICOLON: u32 = 0x3b;
const KEY_AMPERSAND: u32 = 0x26;
const KEY_7: u32 = 0x37;

fn mods(ctrl: bool, alt: bool, shift: bool, logo: bool) -> ModifiersState {
    ModifiersState { ctrl, alt, shift, logo }
}

fn key(keysym: u32, ctrl: bool, alt: bool, shift: bool, logo: bool) -> InterceptedKey {
    InterceptedKey { keysym, ctrl, alt, shift, logo, allow_fullscreen: false }
}

#[test]
fn raw_keysym_match() {
    // s-a: Emacs sends keysym=a, logo=true
    let ik = key(KEY_A_LOWER, false, false, false, true);
    // Physical: raw=a, modified=a, mods={logo}
    assert!(ik.matches(KEY_A_LOWER, KEY_A_LOWER, &mods(false, false, false, true)));
}

#[test]
fn case_insensitive_letter() {
    // Emacs sends keysym=a (lowercase), physical key produces A (uppercase, shift held)
    let ik = key(KEY_A_LOWER, false, false, false, true);
    // Shift is ignored for letter keys
    assert!(ik.matches(KEY_A_UPPER, KEY_A_UPPER, &mods(false, false, true, true)));
}

#[test]
fn modifier_mismatch_rejects() {
    // C-x: Emacs sends keysym=x, ctrl=true
    let ik = key(KEY_X_LOWER, true, false, false, false);
    // Physical: x pressed but ctrl NOT held — should not match
    assert!(!ik.matches(KEY_X_LOWER, KEY_X_LOWER, &mods(false, false, false, false)));
}

#[test]
fn wrong_keysym_rejects() {
    // s-a should not match s-b
    let ik = key(KEY_A_LOWER, false, false, false, true);
    assert!(!ik.matches(KEY_B_LOWER, KEY_B_LOWER, &mods(false, false, false, true)));
}

#[test]
fn shifted_punctuation_fallback() {
    // M-: (eval-expression): Emacs sends keysym=colon, alt=true, shift=false
    let ik = key(KEY_COLON, false, true, false, false);
    // Physical: raw=semicolon, modified=colon (XKB applied Shift), mods={alt, shift}
    assert!(ik.matches(KEY_SEMICOLON, KEY_COLON, &mods(false, true, true, false)));
}

#[test]
fn shifted_punctuation_no_false_positive_on_unshifted() {
    // M-; (comment-dwim): Emacs sends keysym=semicolon, alt=true
    let ik = key(KEY_SEMICOLON, false, true, false, false);
    // Physical: raw=semicolon, modified=semicolon (no shift), mods={alt}
    // Should match via raw path
    assert!(ik.matches(KEY_SEMICOLON, KEY_SEMICOLON, &mods(false, true, false, false)));
    // Physical: raw=semicolon, modified=colon (shift held), mods={alt, shift}
    // Should NOT match — we want semicolon but got shift+semicolon
    assert!(!ik.matches(KEY_SEMICOLON, KEY_COLON, &mods(false, true, true, false)));
}

#[test]
fn shifted_ampersand() {
    // M-& (async-shell-command): Emacs sends keysym=ampersand, alt=true
    let ik = key(KEY_AMPERSAND, false, true, false, false);
    // Physical: raw=7, modified=ampersand (Shift+7), mods={alt, shift}
    assert!(ik.matches(KEY_7, KEY_AMPERSAND, &mods(false, true, true, false)));
}

fn context(fullscreen: bool, on_emacs: bool, text: bool) -> FilterContext {
    FilterContext { fullscreen, focus_on_emacs: on_emacs, text_input_intercept: text }
}

fn event(is_press: bool, modified: u32, raw_latin: Option<u32>, mods: ModifiersState) -> KeyEvent {
    KeyEvent { is_press, modified, raw_latin, mods }
}

fn press(keysym: u32, utf8: &str, m: ModifiersState) -> KeyPress {
    event(true, keysym, None, m).press(printable(utf8))
}

#[test]
fn key_press_takes_the_latin_keysym() {
    let none = mods(false, false, false, false);
    let p = event(true, 0x6c6, Some(KEY_A_LOWER), none).press(true);
    assert_eq!(p.keysym, KEY_A_LOWER);
    assert_eq!(p.modified, 0x6c6);
    assert!(p.is_press && p.printable);
    let q = event(true, 0xff0d, None, none).press(false);
    assert_eq!(q.keysym, 0xff0d);
    assert!(!q.printable);
    assert!(printable("\u{444}") && !printable("\r") && !printable(""));
}

#[test]
fn text_of_a_key_is_asked_for_when_it_is_captured() {
    let asked = Cell::new(0);
    let text_of = |k: u32| {
        asked.set(asked.get() + 1);
        match k {
            0x6c6 => "\u{444}".to_string(),
            0xff0d => "\r".to_string(),
            _ => String::new(),
        }
    };
    let none = mods(false, false, false, false);
    let mut flag = false;
    let letter = event(true, 0x6c6, Some(KEY_A_LOWER), none);
    let plain = context(false, false, false);
    assert_eq!(filter_key_event(&vec![], &letter, &plain, &mut flag, &text_of), None);
    assert_eq!(asked.get(), 0);
    let capture = context(false, false, true);
    assert_eq!(
        filter_key_event(&vec![], &letter, &capture, &mut flag, &text_of),
        Some((InterceptKind::TextInput, KEY_A_LOWER, Some("\u{444}".to_string())))
    );
    let enter = event(true, 0xff0d, None, none);
    assert_eq!(filter_key_event(&vec![], &enter, &capture, &mut flag, &text_of), None);
    assert_eq!(asked.get(), 2);
    let keys = vec![key(KEY_A_LOWER, false, false, false, false)];
    assert_eq!(
        filter_key_event(&keys, &letter, &capture, &mut flag, &text_of),
        Some((InterceptKind::Redirect, KEY_A_LOWER, None))
    );
    assert!(flag);
    assert_eq!(asked.get(), 2);
}

#[test]
fn bound_key_redirects_and_raises_the_flag() {
    let keys = vec![key(KEY_X_LOWER, true, false, false, false)];
    let p = press(KEY_X_LOWER, "x", mods(true, false, false, false));
    let mut flag = false;
    let r = filter_key(&keys, &p, &context(false, false, false), &mut flag);
    assert_eq!(r, Some((InterceptKind::Redirect, KEY_X_LOWER)));
    assert!(flag);
    let mut on_emacs = false;
    assert_eq!(filter_key(&keys, &p, &context(false, true, false), &mut on_emacs), None);
    assert!(!on_emacs);
}

#[test]
fn fullscreen_keeps_keys_that_are_not_allowed() {
    let mut ik = key(KEY_X_LOWER, false, false, false, true);
    let p = press(KEY_X_LOWER, "x", mods(false, false, false, true));
    let mut flag = false;
    assert_eq!(filter_key(&vec![ik], &p, &context(true, false, false), &mut flag), None);
    ik.allow_fullscreen = true;
    assert_eq!(
        filter_key(&vec![ik], &p, &context(true, false, false), &mut flag),
        Some((InterceptKind::Redirect, KEY_X_LOWER))
    );
}

#[test]
fn printable_keys_are_captured_for_the_input_method() {
    let mut flag = false;
    let none = mods(false, false, false, false);
    let cx = context(false, false, true);
    assert_eq!(
        filter_key(&vec![], &press(KEY_A_LOWER, "a", none), &cx, &mut flag),
        Some((InterceptKind::TextInput, KEY_A_LOWER))
    );
    assert_eq!(filter_key(&vec![], &press(0xff0d, "\r", none), &cx, &mut flag), None);
    let ctrl = mods(true, false, false, false);
    assert_eq!(filter_key(&vec![], &press(KEY_A_LOWER, "a", ctrl), &cx, &mut flag), None);
    let release = event(false, KEY_A_LOWER, None, none).press(true);
    assert_eq!(filter_key(&vec![], &release, &cx, &mut flag), None);
    assert!(!flag);
}

#[test]
fn terminal_switch_and_kill_combo() {
    assert_eq!(vt_switch_target(0x1008_fe01), Some(1));
    assert_eq!(vt_switch_target(0x1008_fe0c), Some(12));
    assert_eq!(vt_switch_target(0x1008_fe0d), None);
    assert_eq!(vt_switch_target(0x1008_fe00), None);
    assert!(is_kill_combo(0xff08, true, true));
    assert!(!is_kill_combo(0xff08, true, false));
    assert!(!is_kill_combo(KEY_A_LOWER, true, true));
    let mut flag = false;
    let m = mods(true, true, false, false);
    let vt = press(0x1008_fe03, "", m);
    assert_eq!(
        filter_key(&vec![], &vt, &context(true, true, true), &mut flag),
        Some((InterceptKind::VtSwitch, 3))
    );
    let kill = press(0xff08, "", m);
    assert_eq!(
        filter_key(&vec![], &kill, &context(false, true, false), &mut flag),
        Some((InterceptKind::Kill, 0))
    );
    assert_eq!(locked_key_action(true, 0x1008_fe02), KeyboardAction::ChangeVt(2));
    assert_eq!(locked_key_action(false, 0x1008_fe02), KeyboardAction::Forward);
    assert_eq!(locked_key_action(true, KEY_A_LOWER), KeyboardAction::Forward);
}

#[test]
fn actions_follow_decisions() {
    assert_eq!(action_for(None), KeyboardAction::Forward);
    assert_eq!(action_for(Some((InterceptKind::Redirect, 5))), KeyboardAction::RedirectToEmacs);
    assert_eq!(action_for(Some((InterceptKind::Kill, 0))), KeyboardAction::Shutdown);
    assert_eq!(
        action_for(Some((InterceptKind::TextInput, 5))),
        KeyboardAction::TextInputIntercepted
    );
    assert_eq!(action_for(Some((InterceptKind::VtSwitch, 7))), KeyboardAction::ChangeVt(7));
}

#[test]
fn first_binding_wins() {
    let mut first = key(KEY_X_LOWER, false, false, false, true);
    first.allow_fullscreen = true;
    let second = key(KEY_X_LOWER, false, false, false, true);
    let p = press(KEY_X_LOWER, "x", mods(false, false, false, true));
    let hit = find_intercepted(&vec![first, second], &p).unwrap();
    assert!(hit.allow_fullscreen);
}
