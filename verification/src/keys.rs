//! Key interception: which keys go to Emacs, which to the focused surface.
use crate::text::{is_printable, printable};
use vstd::prelude::*;

verus! {

/// Keysym of `A`; the upper-case letters follow it in order.
pub const KEY_UPPER_A: u32 = 0x41;
/// Keysym of `Z`.
pub const KEY_UPPER_Z: u32 = 0x5a;
/// Distance from an upper-case letter to its lower-case form.
pub const LOWER_OFFSET: u32 = 0x20;
/// Keysym of BackSpace.
pub const KEY_BACKSPACE: u32 = 0xff08;
/// Keysym that Ctrl+Alt+F1 produces; those of F2 to F12 follow it.
pub const KEY_SWITCH_VT_1: u32 = 0x1008_fe01;
/// Keysym that Ctrl+Alt+F12 produces.
pub const KEY_SWITCH_VT_12: u32 = 0x1008_fe0c;

/// The modifiers that are held.
#[derive(Clone, Copy, Debug, PartialEq, Eq, Structural)]
pub struct ModifiersState {
    pub ctrl: bool,
    pub alt: bool,
    pub shift: bool,
    pub logo: bool,
}

/// Intercepted key: resolved keysym + required modifiers.
#[derive(Clone, Copy, Debug, PartialEq, Eq, Structural)]
pub struct InterceptedKey {
    pub keysym: u32,
    pub ctrl: bool,
    pub alt: bool,
    pub shift: bool,
    pub logo: bool,
    /// If true, this key is redirected to Emacs even during fullscreen
    pub allow_fullscreen: bool,
}

/// The keysym is an upper-case Latin letter.
pub open spec fn is_upper_letter(keysym: u32) -> bool {
    KEY_UPPER_A <= keysym <= KEY_UPPER_Z
}

/// The layout-independent keysym names the key that `want` stands for, whatever the case.
pub open spec fn same_key(want: u32, raw_keysym: u32) -> bool {
    want == raw_keysym || (is_upper_letter(raw_keysym) && want == raw_keysym + LOWER_OFFSET)
}

impl InterceptedKey {
    /// The modifiers other than Shift are held exactly as the key asks.
    pub open spec fn command_mods_match(&self, mods: ModifiersState) -> bool {
        self.ctrl == mods.ctrl && self.alt == mods.alt && self.logo == mods.logo
    }

    /// What `matches` answers.
    pub open spec fn hit(
        &self,
        raw_keysym: u32,
        modified_keysym: u32,
        mods: ModifiersState,
    ) -> bool {
        if same_key(self.keysym, raw_keysym) {
            self.command_mods_match(mods) && (self.shift == mods.shift || is_upper_letter(
                raw_keysym,
            ))
        } else {
            raw_keysym != modified_keysym && self.keysym == modified_keysym
                && self.command_mods_match(mods)
        }
    }

    /// Check if this key matches the given keysym and modifiers.
    ///
    /// `raw_keysym` is the layout-independent keysym (physical key, no
    /// modifiers).  `modified_keysym` is the keysym after the modifiers were
    /// applied (e.g. Shift+`;` → `colon`).
    ///
    /// We try `raw_keysym` first for layout-independent matching, then
    /// fall back to `modified_keysym` for shifted punctuation (`:`, `&`,
    /// etc.) where Emacs encodes the character directly rather than
    /// decomposing it into base-key + Shift.
    pub fn matches(&self, raw_keysym: u32, modified_keysym: u32, mods: &ModifiersState) -> (r: bool)
        ensures
            r == self.hit(raw_keysym, modified_keysym, *mods),
    {
        let upper = raw_keysym >= KEY_UPPER_A && raw_keysym <= KEY_UPPER_Z;
        // Case-insensitive letter matching (A-Z vs a-z)
        let raw_match = self.keysym == raw_keysym || (upper && self.keysym == raw_keysym
            + LOWER_OFFSET);
        if raw_match {
            return self.ctrl == mods.ctrl && self.alt == mods.alt && (self.shift == mods.shift
                || upper) && self.logo == mods.logo;
        }
        // Shifted punctuation: Shift was consumed to produce the modified keysym,
        // so it is not compared here.
        if raw_keysym != modified_keysym && self.keysym == modified_keysym {
            return self.ctrl == mods.ctrl && self.alt == mods.alt && self.logo == mods.logo;
        }
        false
    }
}

/// A key press never matches unless Ctrl, Alt and Super are held exactly as the binding asks.
pub proof fn law_command_modifiers_decide(
    key: InterceptedKey,
    raw_keysym: u32,
    modified_keysym: u32,
    mods: ModifiersState,
)
    requires
        key.hit(raw_keysym, modified_keysym, mods),
    ensures
        key.command_mods_match(mods),
        key.keysym == raw_keysym || key.keysym == modified_keysym || key.keysym == raw_keysym
            + LOWER_OFFSET,
{
}

/// A letter binding fires with or without Shift.
pub proof fn law_letters_ignore_shift(
    key: InterceptedKey,
    letter: u32,
    modified: u32,
    mods: ModifiersState,
)
    requires
        is_upper_letter(letter),
        key.keysym == letter + LOWER_OFFSET,
    ensures
        key.hit(letter, modified, ModifiersState { shift: true, ..mods }) == key.hit(
            letter,
            modified,
            ModifiersState { shift: false, ..mods },
        ),
{
}

/// Kill combo: Ctrl+Alt+Backspace
/// Returns true if this key event is the kill combo (keysym-based)
pub fn is_kill_combo(keysym: u32, ctrl: bool, alt: bool) -> (r: bool)
    ensures
        r == (keysym == KEY_BACKSPACE && ctrl && alt),
{
    keysym == KEY_BACKSPACE && ctrl && alt
}

/// The terminal that a keysym asks to switch to.
pub open spec fn vt_of(keysym: u32) -> Option<i32> {
    if KEY_SWITCH_VT_1 <= keysym <= KEY_SWITCH_VT_12 {
        Some((keysym - KEY_SWITCH_VT_1 + 1) as i32)
    } else {
        None
    }
}

/// The terminal that a keysym asks to switch to: 1 to 12 for Ctrl+Alt+F1 to Ctrl+Alt+F12.
pub fn vt_switch_target(keysym: u32) -> (r: Option<i32>)
    ensures
        r == vt_of(keysym),
        r matches Some(vt) ==> 1 <= vt <= 12,
{
    if keysym >= KEY_SWITCH_VT_1 && keysym <= KEY_SWITCH_VT_12 {
        Some((keysym - KEY_SWITCH_VT_1 + 1) as i32)
    } else {
        None
    }
}

/// What the keyboard filter decided to do with an intercepted key.
#[derive(Clone, Copy, Debug, PartialEq, Eq, Structural)]
pub enum InterceptKind {
    /// Intercepted key — hold focus on Emacs, let post-command-hook restore
    Redirect,
    /// Kill combo (Ctrl+Alt+Backspace)
    Kill,
    /// Text input intercept — printable key for Emacs IM processing
    TextInput,
    /// VT switch (Ctrl+Alt+F1-F12)
    VtSwitch,
}

/// Result of processing a keyboard event
#[derive(Clone, Copy, Debug, PartialEq, Eq, Structural)]
pub enum KeyboardAction {
    /// Normal key forwarding - nothing special happened
    Forward,
    /// Prefix key intercepted - redirect focus to Emacs
    RedirectToEmacs,
    /// Kill combo pressed - shut down compositor
    Shutdown,
    /// Key intercepted for text input (sent to Emacs via IPC)
    TextInputIntercepted,
    /// VT switch requested (Ctrl+Alt+F1-F12)
    ChangeVt(i32),
}

/// What the keyboard filter reads of a key event.
#[derive(Clone, Copy, Debug, PartialEq, Eq, Structural)]
pub struct KeyPress {
    /// The key went down.
    pub is_press: bool,
    /// Keysym with all modifiers applied.
    pub modified: u32,
    /// Layout-independent keysym, or the modified one where there is none.
    pub keysym: u32,
    /// The modified keysym yields text that is not made of control characters alone.
    pub printable: bool,
    pub mods: ModifiersState,
}

/// A key event as the keyboard reports it.
#[derive(Clone, Copy, Debug, PartialEq, Eq, Structural)]
pub struct KeyEvent {
    pub is_press: bool,
    /// The keysym with modifiers applied.
    pub modified: u32,
    /// The keysym of the key in a Latin layout, or in the current one.
    pub raw_latin: Option<u32>,
    pub mods: ModifiersState,
}

impl KeyEvent {
    /// The event as the filter sees it.
    pub open spec fn as_press(self, printable: bool) -> KeyPress {
        KeyPress {
            is_press: self.is_press,
            modified: self.modified,
            keysym: match self.raw_latin {
                Some(k) => k,
                None => self.modified,
            },
            printable,
            mods: self.mods,
        }
    }

    pub fn press(&self, printable: bool) -> (r: KeyPress)
        ensures
            r == self.as_press(printable),
    {
        let keysym: u32 = match self.raw_latin {
            Some(k) => k,
            None => self.modified,
        };
        KeyPress {
            is_press: self.is_press,
            modified: self.modified,
            keysym,
            printable,
            mods: self.mods,
        }
    }
}

/// What the keyboard filter knows of the compositor.
#[derive(Clone, Copy, Debug, PartialEq, Eq, Structural)]
pub struct FilterContext {
    /// A fullscreen surface is selected.
    pub fullscreen: bool,
    /// Keyboard focus is on an Emacs surface.
    pub focus_on_emacs: bool,
    /// Printable keys are captured for Emacs's input method.
    pub text_input_intercept: bool,
}

/// The first binding that matches the press.
pub open spec fn first_hit(keys: Seq<InterceptedKey>, press: KeyPress) -> Option<InterceptedKey>
    decreases keys.len(),
{
    if keys.len() == 0 {
        None
    } else if keys[0].hit(press.keysym, press.modified, press.mods) {
        Some(keys[0])
    } else {
        first_hit(keys.subrange(1, keys.len() as int), press)
    }
}

/// Finds the first binding that matches the press.
pub fn find_intercepted(keys: &Vec<InterceptedKey>, press: &KeyPress) -> (r: Option<InterceptedKey>)
    ensures
        r == first_hit(keys@, *press),
        match r {
            Some(b) => exists|k: int|
                0 <= k < keys@.len() && (#[trigger] keys@[k]) == b && b.hit(
                    press.keysym,
                    press.modified,
                    press.mods,
                ) && forall|j: int|
                    0 <= j < k ==> !(#[trigger] keys@[j]).hit(
                        press.keysym,
                        press.modified,
                        press.mods,
                    ),
            None => forall|j: int|
                0 <= j < keys@.len() ==> !(#[trigger] keys@[j]).hit(
                    press.keysym,
                    press.modified,
                    press.mods,
                ),
        },
{
    let mut i: usize = 0;
    assert(keys@.subrange(0, keys@.len() as int) =~= keys@);
    while i < keys.len()
        invariant
            i <= keys@.len(),
            forall|j: int|
                0 <= j < i ==> !(#[trigger] keys@[j]).hit(
                    press.keysym,
                    press.modified,
                    press.mods,
                ),
            first_hit(keys@, *press) == first_hit(
                keys@.subrange(i as int, keys@.len() as int),
                *press,
            ),
        decreases keys@.len() - i,
    {
        let ghost rest = keys@.subrange(i as int, keys@.len() as int);
        assert(rest[0] == keys@[i as int]);
        assert(rest.subrange(1, rest.len() as int) =~= keys@.subrange(
            i as int + 1,
            keys@.len() as int,
        ));
        if keys[i].matches(press.keysym, press.modified, &press.mods) {
            return Some(keys[i]);
        }
        i = i + 1;
    }
    None
}

/// The filter's decision: what kind of interception, with which number (the terminal for a
/// terminal switch, the keysym for a redirect or for text). `None` forwards the key.
pub open spec fn decision(
    keys: Seq<InterceptedKey>,
    press: KeyPress,
    cx: FilterContext,
) -> Option<(InterceptKind, u32)> {
    if !press.is_press {
        None
    } else if vt_of(press.modified) is Some {
        Some((InterceptKind::VtSwitch, vt_of(press.modified)->0 as u32))
    } else if press.keysym == KEY_BACKSPACE && press.mods.ctrl && press.mods.alt {
        Some((InterceptKind::Kill, 0))
    } else if first_hit(keys, press) is Some {
        if !cx.focus_on_emacs && (!cx.fullscreen || first_hit(keys, press)->0.allow_fullscreen) {
            Some((InterceptKind::Redirect, press.keysym))
        } else {
            None
        }
    } else if cx.text_input_intercept && !cx.focus_on_emacs && !press.mods.ctrl && !press.mods.alt
        && !press.mods.logo && press.printable {
        Some((InterceptKind::TextInput, press.keysym))
    } else {
        None
    }
}

/// Decides what happens to a key. The prefix flag is raised when a key is redirected to Emacs.
pub fn filter_key(
    keys: &Vec<InterceptedKey>,
    press: &KeyPress,
    cx: &FilterContext,
    in_prefix_sequence: &mut bool,
) -> (r: Option<(InterceptKind, u32)>)
    ensures
        r == decision(keys@, *press, *cx),
        *final(in_prefix_sequence) == (*old(in_prefix_sequence) || (r matches Some((kind, _))
            && kind == InterceptKind::Redirect)),
{
    if !press.is_press {
        return None;
    }
    match vt_switch_target(press.modified) {
        Some(vt) => {
            return Some((InterceptKind::VtSwitch, vt as u32));
        },
        None => {},
    }
    if is_kill_combo(press.keysym, press.mods.ctrl, press.mods.alt) {
        return Some((InterceptKind::Kill, 0));
    }
    match find_intercepted(keys, press) {
        Some(ik) => {
            // Fullscreen mode: only keys marked allow_fullscreen are redirected to Emacs;
            // everything else forwards to the fullscreen surface.
            if cx.focus_on_emacs || (cx.fullscreen && !ik.allow_fullscreen) {
                return None;
            }
            *in_prefix_sequence = true;
            Some((InterceptKind::Redirect, press.keysym))
        },
        None => {
            // Skip if any command modifiers are held: those go through the bindings above.
            if cx.text_input_intercept && !cx.focus_on_emacs && !press.mods.ctrl && !press.mods.alt
                && !press.mods.logo && press.printable {
                Some((InterceptKind::TextInput, press.keysym))
            } else {
                None
            }
        },
    }
}

/// `r` is what the filter decides of an event, with the text of a key that is captured. The text
/// is asked for only where everything else lets the key be captured; a key without printable
/// text is not.
pub open spec fn event_filtered<F: Fn(u32) -> String>(
    keys: Seq<InterceptedKey>,
    event: KeyEvent,
    cx: FilterContext,
    text_of: F,
    r: Option<(InterceptKind, u32, Option<String>)>,
) -> bool {
    match decision(keys, event.as_press(true), cx) {
        Some((InterceptKind::TextInput, keysym)) => exists|text: String| #[trigger]
            call_ensures(text_of, (event.modified,), text) && r == if is_printable(text@) {
                Some((InterceptKind::TextInput, keysym, Some(text)))
            } else {
                None
            },
        Some((kind, n)) => r == Some((kind, n, None::<String>)),
        None => r is None,
    }
}

/// Decides what is done with a key event. `text_of` gives the text that a keysym stands for.
pub fn filter_key_event<F: Fn(u32) -> String>(
    keys: &Vec<InterceptedKey>,
    event: &KeyEvent,
    cx: &FilterContext,
    in_prefix_sequence: &mut bool,
    text_of: &F,
) -> (r: Option<(InterceptKind, u32, Option<String>)>)
    requires
        call_requires(*text_of, (event.modified,)),
    ensures
        event_filtered(keys@, *event, *cx, *text_of, r),
        *final(in_prefix_sequence) == (*old(in_prefix_sequence) || (r matches Some((kind, _, _))
            && kind == InterceptKind::Redirect)),
{
    let press = event.press(true);
    match filter_key(keys, &press, cx, in_prefix_sequence) {
        Some((kind, n)) => match kind {
            InterceptKind::TextInput => {
                // Use the modified keysym for text (includes Shift for uppercase).
                let text = text_of(event.modified);
                if printable(text.as_str()) {
                    Some((kind, n, Some(text)))
                } else {
                    None
                }
            },
            _ => Some((kind, n, None)),
        },
        None => None,
    }
}

/// The action for a decision of the filter.
pub fn action_for(decided: Option<(InterceptKind, u32)>) -> (r: KeyboardAction)
    requires
        decided matches Some((InterceptKind::VtSwitch, n)) ==> n <= i32::MAX,
    ensures
        r == match decided {
            None => KeyboardAction::Forward,
            Some((InterceptKind::Redirect, _)) => KeyboardAction::RedirectToEmacs,
            Some((InterceptKind::Kill, _)) => KeyboardAction::Shutdown,
            Some((InterceptKind::TextInput, _)) => KeyboardAction::TextInputIntercepted,
            Some((InterceptKind::VtSwitch, n)) => KeyboardAction::ChangeVt(n as i32),
        },
{
    match decided {
        None => KeyboardAction::Forward,
        Some((kind, n)) => match kind {
            InterceptKind::Redirect => KeyboardAction::RedirectToEmacs,
            InterceptKind::Kill => KeyboardAction::Shutdown,
            InterceptKind::TextInput => KeyboardAction::TextInputIntercepted,
            InterceptKind::VtSwitch => KeyboardAction::ChangeVt(n as i32),
        },
    }
}

/// The action for a key while the session is locked: only a terminal switch is honoured, all
/// else goes to the lock surface.
pub fn locked_key_action(is_press: bool, modified: u32) -> (r: KeyboardAction)
    ensures
        r == if is_press && vt_of(modified) is Some {
            KeyboardAction::ChangeVt(vt_of(modified)->0)
        } else {
            KeyboardAction::Forward
        },
{
    if !is_press {
        return KeyboardAction::Forward;
    }
    match vt_switch_target(modified) {
        Some(vt) => KeyboardAction::ChangeVt(vt),
        None => KeyboardAction::Forward,
    }
}

/// A key release is never intercepted, and with focus on Emacs only terminal switches and the
/// kill combo are.
pub proof fn law_emacs_keeps_its_keys(
    keys: Seq<InterceptedKey>,
    press: KeyPress,
    cx: FilterContext,
)
    ensures
        !press.is_press ==> decision(keys, press, cx) is None,
        cx.focus_on_emacs ==> (decision(keys, press, cx) matches Some((kind, _)) ==> kind
            == InterceptKind::VtSwitch || kind == InterceptKind::Kill),
{
}

/// While a fullscreen surface is selected, a bound key leaves it only if the binding allows so.
pub proof fn law_fullscreen_keeps_bound_keys(
    keys: Seq<InterceptedKey>,
    press: KeyPress,
    cx: FilterContext,
)
    requires
        cx.fullscreen,
        decision(keys, press, cx) matches Some((kind, _)) && kind == InterceptKind::Redirect,
    ensures
        first_hit(keys, press) is Some,
        first_hit(keys, press)->0.allow_fullscreen,
{
}

/// With text input captured, a printable key that is pressed over another program's surface goes
/// to Emacs's input method: unless a command modifier is held or the key is bound, it does
/// nothing else.
pub proof fn law_printable_keys_are_captured(
    keys: Seq<InterceptedKey>,
    press: KeyPress,
    cx: FilterContext,
)
    requires
        press.is_press,
        press.printable,
        cx.text_input_intercept,
        !cx.focus_on_emacs,
        !press.mods.ctrl && !press.mods.alt && !press.mods.logo,
        first_hit(keys, press) is None,
        vt_of(press.modified) is None,
    ensures
        decision(keys, press, cx) == Some((InterceptKind::TextInput, press.keysym)),
{
}

/// A terminal switch works whatever is bound or selected, and while the session is locked.
pub proof fn law_terminal_switch_always_works(
    keys: Seq<InterceptedKey>,
    press: KeyPress,
    cx: FilterContext,
)
    requires
        press.is_press,
        KEY_SWITCH_VT_1 <= press.modified <= KEY_SWITCH_VT_12,
    ensures
        decision(keys, press, cx) == Some(
            (InterceptKind::VtSwitch, (press.modified - KEY_SWITCH_VT_1 + 1) as u32),
        ),
        vt_of(press.modified) == Some((press.modified - KEY_SWITCH_VT_1 + 1) as i32),
{
}

} // verus!
