//! Where a key goes.
use crate::keys::{
    decision, event_filtered, first_hit, FilterContext, InterceptKind, InterceptedKey, KeyEvent,
    KeyPress, ModifiersState,
};
use crate::text::{is_control_char, is_printable};
use vstd::prelude::*;

verus! {

/// A binding fires only with Ctrl, Alt and Super held exactly as it asks. It then fires for its own
/// key if Shift is held as it asks, for the lower-case form of an upper-case letter whatever Shift
/// is, and for the symbol that the modifiers make of the key whatever Shift is. It fires for
/// nothing else.
pub proof fn law_binding_fires_for_its_key(
    key: InterceptedKey,
    raw: u32,
    modified: u32,
    mods: ModifiersState,
)
    ensures
        key.ctrl != mods.ctrl || key.alt != mods.alt || key.logo != mods.logo ==> !key.hit(
            raw,
            modified,
            mods,
        ),
        key.ctrl == mods.ctrl && key.alt == mods.alt && key.logo == mods.logo ==> {
            let upper = 0x41 <= raw <= 0x5a;
            &&& key.keysym == raw && !upper ==> (key.hit(raw, modified, mods) <==> key.shift
                == mods.shift)
            &&& key.keysym == raw && upper ==> key.hit(raw, modified, mods)
            &&& upper && key.keysym == raw + 0x20 ==> key.hit(raw, modified, mods)
            &&& key.keysym != raw && key.keysym == modified ==> key.hit(raw, modified, mods)
            &&& key.keysym != raw && key.keysym != modified && !(upper && key.keysym == raw + 0x20)
                ==> !key.hit(raw, modified, mods)
        },
{
}

/// Every binding is looked at, in order: the one that counts is the first that fires, and there is
/// none only if no binding of the list fires.
pub proof fn law_every_binding_is_looked_at(keys: Seq<InterceptedKey>, press: KeyPress)
    ensures
        forall|i: int|
            0 <= i < keys.len() && (#[trigger] keys[i]).hit(
                press.keysym,
                press.modified,
                press.mods,
            ) ==> exists|k: int|
                0 <= k <= i && first_hit(keys, press) == Some(#[trigger] keys[k]) && keys[k].hit(
                    press.keysym,
                    press.modified,
                    press.mods,
                ) && forall|j: int|
                    0 <= j < k ==> !(#[trigger] keys[j]).hit(
                        press.keysym,
                        press.modified,
                        press.mods,
                    ),
        first_hit(keys, press) is None <==> forall|i: int|
            0 <= i < keys.len() ==> !(#[trigger] keys[i]).hit(
                press.keysym,
                press.modified,
                press.mods,
            ),
    decreases keys.len(),
{
    if keys.len() > 0 {
        let rest = keys.subrange(1, keys.len() as int);
        law_every_binding_is_looked_at(rest, press);
        let first = keys[0].hit(press.keysym, press.modified, press.mods);
        assert forall|i: int|
            0 <= i < keys.len() && (#[trigger] keys[i]).hit(
                press.keysym,
                press.modified,
                press.mods,
            ) implies exists|k: int|
            0 <= k <= i && first_hit(keys, press) == Some(#[trigger] keys[k]) && keys[k].hit(
                press.keysym,
                press.modified,
                press.mods,
            ) && forall|j: int|
                0 <= j < k ==> !(#[trigger] keys[j]).hit(
                    press.keysym,
                    press.modified,
                    press.mods,
                ) by {
            if first {
                assert(keys[0] == keys[0]);
            } else {
                assert(i > 0);
                assert(rest[i - 1] == keys[i]);
                assert(rest[i - 1].hit(press.keysym, press.modified, press.mods));
                let k = choose|k: int|
                    0 <= k <= i - 1 && first_hit(rest, press) == Some(#[trigger] rest[k])
                        && rest[k].hit(press.keysym, press.modified, press.mods) && forall|j: int|
                        0 <= j < k ==> !(#[trigger] rest[j]).hit(
                            press.keysym,
                            press.modified,
                            press.mods,
                        );
                assert(0 <= k < rest.len());
                assert(keys[k + 1] == rest[k]);
                assert forall|j: int| 0 <= j < k + 1 implies !(#[trigger] keys[j]).hit(
                    press.keysym,
                    press.modified,
                    press.mods,
                ) by {
                    if j > 0 {
                        let q = j - 1;
                        assert(rest[q] == keys[q + 1]);
                    }
                }
            }
        }
        if forall|i: int|
            0 <= i < keys.len() ==> !(#[trigger] keys[i]).hit(
                press.keysym,
                press.modified,
                press.mods,
            ) {
            assert forall|i: int| 0 <= i < rest.len() implies !(#[trigger] rest[i]).hit(
                press.keysym,
                press.modified,
                press.mods,
            ) by {
                assert(keys[i + 1] == rest[i]);
            }
        }
    }
}

/// A bound key that is pressed over another program's surface goes to Emacs, unless a fullscreen
/// surface is selected and the binding does not reach past it: then the surface gets it. `i` is
/// the first binding that fires.
pub proof fn law_bound_keys_go_to_emacs(
    keys: Seq<InterceptedKey>,
    press: KeyPress,
    cx: FilterContext,
    i: int,
)
    requires
        press.is_press,
        !(0x1008_fe01 <= press.modified <= 0x1008_fe0c),
        !(press.keysym == 0xff08 && press.mods.ctrl && press.mods.alt),
        0 <= i < keys.len(),
        keys[i].hit(press.keysym, press.modified, press.mods),
        forall|j: int|
            0 <= j < i ==> !(#[trigger] keys[j]).hit(press.keysym, press.modified, press.mods),
    ensures
        cx.focus_on_emacs ==> decision(keys, press, cx) is None,
        !cx.focus_on_emacs && cx.fullscreen && !keys[i].allow_fullscreen ==> decision(
            keys,
            press,
            cx,
        ) is None,
        !cx.focus_on_emacs && (!cx.fullscreen || keys[i].allow_fullscreen) ==> decision(
            keys,
            press,
            cx,
        ) == Some((InterceptKind::Redirect, press.keysym)),
{
    law_every_binding_is_looked_at(keys, press);
    let k = choose|k: int|
        0 <= k <= i && first_hit(keys, press) == Some(#[trigger] keys[k]) && keys[k].hit(
            press.keysym,
            press.modified,
            press.mods,
        );
    assert(k == i);
}

/// An unbound key is taken for Emacs's input method exactly if that is asked for, the surface is
/// another program's, the key makes text, and neither Ctrl, Alt nor Super is held. Else the
/// surface gets it.
pub proof fn law_unbound_keys_are_text_or_forwarded(
    keys: Seq<InterceptedKey>,
    press: KeyPress,
    cx: FilterContext,
)
    requires
        press.is_press,
        !(0x1008_fe01 <= press.modified <= 0x1008_fe0c),
        !(press.keysym == 0xff08 && press.mods.ctrl && press.mods.alt),
        forall|j: int|
            0 <= j < keys.len() ==> !(#[trigger] keys[j]).hit(
                press.keysym,
                press.modified,
                press.mods,
            ),
    ensures
        cx.text_input_intercept && !cx.focus_on_emacs && press.printable && !press.mods.ctrl
            && !press.mods.alt && !press.mods.logo ==> decision(keys, press, cx) == Some(
            (InterceptKind::TextInput, press.keysym),
        ),
        !cx.text_input_intercept || cx.focus_on_emacs || !press.printable || press.mods.ctrl
            || press.mods.alt || press.mods.logo ==> decision(keys, press, cx) is None,
{
    law_every_binding_is_looked_at(keys, press);
}

/// Terminal switches come before everything and Ctrl+Alt+Backspace before every binding, wherever
/// the focus is. A key that is let go of is never taken.
pub proof fn law_reserved_keys_come_first(
    keys: Seq<InterceptedKey>,
    press: KeyPress,
    cx: FilterContext,
)
    ensures
        !press.is_press ==> decision(keys, press, cx) is None,
        press.is_press && 0x1008_fe01 <= press.modified <= 0x1008_fe0c ==> {
            let d = decision(keys, press, cx);
            d is Some && (d->0).0 == InterceptKind::VtSwitch && (d->0).1 == press.modified
                - 0x1008_fe00
        },
        press.is_press && !(0x1008_fe01 <= press.modified <= 0x1008_fe0c) && press.keysym == 0xff08
            && press.mods.ctrl && press.mods.alt ==> decision(keys, press, cx) == Some(
            (InterceptKind::Kill, 0u32),
        ),
        decision(keys, press, cx) matches Some((kind, _)) ==> (kind == InterceptKind::VtSwitch
            ==> 0x1008_fe01 <= press.modified <= 0x1008_fe0c) && (kind == InterceptKind::Kill
            ==> press.keysym == 0xff08 && press.mods.ctrl && press.mods.alt),
{
}

/// What is decided of an event is what is decided of its key in a Latin layout, where it has one,
/// and a key is captured with just the text that its modified symbol stands for.
pub proof fn law_events_are_decided_by_their_key<F: Fn(u32) -> String>(
    keys: Seq<InterceptedKey>,
    event: KeyEvent,
    press: KeyPress,
    cx: FilterContext,
    text_of: F,
    r: Option<(InterceptKind, u32, Option<String>)>,
)
    requires
        event_filtered(keys, event, cx, text_of, r),
        press.is_press == event.is_press,
        press.modified == event.modified,
        event.raw_latin is Some ==> press.keysym == event.raw_latin->0,
        event.raw_latin is None ==> press.keysym == event.modified,
        press.printable,
        press.mods == event.mods,
    ensures
        decision(keys, press, cx) is None ==> r is None,
        r matches Some((kind, n, text)) ==> {
            &&& decision(keys, press, cx) == Some((kind, n))
            &&& text is Some <==> kind == InterceptKind::TextInput
            &&& text is Some ==> call_ensures(text_of, (event.modified,), text->0)
        },
        decision(keys, press, cx) matches Some((kind, n)) ==> kind != InterceptKind::TextInput
            ==> r == Some((kind, n, None::<String>)),
{
    assert(press == event.as_press(true));
}

/// A text counts as printable exactly if one of its characters lies outside the control ranges.
pub proof fn law_control_characters_are_not_printable(s: Seq<char>)
    ensures
        is_printable(s) <==> exists|i: int|
            0 <= i < s.len() && 0x20 <= #[trigger] s[i] as u32 && !(0x7f <= s[i] as u32 <= 0x9f),
{
    if is_printable(s) {
        let i = choose|i: int| 0 <= i < s.len() && !is_control_char(#[trigger] s[i]);
        assert(0x20 <= s[i] as u32);
    }
    if exists|i: int|
        0 <= i < s.len() && 0x20 <= #[trigger] s[i] as u32 && !(0x7f <= s[i] as u32 <= 0x9f) {
        let i = choose|i: int|
            0 <= i < s.len() && 0x20 <= #[trigger] s[i] as u32 && !(0x7f <= s[i] as u32 <= 0x9f);
        assert(!is_control_char(s[i]));
    }
}

} // verus!
