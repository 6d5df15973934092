//! What Emacs says, and the queues between Emacs and the compositor.
use crate::input::{
    empty_entry, AccelProfile, ClickMethod, DeviceType, InputConfigEntry, ScrollMethod,
    TapButtonMap,
};
use crate::keysyms::{guess_names, key_of, table_symbol, KeySpec};
use crate::lisp::{
    entry_of, is_tab_of, known_key, narrowed, placed_by, runnable, with_setting, InstalledApp,
    LispValue, SurfacePlist,
};
use crate::module::{last_focus, make_room, other_commands, FocusEvent, ModuleCommand, TabInfo};
use crate::text::replaced;
use vstd::prelude::*;

verus! {

/// A surface is placed as its property list says: each number in its own place, a flag set for
/// everything but nil and false. Which view is primary is not Emacs's to say.
pub proof fn law_surfaces_are_placed_as_listed(p: SurfacePlist)
    requires
        0 <= p.id,
        i32::MIN <= p.x <= i32::MAX,
        i32::MIN <= p.y <= i32::MAX,
        0 <= p.w <= u32::MAX,
        0 <= p.h <= u32::MAX,
    ensures
        ({
            let e = placed_by(p);
            &&& e.id == p.id && e.x == p.x && e.y == p.y && e.w == p.w && e.h == p.h
            &&& e.focused <==> !(p.focused is Nil) && !(p.focused is False)
            &&& e.fullscreen <==> !(p.fullscreen is Nil) && !(p.fullscreen is False)
            &&& !e.primary
        }),
{
}

/// A tab keeps its name, and is the active one where its flag is set.
pub proof fn law_tabs_are_as_listed(t: TabInfo, name: Option<String>, flag: LispValue)
    requires
        is_tab_of(t, (name, flag)),
    ensures
        t.active <==> !(flag is Nil) && !(flag is False),
        name is Some ==> t.name == name->0,
        name is None ==> t.name@.len() == 0,
{
}

/// Numbers that fit keep their value.
pub proof fn law_numbers_keep_their_value(v: Option<i64>)
    ensures
        v is None <==> narrowed(v) is None,
        v is Some && i32::MIN <= v->0 <= i32::MAX ==> narrowed(v)->0 == v->0,
{
}

/// Applications are listed with their commands if they are to be shown and have one, in order.
pub proof fn law_listed_applications(apps: Seq<InstalledApp>, name: String, command: String)
    ensures
        runnable(apps).contains((name, command)) <==> exists|i: int|
            0 <= i < apps.len() && (#[trigger] apps[i]).should_show && apps[i].name == name
                && apps[i].commandline == Some(command),
    decreases apps.len(),
{
    if apps.len() > 0 {
        let head = apps.drop_last();
        law_listed_applications(head, name, command);
        let a = runnable(head);
        let b = runnable(apps);
        assert(apps[apps.len() - 1] == apps.last());
        if a.contains((name, command)) {
            let k = choose|k: int| 0 <= k < a.len() && a[k] == (name, command);
            assert(b[k] == (name, command));
            let i = choose|i: int|
                0 <= i < head.len() && (#[trigger] head[i]).should_show && head[i].name == name
                    && head[i].commandline == Some(command);
            assert(apps[i] == head[i]);
        }
        if exists|i: int|
            0 <= i < apps.len() && (#[trigger] apps[i]).should_show && apps[i].name == name
                && apps[i].commandline == Some(command) {
            let i = choose|i: int|
                0 <= i < apps.len() && (#[trigger] apps[i]).should_show && apps[i].name == name
                    && apps[i].commandline == Some(command);
            if i < head.len() {
                assert(head[i] == apps[i]);
                assert(a.contains((name, command)));
            } else {
                assert(b[a.len() as int] == (name, command));
            }
        }
        if b.contains((name, command)) && !a.contains((name, command)) {
            let k = choose|k: int| 0 <= k < b.len() && b[k] == (name, command);
            assert(k == a.len());
        }
    }
}

/// A flag of an input device is on for every value but nil, and nothing else of the entry changes.
pub proof fn law_flags_are_read(e: InputConfigEntry, v: LispValue)
    ensures
        with_setting(e, ":natural-scroll"@, v) == Some(
            InputConfigEntry { natural_scroll: Some(!(v is Nil)), ..e },
        ),
        with_setting(e, ":tap"@, v) == Some(InputConfigEntry { tap: Some(!(v is Nil)), ..e }),
        with_setting(e, ":dwt"@, v) == Some(InputConfigEntry { dwt: Some(!(v is Nil)), ..e }),
        with_setting(e, ":left-handed"@, v) == Some(
            InputConfigEntry { left_handed: Some(!(v is Nil)), ..e },
        ),
        with_setting(e, ":middle-emulation"@, v) == Some(
            InputConfigEntry { middle_emulation: Some(!(v is Nil)), ..e },
        ),
{
    lemma_keys_differ();
}

/// Texts and numbers of an input device are stored under their own key, and a nil value leaves the
/// entry as it was.
pub proof fn law_texts_and_numbers_are_read(e: InputConfigEntry, s: String, n: i64, bits: u64)
    requires
        i32::MIN <= n <= i32::MAX,
    ensures
        with_setting(e, ":device"@, LispValue::Text(s)) == Some(
            InputConfigEntry { device: Some(s), ..e },
        ),
        with_setting(e, ":xkb-layouts"@, LispValue::Text(s)) == Some(
            InputConfigEntry { xkb_layouts: Some(s), ..e },
        ),
        with_setting(e, ":xkb-options"@, LispValue::Text(s)) == Some(
            InputConfigEntry { xkb_options: Some(s), ..e },
        ),
        with_setting(e, ":repeat-delay"@, LispValue::Int(n)) == Some(
            InputConfigEntry { repeat_delay: Some(n as i32), ..e },
        ),
        with_setting(e, ":repeat-rate"@, LispValue::Int(n)) == Some(
            InputConfigEntry { repeat_rate: Some(n as i32), ..e },
        ),
        with_setting(e, ":accel-speed"@, LispValue::Float(bits)) == Some(
            InputConfigEntry { accel_speed: Some(bits), ..e },
        ),
        with_setting(e, ":device"@, LispValue::Nil) == Some(e),
        with_setting(e, ":type"@, LispValue::Nil) == Some(e),
        with_setting(e, ":accel-speed"@, LispValue::Nil) == Some(e),
        with_setting(e, ":repeat-rate"@, LispValue::Nil) == Some(e),
{
    lemma_keys_differ();
}

/// Named settings of an input device are those that the name stands for, and a name that stands for
/// no acceleration profile is refused as one.
pub proof fn law_named_settings_are_read(e: InputConfigEntry, s: String)
    ensures
        s@ == "touchpad"@ ==> with_setting(e, ":type"@, LispValue::Text(s)) == Some(
            InputConfigEntry { device_type: Some(DeviceType::Touchpad), ..e },
        ),
        s@ == "keyboard"@ ==> with_setting(e, ":type"@, LispValue::Text(s)) == Some(
            InputConfigEntry { device_type: Some(DeviceType::Keyboard), ..e },
        ),
        s@ == "flat"@ ==> with_setting(e, ":accel-profile"@, LispValue::Text(s)) == Some(
            InputConfigEntry { accel_profile: Some(AccelProfile::Flat), ..e },
        ),
        s@ == "adaptive"@ ==> with_setting(e, ":accel-profile"@, LispValue::Text(s)) == Some(
            InputConfigEntry { accel_profile: Some(AccelProfile::Adaptive), ..e },
        ),
        s@ != "flat"@ && s@ != "adaptive"@ ==> with_setting(
            e,
            ":accel-profile"@,
            LispValue::Text(s),
        ) is None,
        s@ == "clickfinger"@ ==> with_setting(e, ":click-method"@, LispValue::Text(s)) == Some(
            InputConfigEntry { click_method: Some(ClickMethod::Clickfinger), ..e },
        ),
        s@ == "two-finger"@ ==> with_setting(e, ":scroll-method"@, LispValue::Text(s)) == Some(
            InputConfigEntry { scroll_method: Some(ScrollMethod::TwoFinger), ..e },
        ),
        s@ == "left-right-middle"@ ==> with_setting(e, ":tap-button-map"@, LispValue::Text(s))
            == Some(
            InputConfigEntry { tap_button_map: Some(TapButtonMap::LeftRightMiddle), ..e },
        ),
{
    lemma_keys_differ();
    crate::input::law_device_type_names(DeviceType::Touchpad, s@);
    crate::input::law_device_type_names(DeviceType::Keyboard, s@);
    crate::input::law_accel_profile_names(AccelProfile::Flat, s@);
    crate::input::law_accel_profile_names(AccelProfile::Adaptive, s@);
    crate::input::law_click_method_names(ClickMethod::Clickfinger, s@);
    crate::input::law_scroll_method_names(ScrollMethod::TwoFinger, s@);
    crate::input::law_tap_button_map_names(TapButtonMap::LeftRightMiddle, s@);
}

/// An unknown key is refused, whatever its value, and a list with a refused pair is refused.
pub proof fn law_unknown_keys_are_refused(
    e: InputConfigEntry,
    plist: Seq<(String, LispValue)>,
    i: int,
    key: Seq<char>,
    v: LispValue,
)
    ensures
        !known_key(key) ==> with_setting(e, key, v) is None,
        0 <= i < plist.len() && !known_key(plist[i].0@) ==> entry_of(plist) is None,
        plist.len() == 0 ==> entry_of(plist) == Some(empty_entry()),
    decreases plist.len(),
{
    if plist.len() > 0 {
        let head = plist.drop_last();
        if 0 <= i < head.len() {
            assert(head[i] == plist[i]);
        }
        law_unknown_keys_are_refused(e, head, i, key, v);
    }
}

/// The keys of input settings differ in their lengths or in a letter.
proof fn lemma_keys_differ()
    ensures
        ":device"@.len() == 7,
        ":device"@[1] == 'd',
        ":type"@.len() == 5,
        ":type"@[1] == 't',
        ":natural-scroll"@.len() == 15,
        ":natural-scroll"@[1] == 'n',
        ":tap"@.len() == 4,
        ":tap"@[1] == 't',
        ":dwt"@.len() == 4,
        ":dwt"@[1] == 'd',
        ":left-handed"@.len() == 12,
        ":left-handed"@[1] == 'l',
        ":middle-emulation"@.len() == 17,
        ":middle-emulation"@[1] == 'm',
        ":accel-speed"@.len() == 12,
        ":accel-speed"@[1] == 'a',
        ":accel-profile"@.len() == 14,
        ":accel-profile"@[1] == 'a',
        ":click-method"@.len() == 13,
        ":click-method"@[1] == 'c',
        ":scroll-method"@.len() == 14,
        ":scroll-method"@[1] == 's',
        ":tap-button-map"@.len() == 15,
        ":tap-button-map"@[1] == 't',
        ":repeat-delay"@.len() == 13,
        ":repeat-delay"@[1] == 'r',
        ":repeat-rate"@.len() == 12,
        ":repeat-rate"@[1] == 'r',
        ":xkb-layouts"@.len() == 12,
        ":xkb-layouts"@[1] == 'x',
        ":xkb-options"@.len() == 12,
        ":xkb-options"@[1] == 'x',
        ":xkb-layouts"@[5] == 'l',
        ":xkb-options"@[5] == 'o',
{
    reveal_strlit(":device");
    reveal_strlit(":type");
    reveal_strlit(":natural-scroll");
    reveal_strlit(":tap");
    reveal_strlit(":dwt");
    reveal_strlit(":left-handed");
    reveal_strlit(":middle-emulation");
    reveal_strlit(":accel-speed");
    reveal_strlit(":accel-profile");
    reveal_strlit(":click-method");
    reveal_strlit(":scroll-method");
    reveal_strlit(":tap-button-map");
    reveal_strlit(":repeat-delay");
    reveal_strlit(":repeat-rate");
    reveal_strlit(":xkb-layouts");
    reveal_strlit(":xkb-options");
}

/// A described key asks for the modifiers whose flags are set, each for its own.
pub proof fn law_described_keys(spec: KeySpec, keysym: u32)
    ensures
        ({
            let k = key_of(spec, keysym);
            &&& k.keysym == keysym
            &&& k.ctrl == spec.ctrl.truthy()
            &&& k.alt == spec.alt.truthy()
            &&& k.shift == spec.shift.truthy()
            &&& k.logo == spec.logo.truthy()
            &&& k.allow_fullscreen == spec.allow_fullscreen.truthy()
        }),
{
}

/// A key name is tried as it is first, then with underscores for hyphens if it has any, then as a
/// media key; the symbol that counts is the first that a name stands for.
pub proof fn law_key_names_are_tried_in_order(
    name: Seq<char>,
    table: spec_fn(Seq<char>, bool) -> u32,
)
    ensures
        guess_names(name)[0] == (name, true),
        name.contains('-') ==> guess_names(name)[1] == (replaced(name, '-', '_'), true)
            && guess_names(name)[2] == ("XF86"@ + name, true),
        !name.contains('-') ==> guess_names(name)[1] == ("XF86"@ + name, true),
        table(name, true) != 0 ==> table_symbol(table, guess_names(name)) == table(name, true),
{
}

/// The symbol that counts is that of the first name in the list that has one.
pub proof fn law_first_symbol_counts(
    table: spec_fn(Seq<char>, bool) -> u32,
    names: Seq<(Seq<char>, bool)>,
    i: int,
)
    ensures
        0 <= i < names.len() && table(names[i].0, names[i].1) != 0 && (forall|j: int|
            0 <= j < i ==> table((#[trigger] names[j]).0, names[j].1) == 0) ==> table_symbol(
            table,
            names,
        ) == table(names[i].0, names[i].1),
        (forall|j: int| 0 <= j < names.len() ==> table((#[trigger] names[j]).0, names[j].1) == 0)
            ==> table_symbol(table, names) == 0,
    decreases names.len(),
{
    if names.len() > 0 {
        let rest = names.skip(1);
        law_first_symbol_counts(table, rest, i - 1);
        assert forall|j: int| 0 <= j < rest.len() implies #[trigger] rest[j] == names[j + 1] by {}
        if 0 < i < names.len() {
            assert(rest[i - 1] == names[i]);
        }
        assert(names[0] == names[0]);
    }
}

/// The focus command that counts is the last one that waits.
pub proof fn law_last_focus_command_counts(cmds: Seq<ModuleCommand>, i: int, id: u64)
    ensures
        0 <= i < cmds.len() && cmds[i] == (ModuleCommand::Focus { id }) && (forall|j: int|
            i < j < cmds.len() ==> !((#[trigger] cmds[j]) is Focus)) ==> last_focus(cmds) == Some(
            id,
        ),
        (forall|j: int| 0 <= j < cmds.len() ==> !((#[trigger] cmds[j]) is Focus)) ==> last_focus(
            cmds,
        ) is None,
    decreases cmds.len(),
{
    if cmds.len() > 0 {
        let head = cmds.drop_last();
        law_last_focus_command_counts(head, i, id);
        assert(cmds[cmds.len() - 1] == cmds.last());
        assert forall|j: int| 0 <= j < head.len() implies #[trigger] head[j] == cmds[j] by {}
    }
}

/// Taking the focus commands out leaves the others, every one and in order.
pub proof fn law_other_commands_stay(cmds: Seq<ModuleCommand>)
    ensures
        other_commands(cmds) == cmds.filter(|c: ModuleCommand| !(c is Focus)),
    decreases cmds.len(),
{
    reveal(Seq::filter);
    if cmds.len() > 0 {
        law_other_commands_stay(cmds.drop_last());
    }
}

/// The history of the focus keeps the last twenty changes: the oldest gives way to a new one only
/// when there are as many.
pub proof fn law_history_keeps_the_latest(events: Seq<FocusEvent>, i: int)
    requires
        0 <= i < events.len(),
    ensures
        events.len() < 20 ==> make_room(events) == events,
        events.len() == 20 ==> make_room(events).len() == 19,
        events.len() >= 20 && i > 0 ==> make_room(events)[i - 1] == events[i],
{
}

} // verus!
