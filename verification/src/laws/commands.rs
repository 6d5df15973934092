//! What Emacs's commands do.
use crate::backend::Transform;
use crate::effect::{Effect, TimerKind};
use crate::event::Event;
use crate::ewm::commands::{
    command_handled, im_step, index_of_name, joined, keyboard_entry, layout_names, merged,
    nonempty_trimmed, OutputSettings,
};
use crate::ewm::{Ewm, IdleAction};
use crate::im_relay::ImEvent;
use crate::input::{DeviceType, InputConfigEntry};
use crate::layout::MappedOutput;
use crate::module::ModuleCommand;
use crate::outputs::OutputConfig;
use crate::tables::NameMap;
use crate::text::{pieces, trimmed};
use crate::time::Duration;
use vstd::prelude::*;

verus! {

/// What a command sets of an output is what is stored: each value in its own place. What is left
/// out of a mode or a position is that of the mapped output, or a full HD mode at the origin where
/// there is none; what is not spoken of at all stays.
pub proof fn law_merged_settings(c: OutputConfig, s: OutputSettings, current: Option<MappedOutput>)
    ensures
        ({
            let r = merged(c, s, current);
            let sized = current is Some && current->0.mode_size is Some;
            &&& s.width is None && s.height is None && s.refresh is None ==> r.mode == c.mode
            &&& s.width is Some || s.height is Some || s.refresh is Some ==> {
                &&& r.mode is Some
                &&& s.width is Some ==> (r.mode->0).0 == s.width->0
                &&& s.height is Some ==> (r.mode->0).1 == s.height->0
                &&& (r.mode->0).2 == s.refresh
                &&& s.width is None && sized ==> (r.mode->0).0 == current->0.mode_size->0.w
                &&& s.height is None && sized ==> (r.mode->0).1 == current->0.mode_size->0.h
                &&& s.width is None && !sized ==> (r.mode->0).0 == 1920
                &&& s.height is None && !sized ==> (r.mode->0).1 == 1080
            }
            &&& s.x is None && s.y is None ==> r.position == c.position
            &&& s.x is Some || s.y is Some ==> {
                &&& r.position is Some
                &&& s.x is Some ==> (r.position->0).0 == s.x->0
                &&& s.y is Some ==> (r.position->0).1 == s.y->0
                &&& s.x is None && current is Some ==> (r.position->0).0 == current->0.geo.loc.x
                &&& s.y is None && current is Some ==> (r.position->0).1 == current->0.geo.loc.y
                &&& s.x is None && current is None ==> (r.position->0).0 == 0
                &&& s.y is None && current is None ==> (r.position->0).1 == 0
            }
            &&& s.scale_120 is Some ==> r.scale_120 == s.scale_120
            &&& s.scale_120 is None ==> r.scale_120 == c.scale_120
            &&& s.transform is Some && 0 <= s.transform->0 <= 7 ==> r.transform is Some
                && r.transform->0.number() == s.transform->0
            &&& s.transform is Some && !(0 <= s.transform->0 <= 7) ==> r.transform == Some(
                Transform::Normal,
            )
            &&& s.transform is None ==> r.transform == c.transform
            &&& s.enabled is Some ==> r.enabled == s.enabled->0
            &&& s.enabled is None ==> r.enabled == c.enabled
        }),
{
}

/// What a command configures of an output is what is stored under its name: each value that the
/// command gives in its own place. The settings of the other outputs stay, nothing else changes,
/// and the output's settings are asked to be applied.
pub proof fn law_configured_outputs_keep_what_was_set(
    before: Ewm,
    after: Ewm,
    name: String,
    s: OutputSettings,
    now: Duration,
)
    requires
        before.wf(),
        after.wf(),
        command_handled(
            before,
            after,
            ModuleCommand::ConfigureOutput {
                name,
                x: s.x,
                y: s.y,
                width: s.width,
                height: s.height,
                refresh: s.refresh,
                scale_120: s.scale_120,
                transform: s.transform,
                enabled: s.enabled,
            },
            now,
        ),
    ensures
        after.output_config@.contains_key(name@),
        ({
            let r = after.output_config@[name@];
            let known = before.output_config@.contains_key(name@);
            let c = before.output_config@[name@];
            &&& s.width is Some ==> r.mode is Some && (r.mode->0).0 == s.width->0
            &&& s.height is Some ==> r.mode is Some && (r.mode->0).1 == s.height->0
            &&& s.width is Some || s.height is Some || s.refresh is Some ==> r.mode is Some && (
            r.mode->0).2 == s.refresh
            &&& s.x is Some ==> r.position is Some && (r.position->0).0 == s.x->0
            &&& s.y is Some ==> r.position is Some && (r.position->0).1 == s.y->0
            &&& s.scale_120 is Some ==> r.scale_120 == s.scale_120
            &&& s.transform is Some && 0 <= s.transform->0 <= 7 ==> r.transform is Some
                && r.transform->0.number() == s.transform->0
            &&& s.enabled is Some ==> r.enabled == s.enabled->0
            &&& known && s.width is None && s.height is None && s.refresh is None ==> r.mode
                == c.mode
            &&& known && s.x is None && s.y is None ==> r.position == c.position
            &&& known && s.scale_120 is None ==> r.scale_120 == c.scale_120
            &&& known && s.transform is None ==> r.transform == c.transform
            &&& known && s.enabled is None ==> r.enabled == c.enabled
            &&& !known && s.width is None && s.height is None && s.refresh is None ==> r.mode is None
            &&& !known && s.x is None && s.y is None ==> r.position is None
            &&& !known && s.scale_120 is None ==> r.scale_120 is None
            &&& !known && s.transform is None ==> r.transform is None
            &&& !known && s.enabled is None ==> r.enabled
        }),
        forall|n: Seq<char>|
            n != name@ && before.output_config@.contains_key(n)
                ==> #[trigger] after.output_config@.contains_key(n) && after.output_config@[n]
                == before.output_config@[n],
        after.effects@ == before.effects@.push(Effect::ApplyOutputConfig { output: name }),
        after == (Ewm {
            output_config: after.output_config,
            effects: after.effects,
            ..before
        }),
{
    let c = if before.output_config@.contains_key(name@) {
        before.output_config@[name@]
    } else {
        crate::outputs::default_config()
    };
    let current = if before.space@.contains_key(name@) {
        Some(before.space@[name@])
    } else {
        None
    };
    law_merged_settings(c, s, current);
    NameMap::lemma_entries_with(
        before.output_config,
        after.output_config,
        name,
        merged(c, s, current),
    );
    assert forall|n: Seq<char>|
        n != name@ && before.output_config@.contains_key(n) implies
        #[trigger] after.output_config@.contains_key(n) && after.output_config@[n]
        == before.output_config@[n] by {
        let p = before.output_config.position(n);
        before.output_config.lemma_entry(p);
        assert(after.output_config.entries@[p] == before.output_config.entries@[p]);
        after.output_config.lemma_entry(p);
    }
}

/// A command that only asks for something outside asks for just that, with what the command
/// holds, and changes nothing here.
pub proof fn law_requests_are_passed_on(
    before: Ewm,
    after: Ewm,
    id: u64,
    x: u64,
    y: u64,
    text: String,
    cmd: ModuleCommand,
    now: Duration,
)
    requires
        command_handled(before, after, cmd, now),
    ensures
        cmd == (ModuleCommand::WarpPointer { x_bits: x, y_bits: y }) ==> after.effects@
            == before.effects@.push(Effect::WarpPointer { x_bits: x, y_bits: y }),
        cmd == (ModuleCommand::Close { id }) && before.windows@.contains_key(id) ==> after.effects@
            == before.effects@.push(Effect::SendClose { id }),
        cmd == (ModuleCommand::Close { id }) && !before.windows@.contains_key(id) ==> after
            == before,
        cmd == (ModuleCommand::ImCommit { text, surface_id: id }) ==> after.effects@
            == before.effects@.push(Effect::CommitText { text, keep: true }),
        cmd == (ModuleCommand::SetSelection { text }) ==> after.effects@ == before.effects@.push(
            Effect::SetSelection { text },
        ),
        cmd is GetDebugState ==> after.effects@ == before.effects@.push(Effect::DumpState),
        cmd is CreateActivationToken ==> after.effects@ == before.effects@.push(
            Effect::CreateActivationToken,
        ),
        cmd is WarpPointer || cmd is Close || cmd is ImCommit || cmd is SetSelection
            || cmd is GetDebugState || cmd is CreateActivationToken || cmd is GetLayouts ==> after
            == (Ewm { effects: after.effects, ..before }),
        cmd == (ModuleCommand::Screenshot { path: Some(text) }) ==> after == (Ewm {
            pending_screenshot: Some(text),
            ..before
        }),
{
}

/// A focus command moves the focus to the window that it names and asks for the keyboard to
/// follow; Emacs, who asked, is told nothing.
pub proof fn law_focus_command_moves_the_focus(before: Ewm, after: Ewm, id: u64, now: Duration)
    requires
        command_handled(before, after, ModuleCommand::Focus { id }, now),
        before.windows@.contains_key(id),
    ensures
        after.focused_surface_id == id,
        before.focused_surface_id != id ==> after.keyboard_focus_dirty,
        after.effects@ == before.effects@,
        after.windows == before.windows,
        after.layouts == before.layouts,
{
}

/// Capturing text for the input method is on or off as the last command said.
pub proof fn law_text_capture_is_as_told(before: Ewm, after: Ewm, enabled: bool, now: Duration)
    requires
        command_handled(before, after, ModuleCommand::TextInputIntercept { enabled }, now),
    ensures
        after.text_input_intercept == enabled,
        after == (Ewm { text_input_intercept: enabled, ..before }),
{
}

/// Switching to a keyboard layout by name makes the first layout of that name the current one and
/// tells the keyboard and Emacs its number; a name that no layout has changes nothing.
pub proof fn law_keyboard_layouts_are_found_by_name(
    before: Ewm,
    after: Ewm,
    layout: String,
    i: usize,
    now: Duration,
)
    requires
        before.xkb_layout_names@.len() <= usize::MAX,
        command_handled(before, after, ModuleCommand::SwitchLayout { layout }, now),
    ensures
        i < before.xkb_layout_names@.len() && before.xkb_layout_names@[i as int]@ == layout@ && (
        forall|j: int| 0 <= j < i ==> (#[trigger] before.xkb_layout_names@[j])@ != layout@) ==> {
            &&& after.xkb_current_layout == i
            &&& after.effects@ == before.effects@ + seq![
                Effect::SetKeyboardLayout { index: i },
                Effect::Event(Event::LayoutSwitched { layout, index: i }),
            ]
        },
        (forall|j: int|
            0 <= j < before.xkb_layout_names@.len() ==> (#[trigger] before.xkb_layout_names@[j])@
                != layout@) ==> after == before,
        after.xkb_layout_names == before.xkb_layout_names,
{
    lemma_index_of_name(before.xkb_layout_names@, layout@, i);
    assert(i < before.xkb_layout_names@.len() && index_of_name(before.xkb_layout_names@, layout@)
        == Some(i) ==> after.effects@ =~= before.effects@ + seq![
        Effect::SetKeyboardLayout { index: i },
        Effect::Event(Event::LayoutSwitched { layout, index: i }),
    ]);
}

proof fn lemma_index_of_name(names: Seq<String>, name: Seq<char>, i: usize)
    requires
        names.len() <= usize::MAX,
    ensures
        i < names.len() && names[i as int]@ == name && (forall|j: int|
            0 <= j < i ==> (#[trigger] names[j])@ != name) ==> index_of_name(names, name) == Some(
            i,
        ),
        (forall|j: int| 0 <= j < names.len() ==> (#[trigger] names[j])@ != name)
            ==> index_of_name(names, name) is None,
    decreases names.len(),
{
    if names.len() > 0 {
        let head = names.drop_last();
        lemma_index_of_name(head, name, i);
        let n = names.len() - 1;
        assert(names[n] == names.last());
        if forall|j: int| 0 <= j < n ==> (#[trigger] names[j])@ != name {
            assert forall|j: int| 0 <= j < head.len() implies (#[trigger] head[j])@ != name by {
                assert(head[j] == names[j]);
            }
        }
        if i < n {
            assert(head[i as int] == names[i as int]);
            if forall|j: int| 0 <= j < i ==> (#[trigger] names[j])@ != name {
                assert forall|j: int| 0 <= j < i implies (#[trigger] head[j])@ != name by {
                    assert(head[j] == names[j]);
                }
            }
        }
    }
}

/// The keyboard layouts are told to Emacs as they are, in order, with the number of the current
/// one.
pub proof fn law_layouts_are_told_in_order(before: Ewm, after: Ewm, now: Duration)
    requires
        command_handled(before, after, ModuleCommand::GetLayouts, now),
    ensures
        after.effects@.len() == before.effects@.len() + 1,
        ({
            let x = after.effects@.last();
            &&& x matches Effect::Event(Event::Layouts { layouts, current })
            &&& layouts@ == before.xkb_layout_names@
            &&& current == before.xkb_current_layout
        }),
{
}

/// An idle timeout is set to as many seconds as the command says, with its action: dark displays
/// for the word that stands for them, else the command that is named. Without a number of seconds
/// there is no timeout. The timer starts anew and the time of the command counts as activity.
pub proof fn law_idle_timeout_is_as_configured(
    before: Ewm,
    after: Ewm,
    timeout_secs: Option<u64>,
    action: String,
    now: Duration,
)
    requires
        command_handled(
            before,
            after,
            ModuleCommand::ConfigureIdle { timeout_secs, action },
            now,
        ),
    ensures
        timeout_secs is None ==> after.idle_timeout.timeout is None
            && after.idle_timeout.timer_token is None,
        timeout_secs is Some ==> {
            &&& after.idle_timeout.timeout is Some
            &&& after.idle_timeout.timeout->0@ == timeout_secs->0 * 1_000_000_000
            &&& after.idle_timeout.timer_token is Some
            &&& after.effects@.len() > 0
            &&& after.effects@.last() == (Effect::StartTimer {
                token: after.idle_timeout.timer_token->0,
                after: after.idle_timeout.timeout->0,
                kind: TimerKind::Idle,
            })
        },
        action@ == "blank"@ <==> after.idle_timeout.action is DeactivateMonitors,
        action@ != "blank"@ ==> after.idle_timeout.action == IdleAction::RunCommand(action),
        !after.idle_timeout.is_idle,
        after.idle_timeout.last_activity == now,
        before.idle_timeout.is_idle ==> after.monitors_active,
        !before.idle_timeout.is_idle ==> after.monitors_active == before.monitors_active,
{
}

/// A timer that ran before idleness was configured anew is cancelled.
pub proof fn law_configuring_idleness_ends_the_old_timer(
    before: Ewm,
    after: Ewm,
    timeout_secs: Option<u64>,
    action: String,
    now: Duration,
    token: u64,
)
    requires
        before.wf(),
        before.idle_timeout.timer_token == Some(token),
        command_handled(
            before,
            after,
            ModuleCommand::ConfigureIdle { timeout_secs, action },
            now,
        ),
    ensures
        after.effects@.len() > before.effects@.len(),
        after.effects@[before.effects@.len() as int] == (Effect::CancelTimer { token }),
{
}

/// The first entry about keyboards decides about the keyboard: its repeat rate and delay are set
/// where it names one of them, with 25 per second and 200 ms for the other, and its layouts where
/// it names any. The devices are configured anew in any case, and the entries are stored.
pub proof fn law_input_is_configured(
    before: Ewm,
    after: Ewm,
    configs: Vec<InputConfigEntry>,
    now: Duration,
    i: int,
)
    requires
        command_handled(before, after, ModuleCommand::ConfigureInput { configs }, now),
    ensures
        after.input_configs == configs,
        after.effects@.len() > before.effects@.len(),
        after.effects@[before.effects@.len() as int] == Effect::ReapplyInputConfig,
        (forall|j: int|
            0 <= j < configs@.len() ==> (#[trigger] configs@[j]).device_type != Some(
                DeviceType::Keyboard,
            )) ==> after.effects@ == before.effects@.push(Effect::ReapplyInputConfig),
        0 <= i < configs@.len() && configs@[i].device_type == Some(DeviceType::Keyboard) && (
        forall|j: int|
            0 <= j < i ==> (#[trigger] configs@[j]).device_type != Some(DeviceType::Keyboard)) ==> {
            let k = configs@[i];
            let rate = if k.repeat_rate is Some {
                k.repeat_rate->0
            } else {
                25
            };
            let delay = if k.repeat_delay is Some {
                k.repeat_delay->0
            } else {
                200
            };
            let repeat = if k.repeat_rate is Some || k.repeat_delay is Some {
                seq![Effect::SetKeyRepeat { rate, delay }]
            } else {
                Seq::empty()
            };
            let layouts = if k.xkb_layouts is Some && layout_names(k.xkb_layouts->0@).len() > 0 {
                seq![Effect::SetXkbConfig { layouts: k.xkb_layouts->0, options: k.xkb_options }]
            } else {
                Seq::empty()
            };
            after.effects@ == before.effects@.push(Effect::ReapplyInputConfig) + repeat + layouts
        },
{
    lemma_keyboard_entry(configs@, i);
}

proof fn lemma_keyboard_entry(configs: Seq<InputConfigEntry>, i: int)
    ensures
        0 <= i < configs.len() && configs[i].device_type == Some(DeviceType::Keyboard) && (forall|
            j: int,
        |
            0 <= j < i ==> (#[trigger] configs[j]).device_type != Some(DeviceType::Keyboard))
            ==> keyboard_entry(configs) == Some(configs[i]),
        (forall|j: int|
            0 <= j < configs.len() ==> (#[trigger] configs[j]).device_type != Some(
                DeviceType::Keyboard,
            )) ==> keyboard_entry(configs) is None,
    decreases configs.len(),
{
    if configs.len() > 0 {
        let head = configs.drop_last();
        lemma_keyboard_entry(head, i);
        let n = configs.len() - 1;
        assert(configs[n] == configs.last());
        if forall|j: int|
            0 <= j < n ==> (#[trigger] configs[j]).device_type != Some(DeviceType::Keyboard) {
            assert forall|j: int| 0 <= j < head.len() implies (#[trigger] head[j]).device_type
                != Some(DeviceType::Keyboard) by {
                assert(head[j] == configs[j]);
            }
        }
        if 0 <= i < n {
            assert(head[i] == configs[i]);
            if forall|j: int|
                0 <= j < i ==> (#[trigger] configs[j]).device_type != Some(DeviceType::Keyboard) {
                assert forall|j: int| 0 <= j < i implies (#[trigger] head[j]).device_type != Some(
                    DeviceType::Keyboard,
                ) by {
                    assert(head[j] == configs[j]);
                }
            }
        }
    }
}

/// A list of keyboard layouts names what stands between its commas, without white space around it;
/// nothing is named where only white space stands.
pub proof fn law_layout_lists_name_their_pieces(list: Seq<char>, k: int)
    ensures
        forall|i: int|
            0 <= i < pieces(list, ',').len() && trimmed(#[trigger] pieces(list, ',')[i]).len() > 0
                ==> layout_names(list).contains(trimmed(pieces(list, ',')[i])),
        0 <= k < layout_names(list).len() ==> layout_names(list)[k].len() > 0 && exists|i: int|
            k <= i < pieces(list, ',').len() && trimmed(#[trigger] pieces(list, ',')[i])
                == layout_names(list)[k],
{
    lemma_names(pieces(list, ','), k);
}

proof fn lemma_names(p: Seq<Seq<char>>, k: int)
    ensures
        nonempty_trimmed(p).len() <= p.len(),
        forall|i: int|
            0 <= i < p.len() && trimmed(#[trigger] p[i]).len() > 0 ==> nonempty_trimmed(p).contains(
                trimmed(p[i]),
            ),
        0 <= k < nonempty_trimmed(p).len() ==> nonempty_trimmed(p)[k].len() > 0 && exists|i: int|
            k <= i < p.len() && trimmed(#[trigger] p[i]) == nonempty_trimmed(p)[k],
    decreases p.len(),
{
    if p.len() > 0 {
        let head = p.drop_last();
        lemma_names(head, k);
        let a = nonempty_trimmed(head);
        let b = nonempty_trimmed(p);
        assert forall|i: int| 0 <= i < p.len() && trimmed(#[trigger] p[i]).len() > 0 implies
            b.contains(trimmed(p[i])) by {
            if i < head.len() {
                assert(head[i] == p[i]);
                let q = choose|q: int| 0 <= q < a.len() && a[q] == trimmed(p[i]);
                assert(b[q] == trimmed(p[i]));
            } else {
                assert(b[b.len() - 1] == trimmed(p[i]));
            }
        }
        if 0 <= k < b.len() {
            if k < a.len() {
                let i = choose|i: int| k <= i < head.len() && trimmed(#[trigger] head[i]) == a[k];
                assert(trimmed(p[i]) == b[k]);
            } else {
                assert(trimmed(p[p.len() - 1]) == b[k]);
            }
        }
    }
}

/// A layout command stores the tabs under the output's name, whether or not the output is mapped,
/// and asks for the pointer's focus to be looked up again.
pub proof fn law_layout_command_stores_the_tabs(
    before: Ewm,
    after: Ewm,
    output: String,
    surfaces: Vec<crate::layout::LayoutEntry>,
    tabs: Vec<crate::module::TabInfo>,
    now: Duration,
)
    requires
        before.wf(),
        after.wf(),
        command_handled(
            before,
            after,
            ModuleCommand::OutputLayout { output, surfaces, tabs },
            now,
        ),
    ensures
        after.output_workspaces@.contains_key(output@),
        after.output_workspaces@[output@] == tabs,
        after.effects@.len() > 0,
        after.effects@.last() == Effect::RefreshPointerFocus,
        !before.space@.contains_key(output@) ==> after.layouts == before.layouts && after.windows
            == before.windows && after.effects@ == before.effects@.push(
            Effect::RefreshPointerFocus,
        ),
{
    NameMap::lemma_entries_with(
        before.output_workspaces,
        after.output_workspaces,
        output,
        tabs,
    );
}

/// A text field that becomes active gets the text that waited for one, all of it in order and once;
/// Emacs is told exactly when a field becomes active or the active one goes.
pub proof fn law_waiting_text_is_committed(before: Ewm, after: Ewm)
    requires
        im_step(before, after, ImEvent::Activated),
    ensures
        after.text_input_active,
        after.pending_im_commits@.len() == 0,
        before.pending_im_commits@.len() > 0 ==> {
            &&& after.effects@.len() > before.effects@.len()
            &&& after.effects@.last() matches Effect::CommitText { text, keep }
            &&& text@ == joined(before.pending_im_commits@)
            &&& !keep
        },
        !before.text_input_active ==> after.effects@.len() > before.effects@.len()
            && after.effects@[before.effects@.len() as int] == Effect::Event(
            Event::TextInputActivated,
        ),
        before.text_input_active && before.pending_im_commits@.len() == 0 ==> after.effects@
            =~= before.effects@,
{
}

/// A text field that goes is told to Emacs once, and what waits goes on waiting.
pub proof fn law_text_field_goes(before: Ewm, after: Ewm)
    requires
        im_step(before, after, ImEvent::Deactivated),
    ensures
        !after.text_input_active,
        after.pending_im_commits == before.pending_im_commits,
        before.text_input_active ==> after.effects@ == before.effects@.push(
            Effect::Event(Event::TextInputDeactivated),
        ),
        !before.text_input_active ==> after.effects@ == before.effects@,
{
}

/// Texts that wait are put together in order.
pub proof fn law_waiting_texts_in_order(texts: Seq<String>, next: String)
    ensures
        joined(texts.push(next)) == joined(texts) + next@,
        joined(Seq::<String>::empty()) == Seq::<char>::empty(),
{
    assert(texts.push(next).drop_last() =~= texts);
}

} // verus!
