//! What holds of the compositor as a whole.
use super::commands::{command_handled, im_step};
use super::focus::focus_synced;
use super::idle::{idle_configured, waits_on, went_idle, woken};
use super::input_events::{
    activity_told, fullscreen_focused, key_forwarded, pointed_at, redirected, waiting_focus_set,
};
use super::layers::{area_settled, layer_committed, layer_dropped, layer_unnoted, LayerCommit};
use super::layouts::layout_applied;
use super::lock::{
    activity_noted, all_redrawn, lock_aborted, lock_begun, lock_checked, lock_released,
    redraw_done,
};
use super::outputs::{
    area_checked, casts_stopped, config_changed, frames_updated, output_added, output_removed,
    CurrentOutput,
};
use super::surfaces::{committed, SurfaceCommit};
use super::windows::{
    content_noted, info_checked, lock_content_noted, window_added, window_destroyed,
    window_dropped,
};
use super::{focus_set, Ewm, IdleAction};
use crate::backend::connect::{clock_replaced, output_disabled, output_moved, state_made};
use crate::backend::drm::DrmMode;
use crate::backend::drm_state::{
    frame_submitted, monitors_on, paused, state_put, vblank_estimated, vblank_followed,
    DrmBackendState,
};
use crate::backend::headless::{headless_rendered, virtual_state_made};
use crate::event::OutputInfo;
use crate::geometry::{Rect, Size};
use crate::im_relay::ImEvent;
use crate::layout::{LayoutEntry, MappedOutput};
use crate::module::ModuleCommand;
use crate::outputs::{lemma_same_names, same_names};
use crate::redraw::{AfterVBlank, OutputState, RenderResult};
use crate::time::Duration;
use vstd::prelude::*;

verus! {

/// Only commands of Emacs and input move the focus, and only new windows use up numbers: outputs
/// that come, go or change, frames, commits, idleness and a lock that begins do neither.
pub proof fn law_focus_and_numbers_are_kept(
    before: Ewm,
    after: Ewm,
    info: OutputInfo,
    cur: CurrentOutput,
    name: String,
    zone: Rect,
    res: RenderResult,
    c: SurfaceCommit,
    now: Duration,
    lock: u64,
)
    requires
        ({
            ||| output_added(before, after, info, cur)
            ||| output_removed(before, after, name)
            ||| config_changed(before, after, name, cur)
            ||| area_checked(before, after, name, zone)
            ||| redraw_done(before, after, name, res)
            ||| committed(before, after, c)
            ||| went_idle(before, after)
            ||| woken(before, after, now)
            ||| lock_begun(before, after, lock)
        }),
    ensures
        after.focused_surface_id == before.focused_surface_id,
        after.next_surface_id == before.next_surface_id,
{
}

/// Of Emacs's commands only the one that asks for it moves the focus, and none uses up a number.
pub proof fn law_other_commands_keep_focus(
    before: Ewm,
    after: Ewm,
    cmd: ModuleCommand,
    now: Duration,
)
    requires
        command_handled(before, after, cmd, now),
    ensures
        !(cmd is Focus) ==> after.focused_surface_id == before.focused_surface_id,
        after.next_surface_id == before.next_surface_id,
        after.lock_state == before.lock_state,
{
}

/// Outputs have redraw states and frame clocks of their own: what comes of a frame of one output
/// leaves the others as they are, unless it ends a lock that is under way.
pub proof fn law_outputs_are_independent(
    before: Ewm,
    after: Ewm,
    name: String,
    res: RenderResult,
    other: Seq<char>,
)
    requires
        before.wf(),
        redraw_done(before, after, name, res),
        !(before.lock_state is Locking),
        other != name@,
        before.output_state@.contains_key(other),
    ensures
        after.output_state@.contains_key(other),
        after.output_state@[other] == before.output_state@[other],
{
    assert(same_names(before.output_state.entries@, after.output_state.entries@));
    lemma_same_names(before.output_state, after.output_state);
    let p = before.output_state.position(other);
    before.output_state.lemma_entry(p);
}

/// The state `after` is `before` but for fields that hold no window: its counter, its windows and
/// what is known of them are the same.
pub open spec fn windows_untouched(before: Ewm, after: Ewm) -> bool {
    after == (Ewm {
        next_surface_id: before.next_surface_id,
        windows: before.windows,
        surface_info: before.surface_info,
        emacs_surfaces: before.emacs_surfaces,
        layouts: before.layouts,
        ..after
    })
}

/// A window came.
pub open spec fn window_came(before: Ewm, after: Ewm) -> bool {
    exists|
        app: String,
        pid: Option<i32>,
        frame: Option<Seq<char>>,
        target: Option<String>,
        scale: Option<String>,
    | #[trigger] window_added(before, after, app, pid, frame, target, scale)
}

/// Emacs or the user did something.
pub open spec fn user_acted(before: Ewm, after: Ewm) -> bool {
    ||| exists|cmd: ModuleCommand, now: Duration| #[trigger]
        command_handled(before, after, cmd, now)
    ||| exists|event: ImEvent| #[trigger] im_step(before, after, event)
    ||| exists|id: u64, notify: bool, source: Seq<char>, context: Option<Seq<char>>| #[trigger]
        focus_set(before, after, id, notify, source, context)
    ||| focus_synced(before, after)
    ||| exists|waiting: Option<u64>| #[trigger] waiting_focus_set(before, after, waiting)
    ||| exists|fullscreen: Option<u64>| #[trigger] fullscreen_focused(before, after, fullscreen)
    ||| exists|layout: usize, now: Duration| #[trigger] key_forwarded(before, after, layout, now)
    ||| exists|keycode: u32, keysym: u32| #[trigger] redirected(before, after, keycode, keysym)
    ||| exists|layer: Option<u64>, window: Option<u64>, source: Seq<char>| #[trigger]
        pointed_at(before, after, layer, window, source)
    ||| exists|now: Duration| #[trigger] activity_told(before, after, now)
    ||| exists|now: Duration| #[trigger] activity_noted(before, after, now)
    ||| exists|timeout: Option<Duration>, action: IdleAction, now: Duration| #[trigger]
        idle_configured(before, after, timeout, action, now)
    ||| went_idle(before, after)
    ||| exists|now: Duration| #[trigger] waits_on(before, after, now)
    ||| exists|now: Duration| #[trigger] woken(before, after, now)
    ||| exists|lock: u64| #[trigger] lock_begun(before, after, lock)
    ||| lock_released(before, after)
}

/// A surface changed or went away.
pub open spec fn surface_changed(before: Ewm, after: Ewm) -> bool {
    ||| exists|id: u64| #[trigger] window_dropped(before, after, id)
    ||| exists|id: u64| #[trigger] window_destroyed(before, after, id)
    ||| exists|id: u64, app_id: String, title: String| #[trigger]
        info_checked(before, after, id, app_id, title)
    ||| exists|id: u64, root: bool, app_id: String, title: String| #[trigger]
        content_noted(before, after, id, root, app_id, title)
    ||| exists|surface: u64| #[trigger] lock_content_noted(before, after, surface)
    ||| exists|c: SurfaceCommit| #[trigger] committed(before, after, c)
    ||| exists|root: u64, c: LayerCommit| #[trigger] layer_committed(before, after, root, c)
    ||| exists|surface: u64| #[trigger] layer_unnoted(before, after, surface)
    ||| exists|i: int| #[trigger] layer_dropped(before, after, i)
    ||| exists|output: String, zone: Rect| #[trigger] area_settled(before, after, output, zone)
    ||| exists|name: String, entries: Vec<LayoutEntry>| #[trigger]
        layout_applied(before, after, name, entries)
    ||| exists|sessions: Seq<u64>| #[trigger] casts_stopped(before, after, sessions)
}

/// An output came, went, changed or showed a frame.
pub open spec fn output_changed(before: Ewm, after: Ewm) -> bool {
    ||| exists|info: OutputInfo, cur: CurrentOutput| #[trigger]
        output_added(before, after, info, cur)
    ||| exists|name: String| #[trigger] output_removed(before, after, name)
    ||| exists|name: String, cur: CurrentOutput| #[trigger]
        config_changed(before, after, name, cur)
    ||| exists|name: String, zone: Rect| #[trigger] area_checked(before, after, name, zone)
    ||| exists|name: Seq<char>| #[trigger] frames_updated(before, after, name)
    ||| exists|name: String, m: MappedOutput| #[trigger] output_moved(before, after, name, m)
    ||| exists|name: Seq<char>| #[trigger] output_disabled(before, after, name)
    ||| exists|name: String, interval: nat, size: Size| #[trigger]
        state_made(before, after, name, interval, size)
    ||| exists|name: String, size: Size| #[trigger] virtual_state_made(before, after, name, size)
    ||| exists|name: Seq<char>, mode: Option<DrmMode>| #[trigger]
        clock_replaced(before, after, name, mode)
    ||| exists|name: String, res: RenderResult| #[trigger] redraw_done(before, after, name, res)
    ||| exists|name: Seq<char>| #[trigger] headless_rendered(before, after, name)
    ||| exists|name: Seq<char>| #[trigger] frame_submitted(before, after, name)
    ||| exists|b: DrmBackendState, name: String, target: Duration, now: Duration| #[trigger]
        vblank_estimated(before, after, b, name, target, now)
    ||| exists|name: Seq<char>, st: OutputState| #[trigger] state_put(before, after, name, st)
    ||| exists|name: String, next: AfterVBlank| #[trigger]
        vblank_followed(before, after, name, next)
    ||| exists|initialized: bool, surfaces: Seq<(u64, String)>| #[trigger]
        paused(before, after, initialized, surfaces)
    ||| monitors_on(before, after)
    ||| all_redrawn(before, after)
    ||| lock_checked(before, after)
    ||| lock_aborted(before, after)
}

/// Anything but the coming of a window happened. Operations that do several of these things do
/// them one after the other.
pub open spec fn something_else(before: Ewm, after: Ewm) -> bool {
    ||| windows_untouched(before, after)
    ||| user_acted(before, after)
    ||| surface_changed(before, after)
    ||| output_changed(before, after)
}

/// Only the coming of a window uses up a number.
pub proof fn law_only_new_windows_use_numbers(before: Ewm, after: Ewm)
    requires
        something_else(before, after),
    ensures
        after.next_surface_id == before.next_surface_id,
{
}

/// The number of windows that came.
pub open spec fn count_came(came: Seq<bool>) -> nat
    decreases came.len(),
{
    if came.len() == 0 {
        0
    } else {
        count_came(came.drop_last()) + if came.last() {
            1nat
        } else {
            0
        }
    }
}

/// The states that a compositor goes through: from one to the next a window comes where `came` says
/// so, else something else happens.
pub open spec fn is_run(states: Seq<Ewm>, came: Seq<bool>) -> bool {
    &&& states.len() == came.len() + 1
    &&& states[0].next_surface_id == 1
    &&& forall|i: int|
        0 <= i < came.len() ==> if #[trigger] came[i] {
            window_came(states[i], states[i + 1])
        } else {
            something_else(states[i], states[i + 1])
        }
}

/// Over any run, the window that comes k-th gets the number k, whatever happened and however many
/// windows went away before. So numbers start at one, grow, and are never used again.
pub proof fn law_windows_are_numbered_as_they_come(states: Seq<Ewm>, came: Seq<bool>)
    requires
        is_run(states, came),
        count_came(came) < u64::MAX,
    ensures
        states.last().next_surface_id == count_came(came) + 1,
        forall|i: int|
            0 <= i < came.len() && #[trigger] came[i] ==> {
                &&& states[i].next_surface_id == count_came(came.take(i)) + 1
                &&& states[i + 1].windows@.contains_key(states[i].next_surface_id)
                &&& states[i + 1].focused_surface_id == states[i].focused_surface_id
            },
    decreases came.len(),
{
    if came.len() > 0 {
        let n = came.len() - 1;
        let head = states.drop_last();
        assert forall|i: int| 0 <= i < came.drop_last().len() implies if #[trigger]
            came.drop_last()[i] {
            window_came(head[i], head[i + 1])
        } else {
            something_else(head[i], head[i + 1])
        } by {
            assert(came[i] == came.drop_last()[i]);
        }
        law_windows_are_numbered_as_they_come(head, came.drop_last());
        assert(came[n] == came.last());
        assert(head.last() == states[n]);
        if !came[n] {
            law_only_new_windows_use_numbers(states[n], states[n + 1]);
        }
        assert forall|i: int| 0 <= i < came.len() && #[trigger] came[i] implies {
            &&& states[i].next_surface_id == count_came(came.take(i)) + 1
            &&& states[i + 1].windows@.contains_key(states[i].next_surface_id)
            &&& states[i + 1].focused_surface_id == states[i].focused_surface_id
        } by {
            if i < n {
                assert(came.drop_last()[i]);
                assert(came.drop_last().take(i) =~= came.take(i));
                assert(head[i] == states[i] && head[i + 1] == states[i + 1]);
            } else {
                assert(came.take(n) =~= came.drop_last());
            }
        }
    }
}

} // verus!
