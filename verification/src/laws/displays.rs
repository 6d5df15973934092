//! Displays: what is driven, what waits, and the session bus.
use crate::backend::drm_state::{
    all_disconnected, all_recovered, disconnected, drives, external_monitor, frame_submitted,
    is_wanted, lid_closed_handled, monitors_on, panel_crtcs, panels_disconnected, paused,
    vblank_estimated, vblank_followed, wanted_places, DrmBackendState,
};
use crate::dbus::display_config::{
    is_listing, is_logical_of, is_mode_of, mode_id, LogicalMonitor, Mode,
};
use crate::dbus::screen_cast::{
    all_started, number_after, start_requests, ScreenCastToCompositor, Stream, StreamTarget,
};
use crate::dbus::{CastTarget, OutputInfo as BusOutputInfo};
use crate::effect::{Effect, TimerKind};
use crate::ewm::Ewm;
use crate::gamma::{linear, lut_rows};
use crate::redraw::{AfterVBlank, OutputState, RedrawState};
use crate::session::built_in;
use crate::text::{decimal, sorts_before};
use crate::time::Duration;
use vstd::prelude::*;

verus! {

/// A paused session waits for nothing of its displays: outputs that a controller drives are at
/// rest, and the idle timer is gone. Other outputs stay.
pub proof fn law_paused_outputs_rest(
    before: Ewm,
    after: Ewm,
    surfaces: Seq<(u64, String)>,
    i: int,
    k: int,
)
    requires
        paused(before, after, true, surfaces),
        0 <= i < before.output_state.entries@.len(),
    ensures
        after.idle_timeout.timer_token is None,
        after.output_state.entries@[i].0 == before.output_state.entries@[i].0,
        0 <= k < surfaces.len() && surfaces[k].1@ == before.output_state.entries@[i].0@
            ==> after.output_state.entries@[i].1.redraw_state == RedrawState::Idle,
        (forall|j: int|
            0 <= j < surfaces.len() ==> (#[trigger] surfaces[j]).1@
                != before.output_state.entries@[i].0@) ==> after.output_state.entries@[i]
            == before.output_state.entries@[i],
        before.idle_timeout.timer_token is Some ==> after.effects@.last() == (Effect::CancelTimer {
            token: before.idle_timeout.timer_token->0,
        }),
{
    if 0 <= k < surfaces.len() && surfaces[k].1@ == before.output_state.entries@[i].0@ {
        assert(drives(surfaces, before.output_state.entries@[i].0@));
    }
    if before.idle_timeout.timer_token is Some {
        assert(after.effects@[after.effects@.len() - 1] == (Effect::CancelTimer {
            token: before.idle_timeout.timer_token->0,
        }));
    }
}

/// After a fault of the device, outputs that waited for it are drawn again, and no others.
pub proof fn law_waiting_outputs_are_drawn_again(
    s: Seq<(String, OutputState)>,
    surfaces: Seq<(u64, String)>,
    i: int,
)
    requires
        0 <= i < s.len(),
    ensures
        all_recovered(s, surfaces)[i].0 == s[i].0,
        drives(surfaces, s[i].0@) && s[i].1.redraw_state is WaitingForVBlank ==> all_recovered(
            s,
            surfaces,
        )[i].1.redraw_state is Queued,
        !drives(surfaces, s[i].0@) || !(s[i].1.redraw_state is WaitingForVBlank) ==> all_recovered(
            s,
            surfaces,
        )[i] == s[i],
{
}

/// A frame that goes to the display makes its output wait for it, with nothing more asked for, and
/// ends a timer that stood in for the display. Clients may be called once more.
pub proof fn law_submitted_frame_is_waited_for(before: Ewm, after: Ewm, output: Seq<char>)
    requires
        before.wf(),
        after.wf(),
        before.output_state@.contains_key(output),
        frame_submitted(before, after, output),
    ensures
        after.output_state@.contains_key(output),
        after.output_state@[output].redraw_state == (RedrawState::WaitingForVBlank {
            redraw_needed: false,
        }),
        before.output_state@[output].frame_callback_sequence < u32::MAX
            ==> after.output_state@[output].frame_callback_sequence
            == before.output_state@[output].frame_callback_sequence + 1,
        before.output_state@[output].redraw_state.timer() is Some ==> after.effects@
            == before.effects@.push(
            Effect::CancelTimer { token: before.output_state@[output].redraw_state.timer()->0 },
        ),
        before.output_state@[output].redraw_state.timer() is None ==> after.effects@
            == before.effects@,
{
    let p = before.output_state.position(output);
    before.output_state.lemma_entry(p);
    assert(after.output_state.entries@[p].0@ == output);
    after.output_state.lemma_entry(p);
    if before.output_state@[output].redraw_state.timer() is Some {
        assert(after.effects@ =~= before.effects@.push(
            Effect::CancelTimer { token: before.output_state@[output].redraw_state.timer()->0 },
        ));
    } else {
        assert(after.effects@ =~= before.effects@);
    }
}

/// Without a frame an output that a controller drives waits for a timer: for the one that runs
/// already, else for a new one that runs until the frame would have been shown.
pub proof fn law_timer_stands_in_for_the_display(
    before: Ewm,
    after: Ewm,
    b: DrmBackendState,
    output: String,
    target: Duration,
    now: Duration,
)
    requires
        before.wf(),
        after.wf(),
        b.initialized,
        drives(b.surfaces.entries@, output@),
        before.output_state@.contains_key(output@),
        vblank_estimated(before, after, b, output, target, now),
    ensures
        ({
            let old_timer = before.output_state@[output@].redraw_state.timer();
            let state = after.output_state@[output@].redraw_state;
            &&& old_timer is Some ==> state == RedrawState::WaitingForEstimatedVBlank(old_timer->0)
                && after.effects == before.effects
            &&& old_timer is None ==> {
                &&& state == RedrawState::WaitingForEstimatedVBlank(before.next_timer)
                &&& after.next_timer != before.next_timer
                &&& after.effects@.len() == before.effects@.len() + 1
                &&& after.effects@.last() matches Effect::StartTimer { token, after: wait, kind }
                &&& token == before.next_timer
                &&& kind == (TimerKind::EstimatedVBlank { output })
                &&& target@ > now@ ==> now@ + wait@ == target@
                &&& target@ <= now@ && before.output_state@[output@].frame_clock.interval() is Some
                    ==> wait@ == before.output_state@[output@].frame_clock.interval()->0
            }
        }),
{
    let p = before.output_state.position(output@);
    before.output_state.lemma_entry(p);
    assert(after.output_state.entries@[p].0@ == output@);
    after.output_state.lemma_entry(p);
}

/// What follows a frame: a redraw of its own output if one is asked for, else the clients of the
/// output may draw.
pub proof fn law_after_a_frame(before: Ewm, after: Ewm, output: String, next: AfterVBlank, i: int)
    requires
        vblank_followed(before, after, output, next),
        0 <= i < before.output_state.entries@.len(),
    ensures
        next is Nothing ==> after == before,
        next is FrameCallbacks ==> after.effects@ == before.effects@.push(
            Effect::FrameCallbacks { output },
        ) && after.output_state == before.output_state,
        next is Redraw && before.output_state.entries@[i].0@ == output@
            ==> after.output_state.entries@[i].1.redraw_state.is_pending(),
        next is Redraw && before.output_state.entries@[i].0@ != output@
            ==> after.output_state.entries@[i] == before.output_state.entries@[i],
        next is Redraw ==> after.effects == before.effects,
{
    crate::redraw::law_request_is_idempotent(before.output_state.entries@[i].1.redraw_state);
}

/// A display that appears is put to use if its controller is free, unless it is a built-in panel
/// under a closed lid and there is another monitor.
pub proof fn law_wanted_displays(b: DrmBackendState, e: Ewm, name: Seq<char>, crtc: u64)
    ensures
        b.surfaces@.contains_key(crtc) ==> !is_wanted(b, e, name, crtc),
        !b.surfaces@.contains_key(crtc) && !b.lid_closed ==> is_wanted(b, e, name, crtc),
        !b.surfaces@.contains_key(crtc) && !built_in(name) ==> is_wanted(b, e, name, crtc),
        b.lid_closed && built_in(name) && (exists|i: int|
            0 <= i < e.outputs@.len() && !built_in((#[trigger] e.outputs@[i]).name@)) ==> !is_wanted(
            b,
            e,
            name,
            crtc,
        ),
        !b.surfaces@.contains_key(crtc) && (forall|i: int|
            0 <= i < e.outputs@.len() ==> built_in((#[trigger] e.outputs@[i]).name@)) ==> is_wanted(
            b,
            e,
            name,
            crtc,
        ),
{
}

/// Of the displays that appeared, each wanted one is put to use, and no other.
pub proof fn law_all_wanted_displays(
    b: DrmBackendState,
    e: Ewm,
    added: Seq<(String, u64)>,
    i: usize,
)
    requires
        added.len() <= usize::MAX,
    ensures
        wanted_places(b, e, added).contains(i) <==> i < added.len() && is_wanted(
            b,
            e,
            added[i as int].0@,
            added[i as int].1,
        ),
    decreases added.len(),
{
    if added.len() > 0 {
        let head = added.drop_last();
        law_all_wanted_displays(b, e, head, i);
        let x = wanted_places(b, e, head);
        let y = wanted_places(b, e, added);
        let n = added.len() - 1;
        if i < n {
            assert(head[i as int] == added[i as int]);
        }
        if x.contains(i) {
            let k = choose|k: int| 0 <= k < x.len() && x[k] == i;
            assert(y[k] == i);
        }
        if y != x {
            assert(y[x.len() as int] == n as usize);
        }
        if y.contains(i) && !x.contains(i) {
            let k = choose|k: int| 0 <= k < y.len() && y[k] == i;
            assert(k == x.len());
        }
    }
}

/// The controllers of built-in panels are those that drive an output with such a name.
pub proof fn law_panels_are_found(surfaces: Seq<(u64, String)>, crtc: u64)
    ensures
        panel_crtcs(surfaces).contains(crtc) <==> exists|i: int|
            0 <= i < surfaces.len() && (#[trigger] surfaces[i]).0 == crtc && built_in(
                surfaces[i].1@,
            ),
    decreases surfaces.len(),
{
    if surfaces.len() > 0 {
        let head = surfaces.drop_last();
        law_panels_are_found(head, crtc);
        let a = panel_crtcs(head);
        let b = panel_crtcs(surfaces);
        assert(surfaces[surfaces.len() - 1] == surfaces.last());
        if a.contains(crtc) {
            let k = choose|k: int| 0 <= k < a.len() && a[k] == crtc;
            assert(b[k] == crtc);
            let i = choose|i: int|
                0 <= i < head.len() && (#[trigger] head[i]).0 == crtc && built_in(head[i].1@);
            assert(surfaces[i] == head[i]);
        }
        if exists|i: int|
            0 <= i < surfaces.len() && (#[trigger] surfaces[i]).0 == crtc && built_in(
                surfaces[i].1@,
            ) {
            let i = choose|i: int|
                0 <= i < surfaces.len() && (#[trigger] surfaces[i]).0 == crtc && built_in(
                    surfaces[i].1@,
                );
            if i < head.len() {
                assert(head[i] == surfaces[i]);
                assert(a.contains(crtc));
            } else {
                assert(b[a.len() as int] == crtc);
            }
        }
        if b.contains(crtc) && !a.contains(crtc) {
            let k = choose|k: int| 0 <= k < b.len() && b[k] == crtc;
            assert(k == a.len());
        }
    }
}

/// Closing the lid without another monitor darkens the displays and keeps the panel; Emacs is told
/// last that all outputs are known.
pub proof fn law_lid_closed_on_a_lone_panel(
    b0: DrmBackendState,
    e0: Ewm,
    b1: DrmBackendState,
    e1: Ewm,
)
    requires
        lid_closed_handled(b0, e0, b1, e1),
        forall|i: int| 0 <= i < e0.outputs@.len() ==> built_in((#[trigger] e0.outputs@[i]).name@),
    ensures
        !e1.monitors_active,
        b1 == b0,
        e1.space == e0.space,
        e1.output_state == e0.output_state,
        !e1.idle_timeout.child_running,
        e1.effects@.last() == Effect::Event(crate::event::Event::OutputsComplete),
{
}

/// Turning the monitors on draws every output, unless they were on.
pub proof fn law_monitors_on(before: Ewm, after: Ewm, i: int)
    requires
        monitors_on(before, after),
        0 <= i < before.output_state.entries@.len(),
    ensures
        after.monitors_active,
        before.monitors_active ==> after == before,
        !before.monitors_active ==> after.output_state.entries@[i].1.redraw_state.is_pending(),
{
    crate::redraw::law_request_is_idempotent(before.output_state.entries@[i].1.redraw_state);
}

/// A controller whose display is gone drives nothing, and the others go on.
pub proof fn law_disconnected_controller(
    b0: DrmBackendState,
    e0: Ewm,
    b1: DrmBackendState,
    e1: Ewm,
    crtc: u64,
    other: u64,
)
    requires
        disconnected(b0, e0, b1, e1, crtc),
        b0.initialized,
        other != crtc,
    ensures
        !b1.surfaces@.contains_key(crtc),
        b1.surfaces@.contains_key(other) == b0.surfaces@.contains_key(other),
        b0.surfaces@.contains_key(other) ==> b1.surfaces@[other] == b0.surfaces@[other],
        b0.surfaces@.contains_key(crtc) ==> !e1.space@.contains_key(b0.surfaces@[crtc]@),
        !b0.surfaces@.contains_key(crtc) ==> e1 == e0,
{
}

/// A table of gamma values holds the red, green and blue of each step together, followed by
/// nothing.
pub proof fn law_gamma_table_rows(ramp: Seq<u16>, size: int, i: int)
    requires
        ramp.len() == 3 * size,
        0 <= i < size,
    ensures
        lut_rows(ramp, size).len() == 4 * size,
        lut_rows(ramp, size)[4 * i] == ramp[i],
        lut_rows(ramp, size)[4 * i + 1] == ramp[size + i],
        lut_rows(ramp, size)[4 * i + 2] == ramp[2 * size + i],
        lut_rows(ramp, size)[4 * i + 3] == 0,
{
    assert((4 * i) / 4 == i && (4 * i + 1) / 4 == i && (4 * i + 2) / 4 == i && (4 * i + 3) / 4 == i);
    assert((4 * i) % 4 == 0 && (4 * i + 1) % 4 == 1 && (4 * i + 2) % 4 == 2 && (4 * i + 3) % 4
        == 3);
}

/// Each step of a linear ramp is its share of the full range, rounded down.
pub proof fn law_linear_ramp_steps(i: int, n: int)
    requires
        n >= 2,
        0 <= i < n,
    ensures
        linear(i, n) * (n - 1) <= 0xffff * i < (linear(i, n) + 1) * (n - 1),
{
    let a = 0xffff * i;
    let d = n - 1;
    let q = a / d;
    assert(a == d * q + a % d && 0 <= a % d < d) by {
        vstd::arithmetic::div_mod::lemma_fundamental_div_mod(a, d);
        vstd::arithmetic::div_mod::lemma_mod_bound(a, d);
    }
    assert(q * d == d * q && (q + 1) * d == d * q + d) by (nonlinear_arith);
}

/// Starting a session asks for the cast of each stream that was not started, with its own numbers
/// and its own target; streams of outputs cast the output of their name.
pub proof fn law_each_stream_is_started(streams: Seq<Stream>, cursor_mode: u32, i: int)
    requires
        0 <= i < streams.len(),
        !streams[i].was_started,
    ensures
        exists|k: int|
            0 <= k < start_requests(streams, cursor_mode).len() && {
                let r = #[trigger] start_requests(streams, cursor_mode)[k];
                &&& r matches ScreenCastToCompositor::StartCast {
                    session_id,
                    target,
                    stream_id,
                    cursor_mode: mode,
                }
                &&& session_id == streams[i].session_id
                &&& stream_id == streams[i].id
                &&& mode == cursor_mode
                &&& streams[i].target matches StreamTarget::Output(o) ==> target
                    == (CastTarget::Output { name: o.name })
                &&& streams[i].target matches StreamTarget::Window { id } ==> target
                    == (CastTarget::Window { id })
            },
        all_started(streams)[i].was_started,
        all_started(streams)[i].id == streams[i].id,
        start_requests(streams, cursor_mode).len() <= streams.len(),
    decreases streams.len(),
{
    let head = streams.drop_last();
    let a = start_requests(head, cursor_mode);
    let b = start_requests(streams, cursor_mode);
    lemma_fewer_requests(head, cursor_mode);
    if i < head.len() {
        assert(head[i] == streams[i]);
        law_each_stream_is_started(head, cursor_mode, i);
        let k = choose|k: int|
            0 <= k < a.len() && {
                let r = #[trigger] a[k];
                &&& r matches ScreenCastToCompositor::StartCast {
                    session_id,
                    target,
                    stream_id,
                    cursor_mode: mode,
                }
                &&& session_id == head[i].session_id
                &&& stream_id == head[i].id
                &&& mode == cursor_mode
                &&& head[i].target matches StreamTarget::Output(o) ==> target
                    == (CastTarget::Output { name: o.name })
                &&& head[i].target matches StreamTarget::Window { id } ==> target
                    == (CastTarget::Window { id })
            };
        assert(b[k] == a[k]);
    } else {
        assert(b[a.len() as int] == streams[i].start_request(cursor_mode));
    }
}

proof fn lemma_fewer_requests(streams: Seq<Stream>, cursor_mode: u32)
    ensures
        start_requests(streams, cursor_mode).len() <= streams.len(),
    decreases streams.len(),
{
    if streams.len() > 0 {
        lemma_fewer_requests(streams.drop_last(), cursor_mode);
    }
}

/// Numbers of streams and sessions follow each other, and start over after the last.
pub proof fn law_numbers_follow(n: u64)
    ensures
        n < u64::MAX ==> number_after(n) == n + 1,
        number_after(n) != n,
{
}

/// The session bus shows of an output its mode, size for size, and its place; the first output is
/// the primary one.
pub proof fn law_session_bus_monitors(
    mode: Mode,
    logical: LogicalMonitor,
    o: BusOutputInfo,
    idx: int,
)
    requires
        is_mode_of(mode, o),
        is_logical_of(logical, o, idx),
    ensures
        mode.width == o.width && mode.height == o.height && mode.refresh == o.refresh,
        mode.is_current && mode.is_preferred,
        logical.x == o.x && logical.y == o.y,
        logical.is_primary <==> idx == 0,
        logical.monitors@.len() == 1,
        logical.monitors@[0].connector == o.name,
{
}

/// Disconnecting controllers one after the other leaves none of them in use, and the others as they
/// were.
pub proof fn law_all_are_disconnected(
    b0: DrmBackendState,
    e0: Ewm,
    b1: DrmBackendState,
    e1: Ewm,
    crtcs: Seq<u64>,
    crtc: u64,
)
    requires
        b0.initialized,
        all_disconnected(b0, e0, b1, e1, crtcs),
    ensures
        b1.initialized,
        b1.surfaces@.contains_key(crtc) <==> b0.surfaces@.contains_key(crtc) && !crtcs.contains(
            crtc,
        ),
        e1.monitors_active == e0.monitors_active,
    decreases crtcs.len(),
{
    if crtcs.len() > 0 {
        let head = crtcs.drop_last();
        let (b, e) = choose|b: DrmBackendState, e: Ewm|
            all_disconnected(b0, e0, b, e, head) && #[trigger] disconnected(
                b,
                e,
                b1,
                e1,
                crtcs.last(),
            );
        law_all_are_disconnected(b0, e0, b, e, head, crtc);
        assert(crtcs[crtcs.len() - 1] == crtcs.last());
        if head.contains(crtc) {
            let k = choose|k: int| 0 <= k < head.len() && head[k] == crtc;
            assert(crtcs[k] == crtc);
        }
        if crtcs.contains(crtc) && crtc != crtcs.last() {
            let k = choose|k: int| 0 <= k < crtcs.len() && crtcs[k] == crtc;
            assert(head[k] == crtc);
        }
    }
}

/// Closing the lid beside another monitor puts the built-in panels, and only them, out of use; the
/// displays stay on.
pub proof fn law_lid_closed_beside_a_monitor(
    b0: DrmBackendState,
    e0: Ewm,
    b1: DrmBackendState,
    e1: Ewm,
    i: int,
    crtc: u64,
)
    requires
        b0.wf(),
        b0.initialized,
        lid_closed_handled(b0, e0, b1, e1),
        0 <= i < e0.outputs@.len(),
        !built_in(e0.outputs@[i].name@),
        b0.surfaces@.contains_key(crtc),
    ensures
        e1.monitors_active == e0.monitors_active,
        b1.surfaces@.contains_key(crtc) <==> !built_in(b0.surfaces@[crtc]@),
{
    assert(external_monitor(e0.outputs@));
    let d = choose|d: Ewm|
        {
            &&& #[trigger] panels_disconnected(b0, e0, b1, d)
            &&& e1 == (Ewm {
                monitors_active: d.monitors_active && external_monitor(e0.outputs@),
                idle_timeout: e1.idle_timeout,
                output_heads_changed: true,
                effects: e1.effects,
                ..d
            })
        };
    let panels = panel_crtcs(b0.surfaces.entries@);
    law_all_are_disconnected(b0, e0, b1, d, panels, crtc);
    law_panels_are_found(b0.surfaces.entries@, crtc);
    let p = b0.surfaces.position(crtc);
    assert(b0.surfaces.has(crtc));
    b0.surfaces.lemma_entry(p);
    assert(b0.surfaces.entries@[p].0 == crtc);
    if panels.contains(crtc) {
        let q = choose|q: int|
            0 <= q < b0.surfaces.entries@.len() && (#[trigger] b0.surfaces.entries@[q]).0 == crtc
                && built_in(b0.surfaces.entries@[q].1@);
        b0.surfaces.lemma_entry(q);
    }
}

/// Outputs are listed by their names, and in their own order where the names are the same.
pub proof fn law_outputs_are_listed_by_name(
    outputs: Seq<BusOutputInfo>,
    order: Seq<usize>,
    n: nat,
    k: int,
    l: int,
)
    requires
        is_listing(outputs, order, n),
        0 <= k < l < order.len(),
    ensures
        !sorts_before(outputs[order[l] as int].name@, outputs[order[k] as int].name@),
        outputs[order[k] as int].name@ == outputs[order[l] as int].name@ ==> order[k] < order[l],
{
    let a = outputs[order[k] as int].name@;
    let b = outputs[order[l] as int].name@;
    crate::text::lemma_order_total(a, b);
}

/// A mode is named by its width, its height and its rate in hertz with three digits behind the
/// point.
pub proof fn law_mode_names(o: BusOutputInfo)
    requires
        o.width >= 0,
        o.height >= 0,
        o.refresh % 1000 >= 100,
    ensures
        mode_id(o) == decimal(o.width as nat) + seq!['x'] + decimal(o.height as nat) + seq!['@']
            + decimal((o.refresh / 1000) as nat) + seq!['.'] + decimal((o.refresh % 1000) as nat),
{
    assert(mode_id(o) =~= decimal(o.width as nat) + seq!['x'] + decimal(o.height as nat) + seq![
        '@',
    ] + decimal((o.refresh / 1000) as nat) + seq!['.'] + decimal((o.refresh % 1000) as nat));
}

} // verus!
