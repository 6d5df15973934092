//! Redraws, the session lock and idleness.
use crate::backend::RenderResult;
use crate::effect::{Effect, FocusTarget, TimerKind};
use crate::event::Event;
use crate::ewm::idle::{idle_due, waits_on, went_idle, woken};
use crate::ewm::lock::{
    all_redrawn, frame_noted, lock_aborted, lock_begun, lock_checked, lock_refused, lock_released,
    lock_settled, redraw_done,
};
use crate::ewm::{Ewm, IdleAction, IdleTimeoutState, LockState};
use crate::frame_clock::FrameClock;
use crate::outputs::{
    all_frames_unlocked, all_requested, all_unlocked, covered, first_due, one_requested,
};
use crate::redraw::{LockRenderState, OutputState, RedrawState};
use crate::time::Duration;
use vstd::prelude::*;

verus! {

/// A request starts nothing and ends no waiting: an output that waits for the display, or for a
/// timer, goes on waiting for the same, and one that rests is queued.
pub proof fn law_request_ends_no_waiting(s: RedrawState, token: u64)
    ensures
        s is WaitingForVBlank <==> s.requested() is WaitingForVBlank,
        s is WaitingForVBlank ==> s.requested()->redraw_needed,
        s is Idle || s is Queued <==> s.requested() is Queued,
        s == RedrawState::WaitingForEstimatedVBlank(token) || s
            == RedrawState::WaitingForEstimatedVBlankAndQueued(token) <==> s.requested()
            == RedrawState::WaitingForEstimatedVBlankAndQueued(token),
{
}

/// A redraw starts only for an output that is queued and does not wait for the display.
pub proof fn law_due_outputs_are_queued(s: RedrawState)
    ensures
        s.is_due() ==> !(s is Idle) && !(s is WaitingForVBlank) && !(s is WaitingForEstimatedVBlank),
        s is Queued || s is WaitingForEstimatedVBlankAndQueued ==> s.is_due(),
        !s.is_due() && !(s is WaitingForVBlank) ==> s.requested().is_due(),
{
}

/// A frame that is skipped uses up the request, keeps a running timer and leaves nothing to wait
/// for otherwise. A timer that fires leaves the request that was made while it ran.
pub proof fn law_skips_and_timers(s: RedrawState, token: u64)
    ensures
        !s.after_skip().is_due(),
        s.timer() == Some(token) <==> s.after_skip() == RedrawState::WaitingForEstimatedVBlank(
            token,
        ),
        s.timer() is None <==> s.after_skip() is Idle,
        s.timer() == Some(token) <==> s == RedrawState::WaitingForEstimatedVBlank(token) || s
            == RedrawState::WaitingForEstimatedVBlankAndQueued(token),
        s is WaitingForEstimatedVBlankAndQueued <==> s.after_timer() is Queued,
        !(s is WaitingForEstimatedVBlankAndQueued) <==> s.after_timer() is Idle,
        s.redraw_after_vblank() <==> s != (RedrawState::WaitingForVBlank { redraw_needed: false }),
{
}

/// Asking for redraws changes redraw states alone: that of the named output, or of all, and each
/// output keeps its name and its place.
pub proof fn law_requests_reach_their_outputs(
    s: Seq<(String, OutputState)>,
    name: Seq<char>,
    i: int,
)
    requires
        0 <= i < s.len(),
    ensures
        all_requested(s).len() == s.len(),
        all_requested(s)[i].0 == s[i].0,
        all_requested(s)[i].1 == (OutputState { redraw_state: s[i].1.redraw_state.requested(), ..s[i].1 }),
        one_requested(s, name).len() == s.len(),
        one_requested(s, name)[i].0 == s[i].0,
        s[i].0@ == name ==> one_requested(s, name)[i].1 == (OutputState {
            redraw_state: s[i].1.redraw_state.requested(),
            ..s[i].1
        }),
        s[i].0@ != name ==> one_requested(s, name)[i] == s[i],
{
}

/// The next output to be drawn is the first that is due, among those of the name where one is
/// asked for.
pub proof fn law_first_due_output(
    s: Seq<(String, OutputState)>,
    only: Option<Seq<char>>,
    i: int,
    j: int,
)
    requires
        first_due(s, only, i),
        0 <= j < s.len(),
        s[j].1.redraw_state.is_due(),
        only is Some ==> s[j].0@ == only->0,
    ensures
        0 <= i <= j,
        s[i].1.redraw_state.is_due(),
        only is Some ==> s[i].0@ == only->0,
{
}

/// Asking for redraws everywhere reaches every output and touches nothing else.
pub proof fn law_all_outputs_are_redrawn(before: Ewm, after: Ewm, i: int)
    requires
        all_redrawn(before, after),
        0 <= i < before.output_state.entries@.len(),
    ensures
        after.output_state.entries@[i].0 == before.output_state.entries@[i].0,
        after.output_state.entries@[i].1.redraw_state.is_pending(),
        after.output_state.entries@[i].1.lock_surface
            == before.output_state.entries@[i].1.lock_surface,
        after.output_state.entries@[i].1.lock_render_state
            == before.output_state.entries@[i].1.lock_render_state,
        after.windows == before.windows,
        after.effects == before.effects,
        after.lock_state == before.lock_state,
{
    crate::redraw::law_request_is_idempotent(before.output_state.entries@[i].1.redraw_state);
}

/// The frame clock predicts the first point after `now` that is a whole number of intervals after
/// the last presentation.
pub proof fn law_prediction_is_on_the_grid(clock: FrameClock, now: nat)
    requires
        clock.wf(),
        clock.interval() is Some,
        clock.last() is Some,
        now > clock.last()->0,
    ensures
        ({
            let i = clock.interval()->0 as int;
            let last = clock.last()->0 as int;
            let p = clock.predicted(now) as int;
            now < p <= now + i && (p - last) % i == 0
        }),
{
    let i = clock.interval()->0 as int;
    let last = clock.last()->0 as int;
    let d = now - last;
    let q = d / i;
    assert(d == q * i + d % i && 0 <= d % i < i) by {
        vstd::arithmetic::div_mod::lemma_fundamental_div_mod(d, i);
        vstd::arithmetic::mul::lemma_mul_is_commutative(q, i);
        vstd::arithmetic::div_mod::lemma_mod_bound(d, i);
    }
    assert((q + 1) * i == q * i + i) by (nonlinear_arith);
    assert(q >= 0) by {
        vstd::arithmetic::div_mod::lemma_div_pos_is_pos(d, i);
    }
    assert(q * i >= 0) by (nonlinear_arith)
        requires
            q >= 0,
            i > 0,
    ;
    assert(((q + 1) * i) % i == 0) by {
        vstd::arithmetic::div_mod::lemma_mod_multiples_basic(q + 1, i);
    }
}

/// A lock is asked for in vain exactly while another is under way, or holds and its client lives.
pub proof fn law_locks_exclude_each_other(s: LockState, alive: bool)
    ensures
        lock_refused(s, alive) <==> s is Locking || (s is Locked && alive),
{
}

/// A lock that begins remembers the focused surface, if there is one. Without an output it holds
/// at once and is confirmed; else it waits, and every output has to draw a locked frame anew,
/// on the lock surface that it has.
pub proof fn law_lock_begins(before: Ewm, after: Ewm, lock: u64, i: int)
    requires
        lock_begun(before, after, lock),
    ensures
        before.focused_surface_id != 0 ==> after.pre_lock_focus == Some(before.focused_surface_id),
        before.focused_surface_id == 0 ==> after.pre_lock_focus == before.pre_lock_focus,
        after.focused_surface_id == before.focused_surface_id,
        before.output_state.entries@.len() == 0 ==> after.lock_state == LockState::Locked(lock)
            && after.effects@ == before.effects@.push(Effect::ConfirmLock { lock }),
        before.output_state.entries@.len() > 0 ==> after.lock_state == LockState::Locking(lock)
            && after.effects == before.effects,
        after.output_state.entries@.len() == before.output_state.entries@.len(),
        0 <= i < before.output_state.entries@.len() ==> {
            let a = after.output_state.entries@[i];
            let b = before.output_state.entries@[i];
            &&& a.0 == b.0
            &&& a.1.lock_render_state == LockRenderState::Unlocked
            &&& a.1.lock_surface == b.1.lock_surface
            &&& a.1.redraw_state.is_pending()
        },
{
    if 0 <= i < before.output_state.entries@.len() {
        crate::redraw::law_request_is_idempotent(before.output_state.entries@[i].1.redraw_state);
    }
}

/// A lock under way holds, and is confirmed, exactly when every output shows a locked frame.
/// Nothing else changes, and no other state of the lock does.
pub proof fn law_lock_holds_once_all_is_covered(before: Ewm, after: Ewm, lock: u64)
    requires
        lock_checked(before, after),
    ensures
        !(before.lock_state is Locking) ==> after == before,
        before.lock_state == LockState::Locking(lock) && (forall|i: int|
            0 <= i < before.output_state.entries@.len() ==> (
            #[trigger] before.output_state.entries@[i]).1.lock_render_state
                == LockRenderState::Locked) ==> after.lock_state == LockState::Locked(lock)
            && after.effects@ == before.effects@.push(Effect::ConfirmLock { lock }),
        before.lock_state == LockState::Locking(lock) && (exists|i: int|
            0 <= i < before.output_state.entries@.len() && (
            #[trigger] before.output_state.entries@[i]).1.lock_render_state
                != LockRenderState::Locked) ==> after == before,
        after.output_state == before.output_state,
        after.pre_lock_focus == before.pre_lock_focus,
{
}

/// A lock that is given up is refused to its client, and no output keeps anything of it. A lock
/// that holds is not given up.
pub proof fn law_lock_is_given_up(before: Ewm, after: Ewm, lock: u64, i: int)
    requires
        lock_aborted(before, after),
    ensures
        !(before.lock_state is Locking) ==> after == before,
        before.lock_state == LockState::Locking(lock) ==> {
            &&& after.lock_state is Unlocked
            &&& after.effects@ == before.effects@.push(Effect::RefuseLock { lock })
            &&& 0 <= i < before.output_state.entries@.len() ==> {
                let a = after.output_state.entries@[i];
                &&& a.0 == before.output_state.entries@[i].0
                &&& a.1.lock_surface is None
                &&& a.1.lock_render_state == LockRenderState::Unlocked
                &&& a.1.redraw_state.is_pending()
            }
        },
{
    if 0 <= i < before.output_state.entries@.len() {
        crate::redraw::law_request_is_idempotent(before.output_state.entries@[i].1.redraw_state);
    }
}

/// An unlocked session keeps nothing of the lock on any output, and the focus goes back to the
/// window that had it, if it is still there; else it stays.
pub proof fn law_unlocked_session_forgets_the_lock(before: Ewm, after: Ewm, i: int)
    requires
        lock_released(before, after),
    ensures
        after.lock_state is Unlocked,
        after.pre_lock_focus is None,
        after.keyboard_focus == FocusTarget::Nobody,
        before.pre_lock_focus is Some && before.windows@.contains_key(before.pre_lock_focus->0)
            ==> after.focused_surface_id == before.pre_lock_focus->0 && after.keyboard_focus_dirty,
        before.pre_lock_focus is None || !before.windows@.contains_key(before.pre_lock_focus->0)
            ==> after.focused_surface_id == before.focused_surface_id,
        after.effects == before.effects || after.effects@ == before.effects@,
        after.windows == before.windows,
        0 <= i < before.output_state.entries@.len() ==> {
            let a = after.output_state.entries@[i];
            let b = before.output_state.entries@[i];
            &&& a.0 == b.0
            &&& a.1.lock_surface is None
            &&& a.1.lock_render_state == LockRenderState::Unlocked
            &&& a.1.redraw_state == b.1.redraw_state
        },
{
}

/// A frame that was drawn counts as a locked one exactly if the session was being locked or was
/// locked, on its own output alone; a frame that was skipped counts for nothing and uses up the
/// request. Clients of the output are told in any case.
pub proof fn law_frames_count_for_their_output(
    before: Ewm,
    after: Ewm,
    name: String,
    res: RenderResult,
)
    requires
        before.wf(),
        after.wf(),
        redraw_done(before, after, name, res),
        before.output_state@.contains_key(name@),
    ensures
        after.effects@.len() > before.effects@.len(),
        after.effects@.last() == (Effect::FrameCallbacks { output: name }),
        after.output_state@.contains_key(name@),
        res != RenderResult::Skipped ==> {
            &&& before.lock_state is Unlocked ==> after.output_state@[name@].lock_render_state
                == LockRenderState::Unlocked
            &&& !(before.lock_state is Unlocked) ==> after.output_state@[name@].lock_render_state
                == LockRenderState::Locked
            &&& after.output_state@[name@].redraw_state
                == before.output_state@[name@].redraw_state
        },
        res == RenderResult::Skipped && !(before.lock_state is Locking) ==> {
            &&& after.output_state@[name@].lock_render_state
                == before.output_state@[name@].lock_render_state
            &&& !after.output_state@[name@].redraw_state.is_due()
        },
        before.lock_state is Unlocked ==> after.lock_state is Unlocked,
{
    let (mid, settled) = choose|mid: Ewm, settled: Ewm|
        {
            &&& #[trigger] frame_noted(before, mid, name@, res)
            &&& #[trigger] lock_settled(mid, settled, res)
            &&& after == (Ewm { effects: after.effects, ..settled })
            &&& after.effects@ == settled.effects@.push(Effect::FrameCallbacks { output: name })
        };
    let p = before.output_state.position(name@);
    before.output_state.lemma_entry(p);
    assert(mid.output_state.entries@[p].0@ == name@);
    assert(after.output_state.entries@[p].0 == before.output_state.entries@[p].0);
    after.output_state.lemma_entry(p);
    law_skips_and_timers(before.output_state@[name@].redraw_state, 0);
    assert(after.output_state.entries@[p].1 == after.output_state@[name@]);
}

/// The session is due to go idle exactly if there is a timeout and the last activity is as long
/// ago as that.
pub proof fn law_idle_after_the_timeout(idle: IdleTimeoutState, now: Duration)
    ensures
        idle.timeout is None ==> !idle_due(idle, now),
        idle.timeout is Some && now@ >= idle.last_activity@ + idle.timeout->0@ ==> idle_due(
            idle,
            now,
        ),
        idle.timeout is Some && idle.timeout->0@ > 0 && now@ < idle.last_activity@
            + idle.timeout->0@ ==> !idle_due(idle, now),
{
}

/// A session that goes idle does what was configured, once, tells Emacs, and waits for no timer.
pub proof fn law_going_idle(before: Ewm, after: Ewm, command: String)
    requires
        went_idle(before, after),
    ensures
        after.idle_timeout.is_idle,
        after.idle_timeout.timer_token is None,
        after.idle_timeout.timeout == before.idle_timeout.timeout,
        after.idle_timeout.action == before.idle_timeout.action,
        before.idle_timeout.action is DeactivateMonitors ==> !after.monitors_active
            && after.effects@ =~= before.effects@.push(
            Effect::Event(Event::IdleStateChanged { idle: true }),
        ),
        before.idle_timeout.action == IdleAction::RunCommand(command) ==> after.monitors_active
            == before.monitors_active && after.effects@ =~= before.effects@.push(
            Effect::SpawnIdleCommand { command },
        ).push(Effect::Event(Event::IdleStateChanged { idle: true })),
        after.windows == before.windows,
        after.lock_state == before.lock_state,
{
}

/// A session that wakes has its displays on, its idle command ended and its timer running anew for
/// the whole timeout; Emacs is told, and the time counts as activity.
pub proof fn law_waking(before: Ewm, after: Ewm, now: Duration, i: int)
    requires
        woken(before, after, now),
    ensures
        !after.idle_timeout.is_idle,
        !after.idle_timeout.child_running,
        after.monitors_active,
        after.idle_timeout.last_activity == now,
        after.idle_timeout.timeout == before.idle_timeout.timeout,
        after.effects@.last() == Effect::Event(Event::IdleStateChanged { idle: false }),
        before.idle_timeout.child_running ==> after.effects@[before.effects@.len() as int]
            == Effect::KillIdleCommand,
        before.idle_timeout.timeout is Some ==> {
            &&& after.idle_timeout.timer_token is Some
            &&& after.effects@[after.effects@.len() - 2] == (Effect::StartTimer {
                token: after.idle_timeout.timer_token->0,
                after: before.idle_timeout.timeout->0,
                kind: TimerKind::Idle,
            })
            &&& after.next_timer != after.idle_timeout.timer_token->0
        },
        before.idle_timeout.timeout is None ==> after.idle_timeout.timer_token is None,
        after.effects@.len() == before.effects@.len() + 1 + (if before.idle_timeout.child_running {
            1int
        } else {
            0
        }) + (if before.idle_timeout.timeout is Some {
            1int
        } else {
            0
        }),
        !before.monitors_active && 0 <= i < before.output_state.entries@.len()
            ==> after.output_state.entries@[i].1.redraw_state.is_pending(),
{
    if 0 <= i < before.output_state.entries@.len() {
        crate::redraw::law_request_is_idempotent(before.output_state.entries@[i].1.redraw_state);
    }
}

/// A timer that fires too early is followed by one for exactly the time that is left.
pub proof fn law_early_timer_waits_for_the_rest(before: Ewm, after: Ewm, now: Duration)
    requires
        before.idle_timeout.timeout is Some,
        before.idle_timeout.last_activity@ <= now@,
        now@ - before.idle_timeout.last_activity@ < before.idle_timeout.timeout->0@,
        waits_on(before, after, now),
    ensures
        after.effects@.len() == before.effects@.len() + 1,
        ({
            let x = after.effects@.last();
            &&& x matches Effect::StartTimer { token, after: rest, kind }
            &&& kind is Idle
            &&& after.idle_timeout.timer_token == Some(token)
            &&& now@ + rest@ == before.idle_timeout.last_activity@
                + before.idle_timeout.timeout->0@
        }),
        after.idle_timeout.is_idle == before.idle_timeout.is_idle,
        after.idle_timeout.last_activity == before.idle_timeout.last_activity,
        after.monitors_active == before.monitors_active,
{
}

/// The extent of all outputs reaches exactly as far as the output that reaches furthest, and no
/// less than the origin.
pub proof fn law_extent_is_the_furthest_edge(
    s: Seq<(String, crate::layout::MappedOutput)>,
    n: int,
)
    requires
        0 <= n <= s.len(),
    ensures
        covered(s, n).0 >= 0 && covered(s, n).1 >= 0,
        forall|i: int|
            0 <= i < n ==> (#[trigger] s[i]).1.geo.loc.x + s[i].1.geo.size.w <= covered(s, n).0
                && s[i].1.geo.loc.y + s[i].1.geo.size.h <= covered(s, n).1,
        covered(s, n).0 == 0 || exists|i: int|
            0 <= i < n && (#[trigger] s[i]).1.geo.loc.x + s[i].1.geo.size.w == covered(s, n).0,
        covered(s, n).1 == 0 || exists|i: int|
            0 <= i < n && (#[trigger] s[i]).1.geo.loc.y + s[i].1.geo.size.h == covered(s, n).1,
    decreases n,
{
    if n > 0 {
        law_extent_is_the_furthest_edge(s, n - 1);
        assert(s[n - 1] == s[n - 1]);
    }
}

/// Forgetting locked frames keeps the lock surfaces; forgetting the lock does not. Neither touches
/// anything else.
pub proof fn law_forgetting_the_lock(s: Seq<(String, OutputState)>, i: int)
    requires
        0 <= i < s.len(),
    ensures
        all_frames_unlocked(s)[i].0 == s[i].0,
        all_frames_unlocked(s)[i].1 == (OutputState {
            lock_render_state: LockRenderState::Unlocked,
            ..s[i].1
        }),
        all_unlocked(s)[i].0 == s[i].0,
        all_unlocked(s)[i].1.lock_surface is None,
        all_unlocked(s)[i].1.lock_render_state == LockRenderState::Unlocked,
        all_unlocked(s)[i].1.redraw_state == s[i].1.redraw_state,
        all_unlocked(s)[i].1.frame_clock == s[i].1.frame_clock,
{
}

/// A request is open while an output is queued, or is to be drawn again once the display answers.
pub proof fn law_open_requests(s: RedrawState)
    ensures
        s.is_pending() <==> s is Queued || s is WaitingForEstimatedVBlankAndQueued || s == (
        RedrawState::WaitingForVBlank { redraw_needed: true }),
{
}

/// A clock whose last frame was shown ahead of its time counts from one interval later: the
/// prediction lies within an interval after that, on the grid. One that is further ahead than an
/// interval predicts the second refresh after its last.
pub proof fn law_early_frames(clock: FrameClock, now: nat)
    requires
        clock.wf(),
        clock.interval() is Some,
        clock.last() is Some,
        now <= clock.last()->0,
    ensures
        ({
            let i = clock.interval()->0 as int;
            let last = clock.last()->0 as int;
            let p = clock.predicted(now) as int;
            &&& now + i >= last ==> now + i < p <= now + 2 * i && (p - last) % i == 0
            &&& now + i < last ==> p == last + 2 * i
        }),
{
    let i = clock.interval()->0 as int;
    let last = clock.last()->0 as int;
    if now + i >= last {
        crate::frame_clock::law_prediction_follows_now(last, i, now + i);
    } else {
        assert(i / i == 1) by {
            vstd::arithmetic::div_mod::lemma_div_by_self(i);
        }
    }
}

/// Without an interval or a frame the clock predicts the present.
pub proof fn law_unknown_clocks(clock: FrameClock, now: nat)
    requires
        clock.interval() is None || clock.last() is None,
    ensures
        clock.predicted(now) == now,
{
}

/// A timer that stands in for the display runs until the frame would have been shown; for one that
/// is late already it runs for a refresh, or for a sixtieth of a second where that is not known.
pub proof fn law_stand_in_timers(st: OutputState, target: nat, now: nat)
    ensures
        target > now ==> now + st.estimated_delay(target, now) == target,
        target <= now && st.frame_clock.interval() is Some ==> st.estimated_delay(target, now)
            == st.frame_clock.interval()->0,
        target <= now && st.frame_clock.interval() is None ==> st.estimated_delay(target, now)
            == 16_667_000,
{
}

} // verus!
