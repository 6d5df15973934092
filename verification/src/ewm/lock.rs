//! Locking the session, and what rendering an output means for the lock.
use super::focus::focus_synced;
use super::idle::woken;
use super::{focus_set, Ewm, IdleTimeoutState, LockState};
use crate::backend::RenderResult;
use crate::effect::{Effect, FocusTarget};
use crate::outputs::{
    all_frames_unlocked, all_locked, all_requested, all_unlocked, check_all_locked, forget_lock,
    one_requested, one_set, put_state,
};
use crate::redraw::{LockRenderState, OutputState};
use crate::time::Duration;
use vstd::prelude::*;

verus! {

/// The state `after` is `before`, woken if it was idle.
pub open spec fn awake(before: Ewm, after: Ewm, now: Duration) -> bool {
    if before.idle_timeout.is_idle {
        woken(before, after, now)
    } else {
        after == before
    }
}

/// The state `after` is `before` with the input at `now` noted.
pub open spec fn activity_noted(before: Ewm, after: Ewm, now: Duration) -> bool {
    if before.idle_timeout.is_idle {
        woken(before, after, now)
    } else {
        after == (Ewm {
            idle_timeout: IdleTimeoutState { last_activity: now, ..before.idle_timeout },
            ..before
        })
    }
}

/// A lock request is refused while another lock holds or is under way. A lock whose client is
/// gone does not hold.
pub open spec fn lock_refused(s: LockState, holder_alive: bool) -> bool {
    match s {
        LockState::Unlocked => false,
        LockState::Locking(_) => true,
        LockState::Locked(_) => holder_alive,
    }
}

/// The state `after` is the awake state `before` with the lock begun: confirmed at once where
/// there is no output, else waiting for a locked frame on every output.
pub open spec fn lock_begun(before: Ewm, after: Ewm, lock: u64) -> bool {
    let saved = if before.focused_surface_id != 0 {
        Some(before.focused_surface_id)
    } else {
        before.pre_lock_focus
    };
    if before.output_state.entries@.len() == 0 {
        &&& after == (Ewm {
            lock_state: LockState::Locked(lock),
            pre_lock_focus: saved,
            effects: after.effects,
            ..before
        })
        &&& after.effects@ == before.effects@.push(Effect::ConfirmLock { lock })
    } else {
        &&& after == (Ewm {
            lock_state: LockState::Locking(lock),
            pre_lock_focus: saved,
            output_state: after.output_state,
            ..before
        })
        &&& after.output_state.entries@ == all_requested(
            all_frames_unlocked(before.output_state.entries@),
        )
    }
}

/// The state `after` is `before` with the lock, its surfaces and the keyboard focus forgotten.
pub open spec fn lock_cleared(before: Ewm, after: Ewm) -> bool {
    &&& after == (Ewm {
        lock_state: LockState::Unlocked,
        output_state: after.output_state,
        keyboard_focus: FocusTarget::Nobody,
        pre_lock_focus: None,
        ..before
    })
    &&& after.output_state.entries@ == all_unlocked(before.output_state.entries@)
}

/// The state `after` is `before` with the focus given back to the surface `saved`, if it is
/// still there.
pub open spec fn focus_restored(before: Ewm, after: Ewm, saved: Option<u64>) -> bool {
    if saved is Some && before.windows@.contains_key(saved->0) {
        focus_set(before, after, saved->0, false, "unlock"@, None)
    } else {
        after == before
    }
}

/// The state `after` is `before` with the lock released and the focus given back to the surface
/// that had it.
pub open spec fn lock_released(before: Ewm, after: Ewm) -> bool {
    exists|mid: Ewm| #[trigger]
        lock_cleared(before, mid) && focus_restored(mid, after, before.pre_lock_focus)
}

/// The state `after` is `before` with redraws requested everywhere.
pub open spec fn all_redrawn(before: Ewm, after: Ewm) -> bool {
    &&& after == (Ewm { output_state: after.output_state, ..before })
    &&& after.output_state.entries@ == all_requested(before.output_state.entries@)
}

/// The state `after` is `before` with the lock confirmed, if every output shows a locked frame.
pub open spec fn lock_checked(before: Ewm, after: Ewm) -> bool {
    match before.lock_state {
        LockState::Locking(lock) => if all_locked(before.output_state.entries@) {
            &&& after == (Ewm {
                lock_state: LockState::Locked(lock),
                effects: after.effects,
                ..before
            })
            &&& after.effects@ == before.effects@.push(Effect::ConfirmLock { lock })
        } else {
            after == before
        },
        _ => after == before,
    }
}

/// The state `after` is `before` with a lock that is under way given up.
pub open spec fn lock_aborted(before: Ewm, after: Ewm) -> bool {
    match before.lock_state {
        LockState::Locking(lock) => {
            &&& after == (Ewm {
                lock_state: LockState::Unlocked,
                output_state: after.output_state,
                effects: after.effects,
                ..before
            })
            &&& after.output_state.entries@ == all_requested(
                all_unlocked(before.output_state.entries@),
            )
            &&& after.effects@ == before.effects@.push(Effect::RefuseLock { lock })
        },
        _ => after == before,
    }
}

/// An output's state once it was rendered, or rendering was skipped.
pub open spec fn rendered(s: OutputState, res: RenderResult, locked: bool) -> OutputState {
    OutputState {
        redraw_state: if res == RenderResult::Skipped {
            s.redraw_state.after_skip()
        } else {
            s.redraw_state
        },
        lock_render_state: if res == RenderResult::Skipped {
            s.lock_render_state
        } else if locked {
            LockRenderState::Locked
        } else {
            LockRenderState::Unlocked
        },
        unfinished_animations_remain: false,
        ..s
    }
}

/// The state `after` is `before` with the outcome of rendering noted for the output.
pub open spec fn frame_noted(before: Ewm, after: Ewm, name: Seq<char>, res: RenderResult) -> bool {
    &&& after == (Ewm { output_state: after.output_state, ..before })
    &&& after.output_state.entries@ == if before.output_state@.contains_key(name) {
        one_set(
            before.output_state.entries@,
            name,
            rendered(before.output_state@[name], res, !(before.lock_state is Unlocked)),
        )
    } else {
        before.output_state.entries@
    }
}

/// The state `after` is `before` with the lock confirmed where that is due, or given up where
/// rendering was skipped.
pub open spec fn lock_settled(before: Ewm, after: Ewm, res: RenderResult) -> bool {
    if res == RenderResult::Skipped {
        lock_aborted(before, after)
    } else {
        lock_checked(before, after)
    }
}

/// The state `after` follows `before` once the output `name` was rendered with the result `res`.
pub open spec fn redraw_done(before: Ewm, after: Ewm, name: String, res: RenderResult) -> bool {
    exists|mid: Ewm, settled: Ewm|
        {
            &&& #[trigger] frame_noted(before, mid, name@, res)
            &&& #[trigger] lock_settled(mid, settled, res)
            &&& after == (Ewm { effects: after.effects, ..settled })
            &&& after.effects@ == settled.effects@.push(Effect::FrameCallbacks { output: name })
        }
}

impl Ewm {
    /// A client asks for the session to be locked. `holder_alive` says whether the client of the
    /// present lock, if there is one, is still there.
    pub fn lock(&mut self, lock: u64, holder_alive: bool, now: Duration)
        requires
            old(self).wf(),
        ensures
            final(self).wf(),
            if lock_refused(old(self).lock_state, holder_alive) {
                &&& *final(self) == (Ewm { effects: final(self).effects, ..*old(self) })
                &&& final(self).effects@ == old(self).effects@.push(Effect::RefuseLock { lock })
            } else {
                exists|mid: Ewm| #[trigger]
                    awake(*old(self), mid, now) && lock_begun(mid, *final(self), lock)
            },
    {
        let refused = match self.lock_state {
            LockState::Unlocked => false,
            LockState::Locking(_) => true,
            LockState::Locked(_) => holder_alive,
        };
        if refused {
            self.emit(Effect::RefuseLock { lock });
            return ;
        }
        self.wake_from_idle(now);
        let ghost mid = *self;
        assert(awake(*old(self), mid, now));
        if self.focused_surface_id != 0 {
            self.pre_lock_focus = Some(self.focused_surface_id);
        }
        if self.output_state.entries.len() == 0 {
            self.emit(Effect::ConfirmLock { lock });
            self.lock_state = LockState::Locked(lock);
        } else {
            self.lock_state = LockState::Locking(lock);
            forget_lock(&mut self.output_state, true);
            self.queue_redraw_all();
        }
    }

    /// The client that holds the lock releases it.
    pub fn unlock(&mut self, now: Duration)
        requires
            old(self).wf(),
        ensures
            final(self).wf(),
            exists|a: Ewm, b: Ewm, c: Ewm| #[trigger]
                lock_released(*old(self), a) && #[trigger] focus_synced(a, b)
                    && #[trigger] all_redrawn(b, c) && activity_noted(c, *final(self), now),
    {
        let ghost before = *self;
        self.lock_state = LockState::Unlocked;
        forget_lock(&mut self.output_state, false);
        self.keyboard_focus = FocusTarget::Nobody;
        let saved = self.pre_lock_focus;
        self.pre_lock_focus = None;
        let ghost mid = *self;
        match saved {
            Some(id) => {
                if self.windows.contains(id) {
                    self.set_focus(id, false, "unlock", None);
                }
            },
            None => {},
        }
        let ghost a = *self;
        assert(lock_cleared(before, mid) && focus_restored(mid, a, saved));
        assert(lock_released(before, a));
        self.sync_keyboard_focus();
        let ghost b = *self;
        self.queue_redraw_all();
        assert(focus_synced(a, b) && all_redrawn(b, *self));
        self.reset_idle_timer(now);
    }

    /// A lock surface was made for an output. `known` says whether the output is known to
    /// clients at all.
    pub fn new_lock_surface(&mut self, surface: u64, output: &String, known: bool)
        requires
            old(self).wf(),
        ensures
            final(self).wf(),
            !known ==> *final(self) == *old(self),
            known ==> {
                &&& *final(self) == (Ewm {
                    output_state: final(self).output_state,
                    keyboard_focus_dirty: true,
                    effects: final(self).effects,
                    ..*old(self)
                })
                &&& final(self).effects@ == old(self).effects@.push(
                    Effect::ConfigureLockSurface { output: *output, surface },
                )
                &&& final(self).output_state.entries@ == if old(self).output_state@.contains_key(
                    output@,
                ) {
                    one_requested(
                        one_set(
                            old(self).output_state.entries@,
                            output@,
                            (OutputState {
                                lock_surface: Some(surface),
                                ..old(self).output_state@[output@]
                            }),
                        ),
                        output@,
                    )
                } else {
                    old(self).output_state.entries@
                }
            },
    {
        if !known {
            return ;
        }
        self.emit(Effect::ConfigureLockSurface { output: output.clone(), surface });
        let ghost before = *self;
        match self.output_state.find(output.as_str()) {
            Some(i) => {
                let mut st: OutputState = self.output_state.entries[i].1;
                st.lock_surface = Some(surface);
                put_state(&mut self.output_state, output.as_str(), st);
            },
            None => {},
        }
        self.keyboard_focus_dirty = true;
        self.queue_redraw(output.as_str());
        proof {
            if !before.output_state@.contains_key(output@) {
                lemma_no_request(before.output_state, output@);
            }
        }
    }

    /// Check if all outputs have rendered locked frames and confirm lock if so
    pub fn check_lock_complete(&mut self)
        requires
            old(self).wf(),
        ensures
            final(self).wf(),
            lock_checked(*old(self), *final(self)),
    {
        match self.lock_state {
            LockState::Locking(lock) => {
                if check_all_locked(&self.output_state) {
                    self.emit(Effect::ConfirmLock { lock });
                    self.lock_state = LockState::Locked(lock);
                }
            },
            _ => {},
        }
    }

    /// Check lock state after output removal.
    /// If in Locking state, the removed output no longer needs to render a locked frame.
    pub fn check_lock_on_output_removed(&mut self)
        requires
            old(self).wf(),
        ensures
            final(self).wf(),
            lock_checked(*old(self), *final(self)),
    {
        self.check_lock_complete();
    }

    /// Abort the lock if we failed to render during Locking state.
    /// This prevents the session from being stuck in an unlockable state.
    pub fn abort_lock_on_render_failure(&mut self)
        requires
            old(self).wf(),
        ensures
            final(self).wf(),
            lock_aborted(*old(self), *final(self)),
    {
        match self.lock_state {
            LockState::Locking(lock) => {
                self.emit(Effect::RefuseLock { lock });
                self.lock_state = LockState::Unlocked;
                forget_lock(&mut self.output_state, false);
                self.queue_redraw_all();
            },
            _ => {},
        }
    }

    /// The target presentation time of an output's next frame. `None` for an unknown output,
    /// which is not rendered.
    pub fn begin_redraw(&self, output: &str, now: Duration) -> (r: Option<Duration>)
        requires
            self.wf(),
            self.output_state@.contains_key(output@)
                ==> self.output_state@[output@].frame_clock.can_predict(now@),
        ensures
            match r {
                Some(t) => self.output_state@.contains_key(output@) && t@
                    == self.output_state@[output@].frame_clock.predicted(now@),
                None => !self.output_state@.contains_key(output@),
            },
    {
        match self.output_state.find(output) {
            Some(i) => {
                proof {
                    assert(self.output_state.entries@[i as int].1.wf());
                }
                Some(self.output_state.entries[i].1.frame_clock.next_presentation_time(now))
            },
            None => None,
        }
    }

    /// Handles the outcome of rendering an output: the redraw state where rendering was skipped,
    /// the lock, and the frame callbacks. Gives whether screen copies and casts follow.
    pub fn finish_redraw(&mut self, output: &String, res: RenderResult) -> (r: bool)
        requires
            old(self).wf(),
        ensures
            final(self).wf(),
            redraw_done(*old(self), *final(self), *output, res),
            r == (res != RenderResult::Skipped),
    {
        let ghost before = *self;
        let locked = self.is_locked();
        match self.output_state.find(output.as_str()) {
            Some(i) => {
                let mut st: OutputState = self.output_state.entries[i].1;
                assert(self.output_state.entries@[i as int].1.wf());
                if res == RenderResult::Skipped {
                    st.redraw_state = st.redraw_state.skipped();
                } else {
                    st.lock_render_state = if locked {
                        LockRenderState::Locked
                    } else {
                        LockRenderState::Unlocked
                    };
                }
                st.unfinished_animations_remain = false;
                put_state(&mut self.output_state, output.as_str(), st);
            },
            None => {},
        }
        let ghost mid = *self;
        let rendered = res != RenderResult::Skipped;
        if rendered {
            self.check_lock_complete();
        } else {
            self.abort_lock_on_render_failure();
        }
        assert(frame_noted(before, mid, output@, res) && lock_settled(mid, *self, res));
        self.emit(Effect::FrameCallbacks { output: output.clone() });
        rendered
    }
}

/// Requesting a redraw of an unknown output changes nothing.
proof fn lemma_no_request(s: crate::tables::NameMap<OutputState>, name: Seq<char>)
    requires
        s.wf(),
        !s@.contains_key(name),
    ensures
        one_requested(s.entries@, name) == s.entries@,
{
    assert forall|i: int| 0 <= i < s.entries@.len() implies (#[trigger] s.entries@[i]).0@
        != name by {
        s.lemma_entry(i);
    }
    assert(one_requested(s.entries@, name) =~= s.entries@);
}

/// A lock is confirmed only once every output shows a locked frame.
pub proof fn law_lock_waits_for_every_output(before: Ewm, after: Ewm)
    requires
        lock_checked(before, after),
        before.lock_state is Locking,
        after.lock_state is Locked,
    ensures
        forall|i: int|
            0 <= i < after.output_state.entries@.len() ==> (
            #[trigger] after.output_state.entries@[i]).1.lock_render_state
                == LockRenderState::Locked,
{
}

/// After a lock was asked for, no output counts as locked before it renders again.
pub proof fn law_lock_starts_unrendered(before: Ewm, after: Ewm, lock: u64)
    requires
        lock_begun(before, after, lock),
        before.output_state.entries@.len() > 0,
    ensures
        after.lock_state == LockState::Locking(lock),
        forall|i: int|
            0 <= i < after.output_state.entries@.len() ==> (
            #[trigger] after.output_state.entries@[i]).1.lock_render_state
                == LockRenderState::Unlocked && after.output_state.entries@[i].1.redraw_state.is_pending(),
{
    assert forall|i: int| 0 <= i < after.output_state.entries@.len() implies (
    #[trigger] after.output_state.entries@[i]).1.lock_render_state == LockRenderState::Unlocked
        && after.output_state.entries@[i].1.redraw_state.is_pending() by {
        crate::redraw::law_request_is_idempotent(before.output_state.entries@[i].1.redraw_state);
    }
}

/// A failed render never leaves the session half locked.
pub proof fn law_failed_render_ends_locking(before: Ewm, after: Ewm, name: String)
    requires
        redraw_done(before, after, name, RenderResult::Skipped),
    ensures
        !(after.lock_state is Locking),
        before.lock_state is Locked ==> after.lock_state == before.lock_state,
{
}

/// Unlocking gives the focus back to the surface that had it when the session was locked, if it
/// is still there.
pub proof fn law_unlock_restores_focus(a: Ewm, b: Ewm, c: Ewm, d: Ewm, lock: u64)
    requires
        a.focused_surface_id != 0,
        lock_begun(a, b, lock),
        c.pre_lock_focus == b.pre_lock_focus,
        c.windows@.contains_key(a.focused_surface_id),
        lock_released(c, d),
    ensures
        d.focused_surface_id == a.focused_surface_id,
        d.lock_state is Unlocked,
        d.pre_lock_focus is None,
{
}

} // verus!
