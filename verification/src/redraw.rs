//! Redraw state machine for proper VBlank synchronization.
//!
//! Each output goes `Idle` → `Queued` → `WaitingForVBlank` → `Idle` when a frame is shown, and
//! `Idle` → `Queued` → `WaitingForEstimatedVBlank` → `Idle` when nothing was damaged and a timer
//! stands in for the VBlank. Requests that arrive while waiting are kept.
use crate::frame_clock::FrameClock;
use crate::geometry::Size;
use crate::time::Duration;
use vstd::prelude::*;
use vstd::string::*;

verus! {

/// Redraw state of one output. Timers are known by the number that they were started under.
#[derive(Clone, Copy, Debug, PartialEq, Eq, Structural)]
pub enum RedrawState {
    /// No redraw pending, output is idle
    Idle,
    /// A redraw has been requested but not yet started
    Queued,
    /// Frame has been queued to the display, waiting for VBlank.
    /// `redraw_needed` tracks if another redraw was requested while waiting
    WaitingForVBlank { redraw_needed: bool },
    /// No damage, using estimated VBlank timer instead of real one
    WaitingForEstimatedVBlank(u64),
    /// Estimated VBlank timer active AND a new redraw was queued
    WaitingForEstimatedVBlankAndQueued(u64),
}

/// The result of rendering one output.
#[derive(Clone, Copy, Debug, PartialEq, Eq, Structural)]
pub enum RenderResult {
    /// Frame was rendered and submitted for presentation.
    Submitted,
    /// Rendering succeeded, but nothing had changed.
    NoDamage,
    /// Rendering was skipped.
    Skipped,
}

/// Per-output lock render state for tracking lock confirmation.
#[derive(Clone, Copy, Debug, PartialEq, Eq, Structural)]
pub enum LockRenderState {
    /// Output is showing normal content (or not yet rendered locked)
    Unlocked,
    /// Output has rendered a locked frame
    Locked,
}

impl Default for RedrawState {
    fn default() -> (r: Self)
        ensures
            r == RedrawState::Idle,
    {
        RedrawState::Idle
    }
}

impl Default for LockRenderState {
    fn default() -> (r: Self)
        ensures
            r == LockRenderState::Unlocked,
    {
        LockRenderState::Unlocked
    }
}

impl RedrawState {
    /// The state after a redraw was requested.
    pub open spec fn requested(self) -> RedrawState {
        match self {
            RedrawState::Idle => RedrawState::Queued,
            RedrawState::Queued => RedrawState::Queued,
            RedrawState::WaitingForVBlank { .. } => RedrawState::WaitingForVBlank {
                redraw_needed: true,
            },
            RedrawState::WaitingForEstimatedVBlank(
                token,
            ) => RedrawState::WaitingForEstimatedVBlankAndQueued(token),
            RedrawState::WaitingForEstimatedVBlankAndQueued(
                token,
            ) => RedrawState::WaitingForEstimatedVBlankAndQueued(token),
        }
    }

    /// A redraw can start now.
    pub open spec fn is_due(self) -> bool {
        self is Queued || self is WaitingForEstimatedVBlankAndQueued
    }

    /// A requested redraw has not started yet.
    pub open spec fn is_pending(self) -> bool {
        ||| self.is_due()
        ||| self == RedrawState::WaitingForVBlank { redraw_needed: true }
    }

    /// The running estimated VBlank timer.
    pub open spec fn timer(self) -> Option<u64> {
        match self {
            RedrawState::WaitingForEstimatedVBlank(token) => Some(token),
            RedrawState::WaitingForEstimatedVBlankAndQueued(token) => Some(token),
            _ => None,
        }
    }

    /// The state after rendering was skipped: a running timer is kept, otherwise idle.
    pub open spec fn after_skip(self) -> RedrawState {
        match self.timer() {
            Some(token) => RedrawState::WaitingForEstimatedVBlank(token),
            None => RedrawState::Idle,
        }
    }

    /// The state after the timer fired.
    pub open spec fn after_timer(self) -> RedrawState {
        if self is WaitingForEstimatedVBlankAndQueued {
            RedrawState::Queued
        } else {
            RedrawState::Idle
        }
    }

    /// A VBlank asks for another redraw: one was requested while waiting, or the VBlank was not
    /// expected at all.
    pub open spec fn redraw_after_vblank(self) -> bool {
        match self {
            RedrawState::WaitingForVBlank { redraw_needed } => redraw_needed,
            _ => true,
        }
    }

    /// Transition to request a redraw
    pub fn queue_redraw(self) -> (r: Self)
        ensures
            r == self.requested(),
    {
        match self {
            RedrawState::Idle => RedrawState::Queued,
            RedrawState::WaitingForVBlank { redraw_needed: _ } => RedrawState::WaitingForVBlank {
                redraw_needed: true,
            },
            RedrawState::WaitingForEstimatedVBlank(
                token,
            ) => RedrawState::WaitingForEstimatedVBlankAndQueued(token),
            other => other,
        }
    }

    pub fn needs_redraw(&self) -> (r: bool)
        ensures
            r == self.is_due(),
    {
        match self {
            RedrawState::Queued => true,
            RedrawState::WaitingForEstimatedVBlankAndQueued(_) => true,
            _ => false,
        }
    }

    pub fn timer_token(&self) -> (r: Option<u64>)
        ensures
            r == self.timer(),
    {
        match self {
            RedrawState::WaitingForEstimatedVBlank(token) => Some(*token),
            RedrawState::WaitingForEstimatedVBlankAndQueued(token) => Some(*token),
            _ => None,
        }
    }

    /// Rendering was skipped.
    pub fn skipped(self) -> (r: Self)
        ensures
            r == self.after_skip(),
    {
        match self {
            RedrawState::WaitingForEstimatedVBlank(
                token,
            ) => RedrawState::WaitingForEstimatedVBlank(token),
            RedrawState::WaitingForEstimatedVBlankAndQueued(
                token,
            ) => RedrawState::WaitingForEstimatedVBlank(token),
            _ => RedrawState::Idle,
        }
    }

    /// A state that waits for a VBlank that the display may never deliver goes back to the queue.
    pub fn recovered(self) -> (r: Self)
        ensures
            r == if self is WaitingForVBlank {
                RedrawState::Queued
            } else {
                self
            },
    {
        match self {
            RedrawState::WaitingForVBlank { redraw_needed: _ } => RedrawState::Queued,
            other => other,
        }
    }

    /// A short description for log lines.
    pub fn to_text(&self) -> (s: String)
        ensures
            s@ == match *self {
                RedrawState::Idle => "Idle"@,
                RedrawState::Queued => "Queued"@,
                RedrawState::WaitingForVBlank { redraw_needed } => if redraw_needed {
                    "WaitingForVBlank(redraw=true)"@
                } else {
                    "WaitingForVBlank(redraw=false)"@
                },
                RedrawState::WaitingForEstimatedVBlank(_) => "WaitingForEstVBlank"@,
                RedrawState::WaitingForEstimatedVBlankAndQueued(
                    _,
                ) => "WaitingForEstVBlank+Queued"@,
            },
    {
        match self {
            RedrawState::Idle => "Idle".to_owned(),
            RedrawState::Queued => "Queued".to_owned(),
            RedrawState::WaitingForVBlank { redraw_needed } => {
                if *redraw_needed {
                    "WaitingForVBlank(redraw=true)".to_owned()
                } else {
                    "WaitingForVBlank(redraw=false)".to_owned()
                }
            },
            RedrawState::WaitingForEstimatedVBlank(_) => "WaitingForEstVBlank".to_owned(),
            RedrawState::WaitingForEstimatedVBlankAndQueued(
                _,
            ) => "WaitingForEstVBlank+Queued".to_owned(),
        }
    }
}

/// Per-output state for redraw synchronization
#[derive(Clone, Copy, Debug, PartialEq, Eq, Structural)]
pub struct OutputState {
    pub redraw_state: RedrawState,
    /// Frame clock for accurate VBlank prediction
    pub frame_clock: FrameClock,
    /// Whether unfinished animations remain on this output.
    /// When true, VBlank and estimated VBlank handlers queue another redraw
    /// even if `redraw_needed` is false, keeping animations pumping.
    pub unfinished_animations_remain: bool,
    /// Lock surface for this output (when session is locked)
    pub lock_surface: Option<u64>,
    /// Render state for session lock (tracks whether locked frame was rendered)
    pub lock_render_state: LockRenderState,
    /// Extent of the background shown before the lock surface renders
    pub lock_buffer_size: Size,
    /// Sequence number for frame callback throttling, incremented each VBlank cycle
    pub frame_callback_sequence: u32,
    /// Extent of the backdrop behind fullscreen surfaces
    pub backdrop_size: Size,
}

/// What a timer or VBlank handler asks for once the state machine is settled.
#[derive(Clone, Copy, Debug, PartialEq, Eq, Structural)]
pub enum AfterVBlank {
    /// Nothing further: the queued redraw starts by itself.
    Nothing,
    /// Queue another redraw.
    Redraw,
    /// Tell the clients that they may draw their next frame.
    FrameCallbacks,
}

impl OutputState {
    pub open spec fn wf(&self) -> bool {
        self.frame_clock.wf()
    }

    /// Create a new OutputState for an output of the given size.
    pub fn new(refresh_interval: Option<Duration>, size: Size) -> (r: Self)
        requires
            refresh_interval matches Some(d) ==> d@ < 1_000_000_000,
        ensures
            r.wf(),
            r.redraw_state == RedrawState::Queued,
            r.frame_clock.last() is None,
            r.frame_clock.interval() == match refresh_interval {
                Some(d) => if d@ == 0 {
                    None::<nat>
                } else {
                    Some(d@)
                },
                None => None::<nat>,
            },
            r == (OutputState {
                redraw_state: RedrawState::Queued,
                frame_clock: r.frame_clock,
                unfinished_animations_remain: false,
                lock_surface: None,
                lock_render_state: LockRenderState::Unlocked,
                lock_buffer_size: size,
                frame_callback_sequence: 0,
                backdrop_size: size,
            }),
    {
        OutputState {
            redraw_state: RedrawState::Queued,
            frame_clock: FrameClock::new(refresh_interval),
            unfinished_animations_remain: false,
            lock_surface: None,
            lock_render_state: LockRenderState::Unlocked,
            lock_buffer_size: size,
            frame_callback_sequence: 0,
            backdrop_size: size,
        }
    }

    /// Resize the lock background for this output
    pub fn resize_lock_buffer(&mut self, size: Size)
        ensures
            *final(self) == (OutputState { lock_buffer_size: size, ..*old(self) }),
    {
        self.lock_buffer_size = size;
    }

    /// Resize the fullscreen backdrop for this output
    pub fn resize_fullscreen_backdrop(&mut self, size: Size)
        ensures
            *final(self) == (OutputState { backdrop_size: size, ..*old(self) }),
    {
        self.backdrop_size = size;
    }

    /// A frame was queued to the display. Gives the timer that has to be cancelled.
    pub fn frame_queued(&mut self) -> (cancel: Option<u64>)
        requires
            old(self).redraw_state.is_due(),
        ensures
            *final(self) == (OutputState {
                redraw_state: RedrawState::WaitingForVBlank { redraw_needed: false },
                frame_callback_sequence: old(self).frame_callback_sequence.wrapping_add(1),
                ..*old(self)
            }),
            cancel == old(self).redraw_state.timer(),
    {
        let cancel = self.redraw_state.timer_token();
        self.redraw_state = RedrawState::WaitingForVBlank { redraw_needed: false };
        self.frame_callback_sequence = self.frame_callback_sequence.wrapping_add(1);
        cancel
    }

    /// How long an estimated VBlank timer runs: until the target, or one refresh interval if the
    /// target has passed.
    pub open spec fn estimated_delay(&self, target: nat, now: nat) -> nat {
        if target > now {
            (target - now) as nat
        } else {
            match self.frame_clock.interval() {
                Some(i) => i,
                None => 16_667_000,
            }
        }
    }

    /// No frame was submitted: wait for an estimated VBlank. A timer that already runs is kept;
    /// otherwise a timer with the number `token` has to be started with the delay returned.
    pub fn wait_for_estimated_vblank(
        &mut self,
        target_presentation_time: Duration,
        now: Duration,
        token: u64,
    ) -> (start: Option<Duration>)
        requires
            old(self).redraw_state is Queued || old(self).redraw_state.timer() is Some,
        ensures
            match old(self).redraw_state.timer() {
                Some(t) => *final(self) == (OutputState {
                    redraw_state: RedrawState::WaitingForEstimatedVBlank(t),
                    ..*old(self)
                }) && start is None,
                None => *final(self) == (OutputState {
                    redraw_state: RedrawState::WaitingForEstimatedVBlank(token),
                    ..*old(self)
                }) && start is Some && start->0@ == old(self).estimated_delay(
                    target_presentation_time@,
                    now@,
                ),
            },
    {
        match self.redraw_state.timer_token() {
            Some(t) => {
                self.redraw_state = RedrawState::WaitingForEstimatedVBlank(t);
                None
            },
            None => {
                let mut duration = target_presentation_time.saturating_sub(&now);
                // Don't set a zero timer: frame callbacks are sent right after render anyway
                if duration.is_zero() {
                    duration = match self.frame_clock.refresh_interval() {
                        Some(i) => i,
                        None => Duration::from_micros(16_667),
                    };
                }
                self.redraw_state = RedrawState::WaitingForEstimatedVBlank(token);
                Some(duration)
            },
        }
    }

    /// The estimated VBlank timer fired.
    pub fn estimated_vblank_fired(&mut self) -> (r: AfterVBlank)
        requires
            old(self).redraw_state.timer() is Some,
        ensures
            *final(self) == (OutputState {
                redraw_state: old(self).redraw_state.after_timer(),
                frame_callback_sequence: old(self).frame_callback_sequence.wrapping_add(1),
                ..*old(self)
            }),
            r == if old(self).redraw_state.is_due() {
                AfterVBlank::Nothing
            } else if old(self).unfinished_animations_remain {
                AfterVBlank::Redraw
            } else {
                AfterVBlank::FrameCallbacks
            },
    {
        self.frame_callback_sequence = self.frame_callback_sequence.wrapping_add(1);
        if self.redraw_state.needs_redraw() {
            self.redraw_state = RedrawState::Queued;
            return AfterVBlank::Nothing;
        }
        self.redraw_state = RedrawState::Idle;
        if self.unfinished_animations_remain {
            AfterVBlank::Redraw
        } else {
            AfterVBlank::FrameCallbacks
        }
    }

    /// A VBlank arrived; the frame was shown at `presentation_time`.
    pub fn vblank(&mut self, presentation_time: Duration) -> (r: AfterVBlank)
        requires
            old(self).wf(),
            presentation_time@ <= crate::time::MAX_NANOS,
        ensures
            final(self).wf(),
            *final(self) == (OutputState {
                redraw_state: RedrawState::Idle,
                frame_clock: final(self).frame_clock,
                ..*old(self)
            }),
            final(self).frame_clock.interval() == old(self).frame_clock.interval(),
            final(self).frame_clock.last() == if presentation_time@ == 0 {
                old(self).frame_clock.last()
            } else {
                Some(presentation_time@)
            },
            r == if old(self).redraw_state.redraw_after_vblank()
                || old(self).unfinished_animations_remain {
                AfterVBlank::Redraw
            } else {
                AfterVBlank::FrameCallbacks
            },
    {
        let redraw_needed = match self.redraw_state {
            RedrawState::WaitingForVBlank { redraw_needed } => redraw_needed,
            _ => true,
        };
        self.redraw_state = RedrawState::Idle;
        let mut clock = self.frame_clock;
        clock.presented(presentation_time);
        self.frame_clock = clock;
        if redraw_needed || self.unfinished_animations_remain {
            AfterVBlank::Redraw
        } else {
            AfterVBlank::FrameCallbacks
        }
    }
}

impl Default for OutputState {
    fn default() -> (r: Self)
        ensures
            r.wf(),
            r.redraw_state == RedrawState::Idle,
            r.frame_clock.interval() == Some(16_667_000nat),
            r.frame_clock.last() is None,
            r.lock_surface is None,
            r.lock_render_state == LockRenderState::Unlocked,
            r.lock_buffer_size == (Size { w: 1920, h: 1080 }),
            r.backdrop_size == (Size { w: 1920, h: 1080 }),
            r.frame_callback_sequence == 0,
            !r.unfinished_animations_remain,
    {
        OutputState {
            redraw_state: RedrawState::Idle,
            frame_clock: FrameClock::new(Some(Duration::from_micros(16_667))),
            unfinished_animations_remain: false,
            lock_surface: None,
            lock_render_state: LockRenderState::Unlocked,
            lock_buffer_size: Size { w: 1920, h: 1080 },
            frame_callback_sequence: 0,
            backdrop_size: Size { w: 1920, h: 1080 },
        }
    }
}

/// The presentation time of a VBlank: what the display reports on the monotonic clock, or `now`
/// where it reports nothing or another clock.
pub fn presentation_time(monotonic: Option<Duration>, now: Duration) -> (r: Duration)
    ensures
        r@ == match monotonic {
            Some(t) => if t@ != 0 {
                t@
            } else {
                now@
            },
            None => now@,
        },
{
    match monotonic {
        Some(t) => {
            if t.is_zero() {
                now
            } else {
                t
            }
        },
        None => now,
    }
}

/// Whether a surface gets a frame callback in this cycle: it must be shown on this output, and
/// must not have had one on this output in the same cycle. `last_sent` is remembered.
pub fn should_send_frame_callback(
    primary_output: Option<u64>,
    output: u64,
    sequence: u32,
    last_sent: &mut Option<(u64, u32)>,
) -> (r: bool)
    ensures
        r == (primary_output == Some(output) && *old(last_sent) != Some((output, sequence))),
        *final(last_sent) == if r {
            Some((output, sequence))
        } else {
            *old(last_sent)
        },
{
    match primary_output {
        Some(p) => {
            if p != output {
                return false;
            }
        },
        None => {
            return false;
        },
    }
    match *last_sent {
        Some((o, s)) => {
            if o == output && s == sequence {
                return false;
            }
        },
        None => {},
    }
    *last_sent = Some((output, sequence));
    true
}

/// Requesting a redraw twice is requesting it once; the request is pending afterwards and a
/// running timer keeps running.
pub proof fn law_request_is_idempotent(s: RedrawState)
    ensures
        s.requested().requested() == s.requested(),
        s.requested().is_pending(),
        s.requested().timer() == s.timer(),
{
}

/// A pending redraw is never lost: whichever event ends the waiting, a redraw follows.
pub proof fn law_pending_redraw_survives(s: RedrawState)
    requires
        s.is_pending(),
    ensures
        s.requested() == s,
        s is WaitingForVBlank ==> s.redraw_after_vblank(),
        s.timer() is Some ==> s.after_timer() == RedrawState::Queued,
{
}

/// A display whose frame is shown, or whose timer fires, with no request in between comes to
/// rest.
pub proof fn law_cycle_comes_to_rest(token: u64)
    ensures
        RedrawState::Idle.requested() == RedrawState::Queued,
        !(RedrawState::WaitingForVBlank { redraw_needed: false }).redraw_after_vblank(),
        RedrawState::WaitingForEstimatedVBlank(token).after_timer() == RedrawState::Idle,
        RedrawState::Queued.after_skip() == RedrawState::Idle,
{
}

} // verus!
