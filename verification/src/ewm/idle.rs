//! The idle timeout: going idle after a time without input, and waking again.
use super::{Ewm, IdleAction, IdleTimeoutState};
use crate::effect::{Effect, TimerKind};
use crate::event::Event;
use crate::outputs::all_requested;
use crate::time::Duration;
use vstd::prelude::*;

verus! {

/// What cancelling a timer asks for.
pub open spec fn cancel_effects(token: Option<u64>) -> Seq<Effect> {
    match token {
        Some(token) => seq![Effect::CancelTimer { token }],
        None => Seq::empty(),
    }
}

/// What ending the idle command asks for.
pub open spec fn kill_effects(running: bool) -> Seq<Effect> {
    if running {
        seq![Effect::KillIdleCommand]
    } else {
        Seq::empty()
    }
}

/// What starting the idle timer asks for.
pub open spec fn start_effects(timeout: Option<Duration>, token: u64) -> Seq<Effect> {
    match timeout {
        Some(after) => seq![Effect::StartTimer { token, after, kind: TimerKind::Idle }],
        None => Seq::empty(),
    }
}

/// The timer number after one that may have been taken.
pub open spec fn next_timer_after(timeout: Option<Duration>, next: u64) -> u64 {
    if timeout is Some {
        next.wrapping_add(1)
    } else {
        next
    }
}

/// The timer number that a started timer got.
pub open spec fn timer_taken(timeout: Option<Duration>, next: u64) -> Option<u64> {
    if timeout is Some {
        Some(next)
    } else {
        None
    }
}

/// The state `after` follows `before` once the timeout `timeout` with the action `action` was
/// set at `now`. An idle session is woken first.
pub open spec fn idle_configured(
    before: Ewm,
    after: Ewm,
    timeout: Option<Duration>,
    action: IdleAction,
    now: Duration,
) -> bool {
    let b = before.idle_timeout;
    &&& after == (Ewm {
        idle_timeout: IdleTimeoutState {
            timeout,
            action,
            timer_token: timer_taken(timeout, before.next_timer),
            child_running: b.child_running && !b.is_idle,
            is_idle: false,
            last_activity: now,
        },
        monitors_active: before.monitors_active || b.is_idle,
        output_state: after.output_state,
        next_timer: next_timer_after(timeout, before.next_timer),
        effects: after.effects,
        ..before
    })
    &&& after.output_state.entries@ == if b.is_idle && !before.monitors_active {
        all_requested(before.output_state.entries@)
    } else {
        before.output_state.entries@
    }
    &&& after.effects@ == before.effects@ + (if b.is_idle {
        kill_effects(b.child_running).push(Effect::Event(Event::IdleStateChanged { idle: false }))
    } else {
        cancel_effects(b.timer_token)
    }) + start_effects(timeout, before.next_timer)
}

/// The time without input has reached the timeout.
pub open spec fn idle_due(idle: IdleTimeoutState, now: Duration) -> bool {
    &&& idle.timeout is Some
    &&& now@ - idle.last_activity@ >= idle.timeout->0@ || idle.timeout->0@ == 0
}

/// The state `after` is `before` once the idle timer fired too early: without a timeout there is
/// no timer any more, with one a new timer runs for the rest of the time.
pub open spec fn waits_on(before: Ewm, after: Ewm, now: Duration) -> bool {
    let b = before.idle_timeout;
    match b.timeout {
        None => after == (Ewm {
            idle_timeout: IdleTimeoutState { timer_token: None, ..b },
            ..before
        }),
        Some(timeout) => {
            let gone = if now@ >= b.last_activity@ {
                now@ - b.last_activity@
            } else {
                0
            };
            &&& after == (Ewm {
                idle_timeout: IdleTimeoutState { timer_token: Some(before.next_timer), ..b },
                next_timer: before.next_timer.wrapping_add(1),
                effects: after.effects,
                ..before
            })
            &&& exists|rest: Duration| #[trigger]
                rest@ == timeout@ - gone && after.effects@ == before.effects@ + start_effects(
                    Some(rest),
                    before.next_timer,
                )
        },
    }
}

/// The state `after` follows `before` once the idle timer fired at `now` and was due.
pub open spec fn went_idle(before: Ewm, after: Ewm) -> bool {
    let b = before.idle_timeout;
    &&& after == (Ewm {
        idle_timeout: IdleTimeoutState { timer_token: None, is_idle: true, ..b },
        monitors_active: before.monitors_active && !(b.action is DeactivateMonitors),
        effects: after.effects,
        ..before
    })
    &&& after.effects@ == before.effects@ + (match b.action {
        IdleAction::DeactivateMonitors => Seq::<Effect>::empty(),
        IdleAction::RunCommand(command) => seq![Effect::SpawnIdleCommand { command }],
    }).push(Effect::Event(Event::IdleStateChanged { idle: true }))
}

/// The state `after` follows the idle state `before` once it was woken at `now`.
pub open spec fn woken(before: Ewm, after: Ewm, now: Duration) -> bool {
    let b = before.idle_timeout;
    &&& after == (Ewm {
        idle_timeout: IdleTimeoutState {
            timer_token: timer_taken(b.timeout, before.next_timer),
            child_running: false,
            is_idle: false,
            last_activity: now,
            ..b
        },
        monitors_active: true,
        output_state: after.output_state,
        next_timer: next_timer_after(b.timeout, before.next_timer),
        effects: after.effects,
        ..before
    })
    &&& after.output_state.entries@ == if before.monitors_active {
        before.output_state.entries@
    } else {
        all_requested(before.output_state.entries@)
    }
    &&& after.effects@ == before.effects@ + kill_effects(b.child_running) + start_effects(
        b.timeout,
        before.next_timer,
    ).push(Effect::Event(Event::IdleStateChanged { idle: false }))
}

impl Ewm {
    /// Configure the native idle timeout.
    /// Passing `None` for timeout disables it.
    pub fn configure_idle(
        &mut self,
        timeout: Option<Duration>,
        action: IdleAction,
        now: Duration,
    )
        requires
            old(self).wf(),
        ensures
            final(self).wf(),
            idle_configured(*old(self), *final(self), timeout, action, now),
    {
        let ghost before = *self;
        if self.idle_timeout.is_idle {
            self.idle_timeout.is_idle = false;
            self.kill_idle_child();
            self.activate_monitors();
            self.queue_event(Event::IdleStateChanged { idle: false });
        }
        self.cancel_idle_timer();
        self.idle_timeout.timeout = timeout;
        self.idle_timeout.action = action;
        self.idle_timeout.last_activity = now;
        match timeout {
            Some(duration) => {
                self.start_idle_timer(duration);
            },
            None => {},
        }
        assert(self.effects@ =~= before.effects@ + (if before.idle_timeout.is_idle {
            kill_effects(before.idle_timeout.child_running).push(
                Effect::Event(Event::IdleStateChanged { idle: false }),
            )
        } else {
            cancel_effects(before.idle_timeout.timer_token)
        }) + start_effects(timeout, before.next_timer));
    }

    fn start_idle_timer(&mut self, duration: Duration)
        requires
            old(self).wf(),
            !old(self).idle_timeout.is_idle,
        ensures
            final(self).wf(),
            *final(self) == (Ewm {
                idle_timeout: IdleTimeoutState {
                    timer_token: Some(old(self).next_timer),
                    ..old(self).idle_timeout
                },
                next_timer: old(self).next_timer.wrapping_add(1),
                effects: final(self).effects,
                ..*old(self)
            }),
            final(self).effects@ == old(self).effects@ + cancel_effects(
                old(self).idle_timeout.timer_token,
            ) + start_effects(Some(duration), old(self).next_timer),
    {
        let ghost before = *self;
        self.cancel_idle_timer();
        let token: u64 = self.next_timer;
        self.next_timer = token.wrapping_add(1);
        self.emit(Effect::StartTimer { token, after: duration, kind: TimerKind::Idle });
        self.idle_timeout.timer_token = Some(token);
        assert(self.effects@ =~= before.effects@ + cancel_effects(
            before.idle_timeout.timer_token,
        ) + start_effects(Some(duration), before.next_timer));
    }

    pub fn cancel_idle_timer(&mut self)
        requires
            old(self).wf(),
        ensures
            final(self).wf(),
            *final(self) == (Ewm {
                idle_timeout: IdleTimeoutState { timer_token: None, ..old(self).idle_timeout },
                effects: final(self).effects,
                ..*old(self)
            }),
            final(self).effects@ == old(self).effects@ + cancel_effects(
                old(self).idle_timeout.timer_token,
            ),
    {
        let ghost before = *self;
        match self.idle_timeout.timer_token {
            Some(token) => {
                self.emit(Effect::CancelTimer { token });
            },
            None => {},
        }
        self.idle_timeout.timer_token = None;
        assert(self.effects@ =~= before.effects@ + cancel_effects(
            before.idle_timeout.timer_token,
        ));
    }

    /// Called when the idle timer fires. Checks whether enough idle time
    /// has actually elapsed (activity may have occurred since the timer was set).
    /// If not, reschedules for the remaining time instead of firing the action.
    /// Returns `true` if the idle action was actually fired.
    pub fn on_idle_timer_fired(&mut self, now: Duration) -> (r: bool)
        requires
            old(self).wf(),
            old(self).idle_timeout.timer_token is Some,
        ensures
            final(self).wf(),
            r == idle_due(old(self).idle_timeout, now),
            r ==> went_idle(*old(self), *final(self)),
            !r ==> waits_on(*old(self), *final(self), now),
    {
        let ghost before = *self;
        let timeout: Duration = match self.idle_timeout.timeout {
            Some(t) => t,
            None => {
                self.idle_timeout.timer_token = None;
                return false;
            },
        };
        let elapsed = now.saturating_sub(&self.idle_timeout.last_activity);
        if elapsed.less(&timeout) {
            self.idle_timeout.timer_token = None;
            let remaining = timeout.minus(&elapsed);
            self.start_idle_timer(remaining);
            assert(self.effects@ =~= before.effects@ + start_effects(
                Some(remaining),
                before.next_timer,
            ));
            return false;
        }
        self.idle_timeout.timer_token = None;
        self.idle_timeout.is_idle = true;
        match &self.idle_timeout.action {
            IdleAction::DeactivateMonitors => {
                self.deactivate_monitors();
            },
            IdleAction::RunCommand(cmd) => {
                let command = cmd.clone();
                self.emit(Effect::SpawnIdleCommand { command });
            },
        }
        self.queue_event(Event::IdleStateChanged { idle: true });
        assert(self.effects@ =~= before.effects@ + (match before.idle_timeout.action {
            IdleAction::DeactivateMonitors => Seq::<Effect>::empty(),
            IdleAction::RunCommand(command) => seq![Effect::SpawnIdleCommand { command }],
        }).push(Effect::Event(Event::IdleStateChanged { idle: true })));
        true
    }

    /// Notes whether the idle command could be started.
    pub fn idle_command_started(&mut self, started: bool)
        requires
            old(self).wf(),
        ensures
            final(self).wf(),
            *final(self) == (Ewm {
                idle_timeout: IdleTimeoutState {
                    child_running: old(self).idle_timeout.child_running || started,
                    ..old(self).idle_timeout
                },
                ..*old(self)
            }),
    {
        if started {
            self.idle_timeout.child_running = true;
        }
    }

    /// The timer `token` fired. Once the session is idle the displays are blanked too. A timer
    /// that is not the one waited for does nothing.
    pub fn idle_timer_elapsed(&mut self, token: u64, now: Duration)
        requires
            old(self).wf(),
        ensures
            final(self).wf(),
            old(self).idle_timeout.timer_token != Some(token) ==> *final(self) == *old(self),
            old(self).idle_timeout.timer_token == Some(token) && idle_due(
                old(self).idle_timeout,
                now,
            ) ==> exists|mid: Ewm| #[trigger]
                went_idle(*old(self), mid) && *final(self) == (Ewm {
                    effects: final(self).effects,
                    ..mid
                }) && final(self).effects@ == mid.effects@.push(Effect::ClearDisplays),
            old(self).idle_timeout.timer_token == Some(token) && !idle_due(
                old(self).idle_timeout,
                now,
            ) ==> waits_on(*old(self), *final(self), now),
    {
        match self.idle_timeout.timer_token {
            Some(t) => {
                if t == token && self.on_idle_timer_fired(now) {
                    self.emit(Effect::ClearDisplays);
                }
            },
            None => {},
        }
    }

    /// Wake from idle state: kill child process, reactivate monitors, restart timer.
    pub fn wake_from_idle(&mut self, now: Duration)
        requires
            old(self).wf(),
        ensures
            final(self).wf(),
            !old(self).idle_timeout.is_idle ==> *final(self) == *old(self),
            old(self).idle_timeout.is_idle ==> woken(*old(self), *final(self), now),
    {
        if !self.idle_timeout.is_idle {
            return ;
        }
        let ghost before = *self;
        self.idle_timeout.is_idle = false;
        self.kill_idle_child();
        self.activate_monitors();
        self.idle_timeout.last_activity = now;
        match self.idle_timeout.timeout {
            Some(duration) => {
                self.start_idle_timer(duration);
            },
            None => {},
        }
        self.queue_event(Event::IdleStateChanged { idle: false });
        assert(self.effects@ =~= before.effects@ + kill_effects(before.idle_timeout.child_running)
            + start_effects(before.idle_timeout.timeout, before.next_timer).push(
            Effect::Event(Event::IdleStateChanged { idle: false }),
        ));
    }

    /// Record user activity. If idle, wakes immediately.
    /// Otherwise just updates the timestamp — the timer callback
    /// will check elapsed time and reschedule if needed.
    pub fn reset_idle_timer(&mut self, now: Duration)
        requires
            old(self).wf(),
        ensures
            final(self).wf(),
            old(self).idle_timeout.is_idle ==> woken(*old(self), *final(self), now),
            !old(self).idle_timeout.is_idle ==> *final(self) == (Ewm {
                idle_timeout: IdleTimeoutState { last_activity: now, ..old(self).idle_timeout },
                ..*old(self)
            }),
    {
        if self.idle_timeout.is_idle {
            self.wake_from_idle(now);
        } else {
            self.idle_timeout.last_activity = now;
        }
    }

    /// Kill idle child process (e.g., on lid close).
    pub fn kill_idle_child(&mut self)
        requires
            old(self).wf(),
        ensures
            final(self).wf(),
            *final(self) == (Ewm {
                idle_timeout: IdleTimeoutState { child_running: false, ..old(self).idle_timeout },
                effects: final(self).effects,
                ..*old(self)
            }),
            final(self).effects@ == old(self).effects@ + kill_effects(
                old(self).idle_timeout.child_running,
            ),
    {
        let ghost before = *self;
        if self.idle_timeout.child_running {
            self.emit(Effect::KillIdleCommand);
        }
        self.idle_timeout.child_running = false;
        assert(self.effects@ =~= before.effects@ + kill_effects(before.idle_timeout.child_running));
    }
}

/// Waking undoes going idle: the monitors are on again, the outputs that were dark are redrawn,
/// and the timer runs anew with the same timeout and action.
pub proof fn law_waking_undoes_idle(a: Ewm, b: Ewm, c: Ewm, now: Duration)
    requires
        a.wf(),
        a.monitors_active,
        a.idle_timeout.timeout is Some,
        went_idle(a, b),
        woken(b, c, now),
    ensures
        c.monitors_active,
        !c.idle_timeout.is_idle,
        c.idle_timeout.timeout == a.idle_timeout.timeout,
        c.idle_timeout.action == a.idle_timeout.action,
        c.idle_timeout.timer_token == Some(a.next_timer),
        c.output_state.entries@ == if a.idle_timeout.action is DeactivateMonitors {
            all_requested(a.output_state.entries@)
        } else {
            a.output_state.entries@
        },
{
}

/// Input puts off going idle: while the last input is more recent than the timeout, the timer
/// never makes the session idle.
pub proof fn law_activity_keeps_awake(idle: IdleTimeoutState, now: Duration)
    requires
        idle.timeout is Some,
        idle.timeout->0@ > 0,
        now@ < idle.last_activity@ + idle.timeout->0@,
    ensures
        !idle_due(idle, now),
{
}

} // verus!
