//! Frame clock for accurate VBlank prediction.
//!
//! Tracks the last presentation time and the refresh interval to predict the next VBlank, so
//! that estimated VBlank timers do not drift as fixed-interval timers would.
use crate::time::{Duration, MAX_NANOS};
use vstd::prelude::*;

verus! {

/// Predicts presentation times of one output.
#[derive(Clone, Copy, Debug, PartialEq, Eq, Structural)]
pub struct FrameClock {
    last_presentation_time: Option<Duration>,
    /// Never `Some(0)`.
    refresh_interval_ns: Option<u64>,
}

/// The first time on the grid `last + k * interval` that is later than `now`.
pub open spec fn next_on_grid(last: int, interval: int, now: int) -> int {
    last + ((now - last) / interval + 1) * interval
}

/// The time that the prediction counts from: `now`, moved behind the last presentation if a
/// VBlank came early.
pub open spec fn effective_now(last: int, interval: int, now: int) -> int {
    if now > last {
        now
    } else if now + interval < last {
        last + interval
    } else {
        now + interval
    }
}

impl FrameClock {
    /// The refresh interval in nanoseconds, if there is one.
    pub closed spec fn interval(&self) -> Option<nat> {
        match self.refresh_interval_ns {
            Some(n) => Some(n as nat),
            None => None,
        }
    }

    /// The last presentation time, if there was one.
    pub closed spec fn last(&self) -> Option<nat> {
        match self.last_presentation_time {
            Some(t) => Some(t@),
            None => None,
        }
    }

    /// The interval is under a second and not zero; the presentation time is not zero.
    pub open spec fn wf(&self) -> bool {
        &&& self.interval() is Some ==> 0 < self.interval()->0 < 1_000_000_000
        &&& self.last() is Some ==> 0 < self.last()->0 <= MAX_NANOS
    }

    /// A clock that has seen no presentation. A zero interval counts as none.
    pub fn new(refresh_interval: Option<Duration>) -> (r: Self)
        requires
            refresh_interval matches Some(d) ==> d@ < 1_000_000_000,
        ensures
            r.wf(),
            r.last() is None,
            r.interval() == match refresh_interval {
                Some(d) => if d@ == 0 {
                    None::<nat>
                } else {
                    Some(d@)
                },
                None => None::<nat>,
            },
    {
        let refresh_interval_ns: Option<u64> = match refresh_interval {
            Some(d) => {
                if d.is_zero() {
                    None
                } else {
                    Some(d.as_nanos() as u64)
                }
            },
            None => None,
        };
        FrameClock { last_presentation_time: None, refresh_interval_ns }
    }

    pub fn refresh_interval(&self) -> (r: Option<Duration>)
        ensures
            match r {
                Some(d) => self.interval() == Some(d@),
                None => self.interval() is None,
            },
    {
        match self.refresh_interval_ns {
            Some(n) => Some(Duration::from_nanos(n)),
            None => None,
        }
    }

    /// Record that a frame was presented at the given time. A zero time is no record.
    pub fn presented(&mut self, presentation_time: Duration)
        requires
            old(self).wf(),
            presentation_time@ <= MAX_NANOS,
        ensures
            final(self).wf(),
            final(self).interval() == old(self).interval(),
            final(self).last() == if presentation_time@ == 0 {
                old(self).last()
            } else {
                Some(presentation_time@)
            },
    {
        if presentation_time.is_zero() {
            return;
        }
        self.last_presentation_time = Some(presentation_time);
    }

    /// What `next_presentation_time` answers at the time `now`.
    pub open spec fn predicted(&self, now: nat) -> nat {
        if self.interval() is Some && self.last() is Some {
            let i = self.interval()->0 as int;
            let last = self.last()->0 as int;
            next_on_grid(last, i, effective_now(last, i, now as int)) as nat
        } else {
            now
        }
    }

    /// The predicted time fits, and its distance from the last presentation in nanoseconds. Without
    /// an interval or a presentation there is nothing to compute.
    pub open spec fn can_predict(&self, now: nat) -> bool {
        self.interval() is Some && self.last() is Some ==> {
            &&& self.predicted(now) <= MAX_NANOS
            &&& self.predicted(now) - self.last()->0 <= u64::MAX
        }
    }

    /// Predict the next presentation time based on the last VBlank and refresh interval.
    /// `now` is the current monotonic time.
    pub fn next_presentation_time(&self, now: Duration) -> (r: Duration)
        requires
            self.wf(),
            self.can_predict(now@),
        ensures
            r@ == self.predicted(now@),
    {
        let interval: u64 = match self.refresh_interval_ns {
            Some(n) => n,
            None => {
                return now;
            },
        };
        let last = match self.last_presentation_time {
            Some(t) => t,
            None => {
                return now;
            },
        };
        let ghost i = interval as int;
        proof {
            // The prediction lies behind the time that it counts from, so that this one fits too.
            law_prediction_follows_now(
                last@ as int,
                i,
                effective_now(last@ as int, i, now@ as int),
            );
        }
        let step = Duration::from_nanos(interval);
        let mut at = now;
        if !last.less(&now) {
            // Got an early VBlank.
            at = now.plus(&step);
            if at.less(&last) {
                at = last.plus(&step);
            }
        }
        let since_last: u64 = at.minus(&last).as_nanos() as u64;
        let ghost s = since_last as int;
        assert((s / i + 1) * i <= s + i) by (nonlinear_arith)
            requires
                s >= 0,
                i > 0,
        ;
        assert(s / i + 1 <= u64::MAX) by (nonlinear_arith)
            requires
                0 <= s <= u64::MAX - 1,
                i > 0,
        ;
        assert((s / i + 1) * i >= 0) by (nonlinear_arith)
            requires
                s >= 0,
                i > 0,
        ;
        let to_next: u64 = (since_last / interval + 1) * interval;
        last.plus(&Duration::from_nanos(to_next))
    }
}

/// A clock made without an interval, or with a zero one, answers `now` at every time and whatever
/// was presented since.
pub proof fn law_no_interval_means_now(made: FrameClock, later: FrameClock, now: nat)
    requires
        made.interval() is None,
        later.interval() == made.interval(),
    ensures
        later.can_predict(now),
        later.predicted(now) == now,
{
}

/// The prediction lies after the time that it counts from, by no more than one interval, and
/// on the grid of the last presentation.
pub proof fn law_prediction_follows_now(last: int, interval: int, now: int)
    requires
        interval > 0,
        now >= last,
    ensures
        now < next_on_grid(last, interval, now) <= now + interval,
        (next_on_grid(last, interval, now) - last) % interval == 0,
{
    let d = now - last;
    let q = d / interval;
    assert(q * interval <= d < (q + 1) * interval) by (nonlinear_arith)
        requires
            interval > 0,
            d >= 0,
            q == d / interval,
    ;
    assert((q + 1) * interval == q * interval + interval) by (nonlinear_arith);
    assert(((q + 1) * interval) % interval == 0) by {
        vstd::arithmetic::div_mod::lemma_mod_multiples_basic(q + 1, interval);
    }
}

/// A clock that knows its interval and the last presentation predicts a time after `now`, and,
/// once that presentation lies in the past, within one interval of `now`.
pub proof fn law_clock_predicts_the_next_refresh(clock: FrameClock, now: nat)
    requires
        clock.wf(),
        clock.interval() is Some,
        clock.last() is Some,
    ensures
        now < clock.predicted(now),
        clock.last()->0 < clock.predicted(now),
        now > clock.last()->0 ==> clock.predicted(now) <= now + clock.interval()->0,
{
    let i = clock.interval()->0 as int;
    let last = clock.last()->0 as int;
    law_prediction_follows_now(last, i, effective_now(last, i, now as int));
}

} // verus!
