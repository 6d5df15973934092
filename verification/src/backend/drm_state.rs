//! The display backend's part in outputs coming and going, frames, sessions and the lid.
//!
//! A display controller is known by its number, an output by its connector's name.
use crate::backend::drm::{refresh_interval, DrmMode};
use crate::backend::RenderResult;
use crate::effect::{Effect, TimerKind};
use crate::event::{Event, OutputInfo};
use crate::ewm::idle::{cancel_effects, kill_effects};
use crate::ewm::input_events::activity_told;
use crate::ewm::lock::{all_redrawn, awake};
use crate::ewm::outputs::output_removed;
use crate::ewm::{Ewm, IdleTimeoutState};
use crate::frame_clock::FrameClock;
use crate::outputs::{
    all_requested, any_queued, clocks_ok, one_requested, one_set, put_state, queued_somewhere,
    same_names,
};
use crate::redraw::{presentation_time, AfterVBlank, OutputState, RedrawState};
use crate::session::{built_in, is_laptop_panel};
use crate::tables::IdMap;
use crate::text::str_eq;
use crate::time::{Duration, MAX_NANOS};
use vstd::prelude::*;

verus! {

/// What is known of a connector with a display on it.
#[derive(Debug)]
pub struct ConnectorInfo {
    pub name: String,
    pub modes: Vec<DrmMode>,
    /// Physical extent in millimeters.
    pub size_mm: Option<(u32, u32)>,
    /// From the display's own description.
    pub make: Option<String>,
    pub model: Option<String>,
}

/// What became of rendering a frame.
#[derive(Clone, Copy, Debug, PartialEq, Eq, Structural)]
pub enum FrameOutcome {
    /// The output cannot be rendered at the moment, as on another terminal.
    Unavailable,
    /// Rendering, or handing the frame to the display, failed.
    Failed,
    /// Nothing changed on screen.
    Empty,
    /// The frame is with the display.
    Queued,
}

/// What a session becoming active leads to.
#[derive(Clone, Copy, Debug, PartialEq, Eq, Structural)]
pub enum SessionStep {
    Initialize,
    Resume,
}

/// Shared DRM backend state
pub struct DrmBackendState {
    /// The device was opened.
    pub initialized: bool,
    /// The device is still to be opened.
    pub pending_init: bool,
    pub session_active: bool,
    /// Whether the laptop lid is currently closed
    pub lid_closed: bool,
    /// The outputs in use, by the display controllers that drive them.
    pub surfaces: IdMap<String>,
}

/// Some controller drives the output.
pub open spec fn drives(surfaces: Seq<(u64, String)>, output: Seq<char>) -> bool {
    exists|i: int| 0 <= i < surfaces.len() && (#[trigger] surfaces[i]).1@ == output
}

/// The outputs at rest that the controllers drive.
pub open spec fn all_idle(
    s: Seq<(String, OutputState)>,
    surfaces: Seq<(u64, String)>,
) -> Seq<(String, OutputState)> {
    s.map_values(
        |e: (String, OutputState)|
            if drives(surfaces, e.0@) {
                (e.0, OutputState { redraw_state: RedrawState::Idle, ..e.1 })
            } else {
                e
            },
    )
}

/// The outputs that wait for the display and have to be redrawn.
pub open spec fn all_recovered(
    s: Seq<(String, OutputState)>,
    surfaces: Seq<(u64, String)>,
) -> Seq<(String, OutputState)> {
    s.map_values(
        |e: (String, OutputState)|
            if drives(surfaces, e.0@) && e.1.redraw_state is WaitingForVBlank {
                (e.0, OutputState { redraw_state: RedrawState::Queued, ..e.1 })
            } else {
                e
            },
    )
}

/// Cancelling the timers of the outputs that the controllers drive.
pub open spec fn timers_cancelled(
    surfaces: Seq<(u64, String)>,
    states: Map<Seq<char>, OutputState>,
) -> Seq<Effect>
    decreases surfaces.len(),
{
    if surfaces.len() == 0 {
        Seq::empty()
    } else {
        let head = timers_cancelled(surfaces.drop_last(), states);
        let name = surfaces.last().1@;
        if states.contains_key(name) {
            head + cancel_effects(states[name].redraw_state.timer())
        } else {
            head
        }
    }
}

/// The state `after` is `before` with the session paused.
pub open spec fn paused(before: Ewm, after: Ewm, initialized: bool, surfaces: Seq<(u64, String)>) -> bool {
    &&& after == (Ewm {
        output_state: after.output_state,
        idle_timeout: IdleTimeoutState { timer_token: None, ..before.idle_timeout },
        effects: after.effects,
        ..before
    })
    &&& after.output_state.entries@ == if initialized {
        all_idle(before.output_state.entries@, surfaces)
    } else {
        before.output_state.entries@
    }
    &&& after.effects@ == before.effects@ + (if initialized {
        timers_cancelled(surfaces, before.output_state@)
    } else {
        Seq::empty()
    }) + cancel_effects(before.idle_timeout.timer_token)
}

/// The state `after` is `before` with no frame for the output: a timer stands in for the display.
/// Nothing changes where no device is open or it does not drive the output.
pub open spec fn vblank_estimated(
    before: Ewm,
    after: Ewm,
    b: DrmBackendState,
    output: String,
    target: Duration,
    now: Duration,
) -> bool {
    let st = before.output_state@[output@];
    if !(b.initialized && drives(b.surfaces.entries@, output@)
        && before.output_state@.contains_key(output@)) {
        after == before
    } else if st.redraw_state.timer() is Some {
        &&& after == (Ewm { output_state: after.output_state, ..before })
        &&& after.output_state.entries@ == one_set(
            before.output_state.entries@,
            output@,
            OutputState {
                redraw_state: RedrawState::WaitingForEstimatedVBlank(st.redraw_state.timer()->0),
                ..st
            },
        )
    } else {
        &&& after == (Ewm {
            output_state: after.output_state,
            next_timer: before.next_timer.wrapping_add(1),
            effects: after.effects,
            ..before
        })
        &&& after.output_state.entries@ == one_set(
            before.output_state.entries@,
            output@,
            OutputState {
                redraw_state: RedrawState::WaitingForEstimatedVBlank(before.next_timer),
                ..st
            },
        )
        &&& exists|d: Duration|
            d@ == st.estimated_delay(target@, now@) && after.effects@
                == #[trigger] before.effects@.push(
                Effect::StartTimer {
                    token: before.next_timer,
                    after: d,
                    kind: TimerKind::EstimatedVBlank { output },
                },
            )
    }
}

/// The state `after` is `before` with a frame handed to the display.
pub open spec fn frame_submitted(before: Ewm, after: Ewm, output: Seq<char>) -> bool {
    let st = before.output_state@[output];
    &&& after == (Ewm { output_state: after.output_state, effects: after.effects, ..before })
    &&& after.output_state.entries@ == one_set(
        before.output_state.entries@,
        output,
        OutputState {
            redraw_state: RedrawState::WaitingForVBlank { redraw_needed: false },
            frame_callback_sequence: st.frame_callback_sequence.wrapping_add(1),
            ..st
        },
    )
    &&& after.effects@ == before.effects@ + cancel_effects(st.redraw_state.timer())
}

/// The state `after` is `before` with what follows a VBlank done: another redraw, or frame
/// callbacks.
pub open spec fn vblank_followed(before: Ewm, after: Ewm, output: String, next: AfterVBlank) -> bool {
    match next {
        AfterVBlank::Nothing => after == before,
        AfterVBlank::Redraw => {
            &&& after == (Ewm { output_state: after.output_state, ..before })
            &&& after.output_state.entries@ == one_requested(
                before.output_state.entries@,
                output@,
            )
        },
        AfterVBlank::FrameCallbacks => {
            &&& after == (Ewm { effects: after.effects, ..before })
            &&& after.effects@ == before.effects@.push(Effect::FrameCallbacks { output })
        },
    }
}

/// The state `after` is `before` with the output's state replaced.
pub open spec fn state_put(before: Ewm, after: Ewm, output: Seq<char>, st: OutputState) -> bool {
    &&& after == (Ewm { output_state: after.output_state, ..before })
    &&& after.output_state.entries@ == one_set(before.output_state.entries@, output, st)
}

/// What clients are told of a frame that was shown.
#[derive(Clone, Copy, Debug, PartialEq, Eq, Structural)]
pub struct Presented {
    pub time: Duration,
    /// Length of a refresh, where it is known.
    pub refresh: Option<Duration>,
    pub sequence: u64,
    /// The time comes from the display's own clock.
    pub hardware_clock: bool,
}

/// The states of the outputs `after` all controllers in the list were disconnected in order.
pub open spec fn all_disconnected(
    b0: DrmBackendState,
    e0: Ewm,
    b1: DrmBackendState,
    e1: Ewm,
    crtcs: Seq<u64>,
) -> bool
    decreases crtcs.len(),
{
    if crtcs.len() == 0 {
        b1 == b0 && e1 == e0
    } else {
        exists|b: DrmBackendState, e: Ewm|
            all_disconnected(b0, e0, b, e, crtcs.drop_last()) && #[trigger] disconnected(
                b,
                e,
                b1,
                e1,
                crtcs.last(),
            )
    }
}

/// The output of a controller is gone: the controller drives nothing, and the output is removed.
pub open spec fn disconnected(
    b0: DrmBackendState,
    e0: Ewm,
    b1: DrmBackendState,
    e1: Ewm,
    crtc: u64,
) -> bool {
    if b0.initialized && b0.surfaces@.contains_key(crtc) {
        &&& b1 == (DrmBackendState { surfaces: b1.surfaces, ..b0 })
        &&& b1.surfaces@ == b0.surfaces@.remove(crtc)
        &&& output_removed(e0, e1, b0.surfaces@[crtc])
    } else {
        b1 == b0 && e1 == e0
    }
}

proof fn lemma_next_disconnect(
    b0: DrmBackendState,
    e0: Ewm,
    b: DrmBackendState,
    e: Ewm,
    b1: DrmBackendState,
    e1: Ewm,
    crtcs: Seq<u64>,
)
    requires
        crtcs.len() > 0,
        all_disconnected(b0, e0, b, e, crtcs.drop_last()),
        disconnected(b, e, b1, e1, crtcs.last()),
    ensures
        all_disconnected(b0, e0, b1, e1, crtcs),
{
}

/// Some output is not a built-in panel.
pub open spec fn external_monitor(outputs: Seq<OutputInfo>) -> bool {
    exists|i: int| 0 <= i < outputs.len() && !built_in((#[trigger] outputs[i]).name@)
}

/// Whether a connector that appeared is connected: its controller is free, and it is not a
/// built-in panel under a closed lid beside an external monitor.
pub open spec fn is_wanted(b: DrmBackendState, e: Ewm, name: Seq<char>, crtc: u64) -> bool {
    !b.surfaces@.contains_key(crtc) && !(b.lid_closed && external_monitor(e.outputs@) && built_in(
        name,
    ))
}

/// The places in the list of connectors that are connected.
pub open spec fn wanted_places(
    b: DrmBackendState,
    e: Ewm,
    added: Seq<(String, u64)>,
) -> Seq<usize>
    decreases added.len(),
{
    if added.len() == 0 {
        Seq::empty()
    } else {
        let head = wanted_places(b, e, added.drop_last());
        if is_wanted(b, e, added.last().0@, added.last().1) {
            head.push((added.len() - 1) as usize)
        } else {
            head
        }
    }
}

/// The controllers that drive built-in panels.
pub open spec fn panel_crtcs(surfaces: Seq<(u64, String)>) -> Seq<u64>
    decreases surfaces.len(),
{
    if surfaces.len() == 0 {
        Seq::empty()
    } else {
        let head = panel_crtcs(surfaces.drop_last());
        if built_in(surfaces.last().1@) {
            head.push(surfaces.last().0)
        } else {
            head
        }
    }
}

impl DrmBackendState {
    pub open spec fn wf(&self) -> bool {
        self.surfaces.wf()
    }

    /// A backend whose device is not opened yet.
    pub fn new(session_active: bool) -> (r: Self)
        ensures
            r.wf(),
            !r.initialized,
            r.pending_init,
            r.session_active == session_active,
            !r.lid_closed,
            r.surfaces@ == Map::<u64, String>::empty(),
    {
        DrmBackendState {
            initialized: false,
            pending_init: true,
            session_active,
            lid_closed: false,
            surfaces: IdMap::new(),
        }
    }

    /// Check if DRM is initialized and ready
    pub fn is_initialized(&self) -> (r: bool)
        ensures
            r == self.initialized,
    {
        self.initialized
    }

    /// Begins opening the device. Gives whether it may be opened: that is tried only once.
    pub fn begin_init(&mut self) -> (r: bool)
        ensures
            r == old(self).pending_init,
            *final(self) == (DrmBackendState { pending_init: false, ..*old(self) }),
    {
        let pending = self.pending_init;
        self.pending_init = false;
        pending
    }

    /// The device is open.
    pub fn device_opened(&mut self)
        ensures
            *final(self) == (DrmBackendState { initialized: true, ..*old(self) }),
    {
        self.initialized = true;
    }

    /// All outputs found at the start are connected: Emacs is told that they are complete and
    /// that the compositor is ready.
    pub fn init_complete(&self, ewm: &mut Ewm)
        requires
            old(ewm).wf(),
        ensures
            final(ewm).wf(),
            *final(ewm) == (Ewm { effects: final(ewm).effects, ..*old(ewm) }),
            final(ewm).effects@ == old(ewm).effects@.push(
                Effect::Event(Event::OutputsComplete),
            ).push(Effect::Event(Event::Ready)),
    {
        ewm.queue_event(Event::OutputsComplete);
        ewm.queue_event(Event::Ready);
    }

    /// The session became active: the device is opened the first time, and woken later.
    pub fn session_activated(&mut self) -> (r: SessionStep)
        ensures
            *final(self) == (DrmBackendState { session_active: true, ..*old(self) }),
            r == if old(self).initialized {
                SessionStep::Resume
            } else {
                SessionStep::Initialize
            },
    {
        self.session_active = true;
        if self.initialized {
            SessionStep::Resume
        } else {
            SessionStep::Initialize
        }
    }

    pub(crate) fn drives_output(&self, output: &str) -> (r: bool)
        ensures
            r == drives(self.surfaces.entries@, output@),
    {
        let mut i: usize = 0;
        while i < self.surfaces.entries.len()
            invariant
                i <= self.surfaces.entries@.len(),
                forall|j: int| 0 <= j < i ==> (#[trigger] self.surfaces.entries@[j]).1@ != output@,
            decreases self.surfaces.entries@.len() - i,
        {
            if str_eq(self.surfaces.entries[i].1.as_str(), output) {
                assert(self.surfaces.entries@[i as int].1@ == output@);
                return true;
            }
            i = i + 1;
        }
        false
    }

    /// Handle session pause (VT switch away)
    pub fn pause(&mut self, ewm: &mut Ewm)
        requires
            old(self).wf(),
            old(ewm).wf(),
        ensures
            final(self).wf(),
            *final(self) == (DrmBackendState { session_active: false, ..*old(self) }),
            final(ewm).wf(),
            paused(*old(ewm), *final(ewm), old(self).initialized, old(self).surfaces.entries@),
    {
        self.session_active = false;
        let ghost before = *ewm;
        if self.initialized {
            self.cancel_timers(ewm);
            self.rest_outputs(ewm);
        } else {
            assert(ewm.effects@ =~= before.effects@ + Seq::<Effect>::empty());
        }
        ewm.cancel_idle_timer();
    }

    /// Check if any output has a redraw queued
    pub fn has_queued_redraws(&self, ewm: &Ewm) -> (r: bool)
        ensures
            r == queued_somewhere(ewm.output_state.entries@),
    {
        any_queued(&ewm.output_state)
    }

    /// Cancels the timers of the outputs in use.
    fn cancel_timers(&self, ewm: &mut Ewm)
        requires
            self.wf(),
            old(ewm).wf(),
        ensures
            final(ewm).wf(),
            *final(ewm) == (Ewm { effects: final(ewm).effects, ..*old(ewm) }),
            final(ewm).effects@ == old(ewm).effects@ + timers_cancelled(
                self.surfaces.entries@,
                old(ewm).output_state@,
            ),
    {
        let ghost before = *ewm;
        let ghost all = self.surfaces.entries@;
        let mut i: usize = 0;
        assert(all.subrange(0, 0) =~= Seq::<(u64, String)>::empty());
        assert(ewm.effects@ =~= before.effects@ + timers_cancelled(
            all.subrange(0, 0),
            before.output_state@,
        ));
        while i < self.surfaces.entries.len()
            invariant
                all == self.surfaces.entries@,
                i <= all.len(),
                before.wf(),
                *ewm == (Ewm { effects: ewm.effects, ..before }),
                ewm.effects@ == before.effects@ + timers_cancelled(
                    all.subrange(0, i as int),
                    before.output_state@,
                ),
            decreases all.len() - i,
        {
            let ghost post = all.subrange(0, i + 1);
            assert(post.drop_last() =~= all.subrange(0, i as int));
            match ewm.output_state.get(self.surfaces.entries[i].1.as_str()) {
                Some(st) => {
                    match st.redraw_state.timer_token() {
                        Some(token) => {
                            ewm.emit(Effect::CancelTimer { token });
                        },
                        None => {},
                    }
                },
                None => {},
            }
            i = i + 1;
            assert(ewm.effects@ =~= before.effects@ + timers_cancelled(post, before.output_state@));
        }
        assert(all.subrange(0, i as int) =~= all);
    }

    /// Puts the outputs in use to rest.
    fn rest_outputs(&self, ewm: &mut Ewm)
        requires
            self.wf(),
            old(ewm).wf(),
        ensures
            final(ewm).wf(),
            *final(ewm) == (Ewm { output_state: final(ewm).output_state, ..*old(ewm) }),
            final(ewm).output_state.entries@ == all_idle(
                old(ewm).output_state.entries@,
                self.surfaces.entries@,
            ),
    {
        let ghost before = *ewm;
        let ghost wanted = all_idle(before.output_state.entries@, self.surfaces.entries@);
        let mut i: usize = 0;
        while i < ewm.output_state.entries.len()
            invariant
                i <= ewm.output_state.entries@.len(),
                before.wf(),
                wanted == all_idle(before.output_state.entries@, self.surfaces.entries@),
                *ewm == (Ewm { output_state: ewm.output_state, ..before }),
                same_names(before.output_state.entries@, ewm.output_state.entries@),
                clocks_ok(ewm.output_state.entries@),
                forall|j: int|
                    0 <= j < i ==> #[trigger] ewm.output_state.entries@[j] == wanted[j],
                forall|j: int|
                    i <= j < ewm.output_state.entries@.len()
                        ==> #[trigger] ewm.output_state.entries@[j]
                        == before.output_state.entries@[j],
            decreases ewm.output_state.entries@.len() - i,
        {
            let name = ewm.output_state.entries[i].0.clone();
            if self.drives_output(name.as_str()) {
                let mut st: OutputState = ewm.output_state.entries[i].1;
                st.redraw_state = RedrawState::Idle;
                ewm.output_state.entries.set(i, (name, st));
            }
            i = i + 1;
        }
        proof {
            crate::outputs::lemma_same_names(before.output_state, ewm.output_state);
            assert(ewm.output_state.entries@ =~= wanted);
        }
    }

    /// The device reported an error: outputs that wait for it are redrawn, lest they wait forever.
    pub fn recover_from_error(&self, ewm: &mut Ewm)
        requires
            self.wf(),
            old(ewm).wf(),
        ensures
            final(ewm).wf(),
            *final(ewm) == (Ewm { output_state: final(ewm).output_state, ..*old(ewm) }),
            final(ewm).output_state.entries@ == if self.initialized {
                all_recovered(old(ewm).output_state.entries@, self.surfaces.entries@)
            } else {
                old(ewm).output_state.entries@
            },
    {
        if !self.initialized {
            return ;
        }
        let ghost before = *ewm;
        let ghost wanted = all_recovered(before.output_state.entries@, self.surfaces.entries@);
        let mut i: usize = 0;
        while i < ewm.output_state.entries.len()
            invariant
                i <= ewm.output_state.entries@.len(),
                before.wf(),
                wanted == all_recovered(before.output_state.entries@, self.surfaces.entries@),
                *ewm == (Ewm { output_state: ewm.output_state, ..before }),
                same_names(before.output_state.entries@, ewm.output_state.entries@),
                clocks_ok(ewm.output_state.entries@),
                forall|j: int|
                    0 <= j < i ==> #[trigger] ewm.output_state.entries@[j] == wanted[j],
                forall|j: int|
                    i <= j < ewm.output_state.entries@.len()
                        ==> #[trigger] ewm.output_state.entries@[j]
                        == before.output_state.entries@[j],
            decreases ewm.output_state.entries@.len() - i,
        {
            let name = ewm.output_state.entries[i].0.clone();
            if self.drives_output(name.as_str()) {
                let mut st: OutputState = ewm.output_state.entries[i].1;
                st.redraw_state = st.redraw_state.recovered();
                ewm.output_state.entries.set(i, (name, st));
            }
            i = i + 1;
        }
        proof {
            crate::outputs::lemma_same_names(before.output_state, ewm.output_state);
            assert(ewm.output_state.entries@ =~= wanted);
        }
    }

    /// The last part of resuming a session: monitors on, the panel off under a closed lid,
    /// everything redrawn, and Emacs told to look again. The first part, waking the device and
    /// looking for displays, comes before.
    pub fn resume(&mut self, ewm: &mut Ewm, now: Duration)
        requires
            old(self).wf(),
            old(ewm).wf(),
        ensures
            final(self).wf(),
            final(ewm).wf(),
            exists|a: Ewm, l: Ewm, r: Ewm, n: Ewm|
                {
                    &&& #[trigger] monitors_on(*old(ewm), a)
                    &&& if old(self).lid_closed {
                        lid_closed_handled(*old(self), a, *final(self), l)
                    } else {
                        l == a && *final(self) == *old(self)
                    }
                    &&& #[trigger] all_redrawn(l, r)
                    &&& #[trigger] activity_told(r, n, now)
                    &&& *final(ewm) == (Ewm { effects: final(ewm).effects, ..n })
                    &&& final(ewm).effects@ == n.effects@.push(
                        Effect::Event(Event::OutputsComplete),
                    )
                },
    {
        let ghost e0 = *ewm;
        let ghost b0 = *self;
        ewm.activate_monitors();
        let ghost a = *ewm;
        assert(monitors_on(e0, a));
        if self.lid_closed {
            self.lid_was_closed(ewm);
        }
        let ghost l = *ewm;
        assert(lid_closed_handled(b0, a, *self, l) || !b0.lid_closed);
        ewm.queue_redraw_all();
        let ghost r = *ewm;
        assert(all_redrawn(l, r));
        ewm.notify_activity(now);
        let ghost n = *ewm;
        assert(activity_told(r, n, now));
        ewm.queue_event(Event::OutputsComplete);
    }

    /// What rendering a frame came to: the output's state follows it.
    pub fn frame_done(
        &self,
        ewm: &mut Ewm,
        output: &String,
        outcome: FrameOutcome,
        target_presentation_time: Duration,
        now: Duration,
    ) -> (r: RenderResult)
        requires
            old(ewm).wf(),
            outcome != FrameOutcome::Unavailable && old(ewm).output_state@.contains_key(output@)
                ==> old(ewm).output_state@[output@].redraw_state.is_due(),
            outcome == FrameOutcome::Queued ==> old(ewm).output_state@.contains_key(output@),
        ensures
            final(ewm).wf(),
            r == match outcome {
                FrameOutcome::Unavailable => RenderResult::Skipped,
                FrameOutcome::Failed => RenderResult::Skipped,
                FrameOutcome::Empty => RenderResult::NoDamage,
                FrameOutcome::Queued => RenderResult::Submitted,
            },
            match outcome {
                FrameOutcome::Unavailable => *final(ewm) == *old(ewm),
                FrameOutcome::Queued => frame_submitted(*old(ewm), *final(ewm), output@),
                _ => vblank_estimated(
                    *old(ewm),
                    *final(ewm),
                    *self,
                    *output,
                    target_presentation_time,
                    now,
                ),
            },
    {
        match outcome {
            FrameOutcome::Unavailable => RenderResult::Skipped,
            FrameOutcome::Queued => {
                let ghost before = *ewm;
                match ewm.output_state.find(output.as_str()) {
                    Some(i) => {
                        let mut st: OutputState = ewm.output_state.entries[i].1;
                        assert(ewm.output_state.entries@[i as int].1.wf());
                        let cancel = st.frame_queued();
                        put_state(&mut ewm.output_state, output.as_str(), st);
                        match cancel {
                            Some(token) => {
                                ewm.emit(Effect::CancelTimer { token });
                            },
                            None => {},
                        }
                        assert(ewm.effects@ =~= before.effects@ + cancel_effects(cancel));
                    },
                    None => {},
                }
                RenderResult::Submitted
            },
            FrameOutcome::Empty => {
                self.queue_estimated_vblank_timer(ewm, output, target_presentation_time, now);
                RenderResult::NoDamage
            },
            FrameOutcome::Failed => {
                self.queue_estimated_vblank_timer(ewm, output, target_presentation_time, now);
                RenderResult::Skipped
            },
        }
    }

    /// Queue an estimated VBlank timer when no frame was submitted.
    ///
    /// Uses the target presentation time for accurate timing,
    /// falling back to refresh interval if target has already passed.
    pub fn queue_estimated_vblank_timer(
        &self,
        ewm: &mut Ewm,
        output: &String,
        target_presentation_time: Duration,
        now: Duration,
    )
        requires
            old(ewm).wf(),
            self.initialized && drives(self.surfaces.entries@, output@) && old(
                ewm,
            ).output_state@.contains_key(output@) ==> old(
                ewm,
            ).output_state@[output@].redraw_state is Queued || old(
                ewm,
            ).output_state@[output@].redraw_state.timer() is Some,
        ensures
            final(ewm).wf(),
            vblank_estimated(
                *old(ewm),
                *final(ewm),
                *self,
                *output,
                target_presentation_time,
                now,
            ),
    {
        if !self.initialized || !self.drives_output(output.as_str()) {
            return ;
        }
        match ewm.output_state.find(output.as_str()) {
            Some(i) => {
                let mut st: OutputState = ewm.output_state.entries[i].1;
                assert(ewm.output_state.entries@[i as int].1.wf());
                let token: u64 = ewm.next_timer;
                let start = st.wait_for_estimated_vblank(target_presentation_time, now, token);
                put_state(&mut ewm.output_state, output.as_str(), st);
                match start {
                    Some(after) => {
                        ewm.next_timer = token.wrapping_add(1);
                        ewm.emit(
                            Effect::StartTimer {
                                token,
                                after,
                                kind: TimerKind::EstimatedVBlank { output: output.clone() },
                            },
                        );
                    },
                    None => {},
                }
            },
            None => {},
        }
    }

    /// Handle estimated VBlank timer firing. A timer that is not the one waited for does nothing.
    pub fn on_estimated_vblank_timer(&self, ewm: &mut Ewm, output: &String, token: u64)
        requires
            self.wf(),
            old(ewm).wf(),
        ensures
            final(ewm).wf(),
            ({
                let b = *old(ewm);
                let st = b.output_state@[output@];
                if !(self.initialized && drives(self.surfaces.entries@, output@)
                    && b.output_state@.contains_key(output@) && st.redraw_state.timer() == Some(
                    token,
                )) {
                    *final(ewm) == b
                } else {
                    exists|mid: Ewm|
                        {
                            &&& #[trigger] state_put(
                                b,
                                mid,
                                output@,
                                OutputState {
                                    redraw_state: st.redraw_state.after_timer(),
                                    frame_callback_sequence: st.frame_callback_sequence.wrapping_add(
                                        1,
                                    ),
                                    ..st
                                },
                            )
                            &&& vblank_followed(
                                mid,
                                *final(ewm),
                                *output,
                                if st.redraw_state.is_due() {
                                    AfterVBlank::Nothing
                                } else if st.unfinished_animations_remain {
                                    AfterVBlank::Redraw
                                } else {
                                    AfterVBlank::FrameCallbacks
                                },
                            )
                        }
                }
            }),
    {
        let ghost b = *ewm;
        if !self.initialized || !self.drives_output(output.as_str()) {
            return ;
        }
        match ewm.output_state.find(output.as_str()) {
            Some(i) => {
                let mut st: OutputState = ewm.output_state.entries[i].1;
                assert(ewm.output_state.entries@[i as int].1.wf());
                let waited = match st.redraw_state.timer_token() {
                    Some(t) => t == token,
                    None => false,
                };
                if !waited {
                    return ;
                }
                let next = st.estimated_vblank_fired();
                put_state(&mut ewm.output_state, output.as_str(), st);
                let ghost mid = *ewm;
                assert(state_put(b, mid, output@, st));
                self.follow_vblank(ewm, output, next);
            },
            None => {},
        }
    }

    fn follow_vblank(&self, ewm: &mut Ewm, output: &String, next: AfterVBlank)
        requires
            old(ewm).wf(),
        ensures
            final(ewm).wf(),
            vblank_followed(*old(ewm), *final(ewm), *output, next),
    {
        match next {
            AfterVBlank::Nothing => {},
            AfterVBlank::Redraw => {
                ewm.queue_redraw(output.as_str());
            },
            AfterVBlank::FrameCallbacks => {
                ewm.emit(Effect::FrameCallbacks { output: output.clone() });
            },
        }
    }

    /// Process a VBlank event of a controller.
    ///
    /// Handles the frame clock, redraw state transitions, and queuing the next redraw or sending
    /// frame callbacks. Gives what clients are told of the frame.
    pub fn process_vblank(
        &self,
        ewm: &mut Ewm,
        crtc: u64,
        monotonic: Option<Duration>,
        sequence: u32,
        now: Duration,
    ) -> (r: Option<Presented>)
        requires
            self.wf(),
            old(ewm).wf(),
            now@ <= MAX_NANOS,
            monotonic is Some ==> monotonic->0@ <= MAX_NANOS,
        ensures
            final(ewm).wf(),
            ({
                let b = *old(ewm);
                let output = self.surfaces@[crtc];
                let st = b.output_state@[output@];
                let hardware = monotonic is Some && monotonic->0@ != 0;
                if !(self.initialized && self.surfaces@.contains_key(crtc)
                    && b.output_state@.contains_key(output@)) {
                    *final(ewm) == b && r is None
                } else {
                    &&& r is Some
                    &&& r->0.time@ == if hardware {
                        monotonic->0@
                    } else {
                        now@
                    }
                    &&& r->0.sequence == sequence
                    &&& r->0.hardware_clock == hardware
                    &&& (match r->0.refresh {
                        Some(d) => st.frame_clock.interval() == Some(d@),
                        None => st.frame_clock.interval() is None,
                    })
                    &&& exists|mid: Ewm, clock: FrameClock|
                        {
                            &&& clock.interval() == st.frame_clock.interval()
                            &&& clock.last() == if r->0.time@ == 0 {
                                st.frame_clock.last()
                            } else {
                                Some(r->0.time@)
                            }
                            &&& #[trigger] state_put(
                                b,
                                mid,
                                output@,
                                OutputState {
                                    redraw_state: RedrawState::Idle,
                                    frame_clock: clock,
                                    ..st
                                },
                            )
                            &&& vblank_followed(
                                mid,
                                *final(ewm),
                                output,
                                if st.redraw_state.redraw_after_vblank()
                                    || st.unfinished_animations_remain {
                                    AfterVBlank::Redraw
                                } else {
                                    AfterVBlank::FrameCallbacks
                                },
                            )
                        }
                }
            }),
    {
        let ghost b = *ewm;
        if !self.initialized {
            return None;
        }
        let output: String = match self.surfaces.get(crtc) {
            Some(o) => o.clone(),
            None => {
                return None;
            },
        };
        let time = presentation_time(monotonic, now);
        let hardware_clock = match monotonic {
            Some(t) => !t.is_zero(),
            None => false,
        };
        match ewm.output_state.find(output.as_str()) {
            Some(i) => {
                let mut st: OutputState = ewm.output_state.entries[i].1;
                assert(ewm.output_state.entries@[i as int].1.wf());
                let next = st.vblank(time);
                put_state(&mut ewm.output_state, output.as_str(), st);
                let ghost mid = *ewm;
                assert(state_put(b, mid, output@, st));
                let refresh = st.frame_clock.refresh_interval();
                self.follow_vblank(ewm, &output, next);
                Some(Presented { time, refresh, sequence: sequence as u64, hardware_clock })
            },
            None => None,
        }
    }

    /// Disconnect an output
    pub fn disconnect_output(&mut self, crtc: u64, ewm: &mut Ewm)
        requires
            old(self).wf(),
            old(ewm).wf(),
        ensures
            final(self).wf(),
            final(ewm).wf(),
            disconnected(*old(self), *old(ewm), *final(self), *final(ewm), crtc),
    {
        if !self.initialized {
            return ;
        }
        match self.surfaces.remove(crtc) {
            Some(output) => {
                ewm.remove_output(&output);
            },
            None => {},
        }
    }

    fn disconnect_all(&mut self, crtcs: &Vec<u64>, ewm: &mut Ewm)
        requires
            old(self).wf(),
            old(ewm).wf(),
        ensures
            final(self).wf(),
            final(ewm).wf(),
            all_disconnected(*old(self), *old(ewm), *final(self), *final(ewm), crtcs@),
            final(self).lid_closed == old(self).lid_closed,
            final(self).initialized == old(self).initialized,
            final(self).session_active == old(self).session_active,
    {
        let ghost b0 = *self;
        let ghost e0 = *ewm;
        let mut i: usize = 0;
        assert(crtcs@.subrange(0, 0) =~= Seq::<u64>::empty());
        while i < crtcs.len()
            invariant
                i <= crtcs@.len(),
                self.wf(),
                ewm.wf(),
                all_disconnected(b0, e0, *self, *ewm, crtcs@.subrange(0, i as int)),
                self.lid_closed == b0.lid_closed,
                self.initialized == b0.initialized,
                self.session_active == b0.session_active,
            decreases crtcs@.len() - i,
        {
            let ghost b = *self;
            let ghost e = *ewm;
            self.disconnect_output(crtcs[i], ewm);
            proof {
                let post = crtcs@.subrange(0, i + 1);
                assert(post.drop_last() =~= crtcs@.subrange(0, i as int));
                lemma_next_disconnect(b0, e0, b, e, *self, *ewm, post);
            }
            i = i + 1;
        }
        assert(crtcs@.subrange(0, i as int) =~= crtcs@);
    }

    fn has_external_monitor(&self, ewm: &Ewm) -> (r: bool)
        ensures
            r == external_monitor(ewm.outputs@),
    {
        let mut i: usize = 0;
        while i < ewm.outputs.len()
            invariant
                i <= ewm.outputs@.len(),
                forall|j: int| 0 <= j < i ==> built_in((#[trigger] ewm.outputs@[j]).name@),
            decreases ewm.outputs@.len() - i,
        {
            if !is_laptop_panel(ewm.outputs[i].name.as_str()) {
                assert(!built_in(ewm.outputs@[i as int].name@));
                return true;
            }
            i = i + 1;
        }
        false
    }

    /// Displays were plugged in or out. Those that are gone are disconnected. Gives the places in
    /// `added` of those that are to be connected; they are connected next, one by one.
    pub fn on_device_changed(
        &mut self,
        ewm: &mut Ewm,
        added: &Vec<(String, u64)>,
        removed: &Vec<u64>,
    ) -> (r: Vec<usize>)
        requires
            old(self).wf(),
            old(ewm).wf(),
        ensures
            final(self).wf(),
            final(ewm).wf(),
            if old(self).session_active && old(self).initialized {
                &&& all_disconnected(*old(self), *old(ewm), *final(self), *final(ewm), removed@)
                &&& r@ == wanted_places(*final(self), *final(ewm), added@)
            } else {
                *final(self) == *old(self) && *final(ewm) == *old(ewm) && r@.len() == 0
            },
    {
        let mut wanted: Vec<usize> = Vec::new();
        if !self.session_active || !self.initialized {
            return wanted;
        }
        self.disconnect_all(removed, ewm);
        let skip_panels = self.lid_closed && self.has_external_monitor(ewm);
        let mut i: usize = 0;
        assert(added@.subrange(0, 0) =~= Seq::<(String, u64)>::empty());
        while i < added.len()
            invariant
                self.wf(),
                i <= added@.len(),
                skip_panels == (self.lid_closed && external_monitor(ewm.outputs@)),
                wanted@ == wanted_places(*self, *ewm, added@.subrange(0, i as int)),
            decreases added@.len() - i,
        {
            assert(added@.subrange(0, i + 1).drop_last() =~= added@.subrange(0, i as int));
            let taken = self.surfaces.contains(added[i].1);
            if !taken && !(skip_panels && is_laptop_panel(added[i].0.as_str())) {
                wanted.push(i);
            }
            i = i + 1;
        }
        assert(added@.subrange(0, i as int) =~= added@);
        wanted
    }

    /// Displays were plugged in or out and the outputs are settled: tells Emacs if any changed.
    pub fn topology_settled(&self, ewm: &mut Ewm, changed: bool)
        requires
            old(ewm).wf(),
        ensures
            final(ewm).wf(),
            *final(ewm) == (Ewm { effects: final(ewm).effects, ..*old(ewm) }),
            final(ewm).effects@ == if changed {
                old(ewm).effects@.push(Effect::Event(Event::OutputsComplete))
            } else {
                old(ewm).effects@
            },
    {
        if changed {
            ewm.queue_event(Event::OutputsComplete);
        }
    }

    /// The lid is closed. With an external monitor: disconnect the panels only. Without one:
    /// deactivate all monitors.
    fn lid_was_closed(&mut self, ewm: &mut Ewm)
        requires
            old(self).wf(),
            old(ewm).wf(),
        ensures
            final(self).wf(),
            final(ewm).wf(),
            lid_closed_handled(*old(self), *old(ewm), *final(self), *final(ewm)),
    {
        let ghost b0 = *self;
        let ghost e0 = *ewm;
        let external = self.has_external_monitor(ewm);
        if external {
            if !self.initialized {
                return ;
            }
            let panels = self.find_panels();
            self.disconnect_all(&panels, ewm);
        }
        let ghost d = *ewm;
        assert(panels_disconnected(b0, e0, *self, d));
        if !external {
            ewm.deactivate_monitors();
        }
        ewm.kill_idle_child();
        ewm.output_heads_changed = true;
        ewm.queue_event(Event::OutputsComplete);
        assert(ewm.effects@ =~= d.effects@ + kill_effects(d.idle_timeout.child_running).push(
            Effect::Event(Event::OutputsComplete),
        ));
    }

    fn find_panels(&self) -> (r: Vec<u64>)
        ensures
            r@ == panel_crtcs(self.surfaces.entries@),
    {
        let ghost all = self.surfaces.entries@;
        let mut panels: Vec<u64> = Vec::new();
        let mut i: usize = 0;
        assert(all.subrange(0, 0) =~= Seq::<(u64, String)>::empty());
        while i < self.surfaces.entries.len()
            invariant
                all == self.surfaces.entries@,
                i <= all.len(),
                panels@ == panel_crtcs(all.subrange(0, i as int)),
            decreases all.len() - i,
        {
            assert(all.subrange(0, i + 1).drop_last() =~= all.subrange(0, i as int));
            if is_laptop_panel(self.surfaces.entries[i].1.as_str()) {
                panels.push(self.surfaces.entries[i].0);
            }
            i = i + 1;
        }
        assert(all.subrange(0, i as int) =~= all);
        panels
    }

    /// The lid was opened or closed. Gives whether panels are to be connected now, after which
    /// `lid_opened` is called.
    pub fn handle_lid_state(&mut self, ewm: &mut Ewm, is_closed: bool) -> (r: bool)
        requires
            old(self).wf(),
            old(ewm).wf(),
        ensures
            final(self).wf(),
            final(ewm).wf(),
            r == (old(self).lid_closed && !is_closed && old(self).initialized),
            if old(self).lid_closed == is_closed {
                *final(self) == *old(self) && *final(ewm) == *old(ewm)
            } else if is_closed {
                lid_closed_handled(
                    (DrmBackendState { lid_closed: true, ..*old(self) }),
                    *old(ewm),
                    *final(self),
                    *final(ewm),
                )
            } else {
                *final(self) == (DrmBackendState { lid_closed: false, ..*old(self) })
                    && *final(ewm) == *old(ewm)
            },
    {
        if self.lid_closed == is_closed {
            return false;
        }
        self.lid_closed = is_closed;
        if is_closed {
            self.lid_was_closed(ewm);
            false
        } else {
            self.initialized
        }
    }

    /// Whether a connector that the device still knows is a panel to be connected when the lid
    /// opens.
    pub fn is_missing_panel(&self, name: &str, crtc: u64, connected: bool) -> (r: bool)
        requires
            self.wf(),
        ensures
            r == (connected && !self.surfaces@.contains_key(crtc) && built_in(name@)),
    {
        connected && !self.surfaces.contains(crtc) && is_laptop_panel(name)
    }

    /// The lid is open and the panels are connected: monitors on, and the session awake.
    pub fn lid_opened(&self, ewm: &mut Ewm, now: Duration)
        requires
            old(ewm).wf(),
        ensures
            final(ewm).wf(),
            exists|a: Ewm, w: Ewm|
                {
                    &&& #[trigger] monitors_on(*old(ewm), a)
                    &&& #[trigger] awake(a, w, now)
                    &&& *final(ewm) == (Ewm {
                        output_heads_changed: true,
                        effects: final(ewm).effects,
                        ..w
                    })
                    &&& final(ewm).effects@ == w.effects@.push(
                        Effect::Event(Event::OutputsComplete),
                    )
                },
    {
        let ghost e0 = *ewm;
        ewm.activate_monitors();
        let ghost a = *ewm;
        assert(monitors_on(e0, a));
        ewm.wake_from_idle(now);
        let ghost w = *ewm;
        assert(awake(a, w, now));
        ewm.output_heads_changed = true;
        ewm.queue_event(Event::OutputsComplete);
    }
}

/// The state `after` is `before` with the monitors on.
pub open spec fn monitors_on(before: Ewm, after: Ewm) -> bool {
    if before.monitors_active {
        after == before
    } else {
        &&& after == (Ewm { monitors_active: true, output_state: after.output_state, ..before })
        &&& after.output_state.entries@ == all_requested(before.output_state.entries@)
    }
}

/// The built-in panels are disconnected if there is an external monitor.
pub open spec fn panels_disconnected(
    b0: DrmBackendState,
    e0: Ewm,
    b1: DrmBackendState,
    e1: Ewm,
) -> bool {
    if external_monitor(e0.outputs@) {
        all_disconnected(b0, e0, b1, e1, panel_crtcs(b0.surfaces.entries@))
    } else {
        b1 == b0 && e1 == e0
    }
}

/// The state after the lid was closed: with an external monitor the panels are disconnected,
/// without one all monitors are off.
pub open spec fn lid_closed_handled(
    b0: DrmBackendState,
    e0: Ewm,
    b1: DrmBackendState,
    e1: Ewm,
) -> bool {
    if external_monitor(e0.outputs@) && !b0.initialized {
        b1 == b0 && e1 == e0
    } else {
        exists|d: Ewm|
            {
                &&& #[trigger] panels_disconnected(b0, e0, b1, d)
                &&& e1 == (Ewm {
                    monitors_active: d.monitors_active && external_monitor(e0.outputs@),
                    idle_timeout: IdleTimeoutState { child_running: false, ..d.idle_timeout },
                    output_heads_changed: true,
                    effects: e1.effects,
                    ..d
                })
                &&& e1.effects@ == d.effects@ + kill_effects(d.idle_timeout.child_running).push(
                    Effect::Event(Event::OutputsComplete),
                )
            }
    }
}

} // verus!
