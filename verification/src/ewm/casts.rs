//! What screen casts show, and when they get a frame.
use super::outputs::whole_hertz;
use super::Ewm;
use crate::dbus::{CastTarget, OutputInfo as BusOutputInfo};
use crate::effect::Effect;
use crate::geometry::Size;
use crate::layout::LayoutEntry;
use crate::outputs::one_requested;
use crate::pipewire::stream::{
    cast_size, extra_delay, Cast, CastState, FramePacing, VideoParams, CAST_DELAY_ALLOWANCE,
};
use crate::text::str_eq;
use crate::time::{Duration, MAX_NANOS};
use vstd::prelude::*;

verus! {

/// The pixel format with transparency.
pub const FORMAT_ARGB8888: u32 = 0x3432_5241;

/// The pixel format without transparency.
pub const FORMAT_XRGB8888: u32 = 0x3432_5258;

/// The refresh rate where none is known.
pub const DEFAULT_REFRESH: u32 = 60;

/// What is done with a cast after an output was rendered.
#[derive(Clone, Copy, Debug, PartialEq, Eq, Structural)]
pub enum CastPlan {
    /// It failed and is stopped.
    Stop,
    /// Nothing.
    Skip,
    /// It shows this output.
    Output,
    /// It shows this window, which is on this output.
    Window(u64),
}

/// What is done with a cast after the output `output` was rendered.
pub open spec fn plan_of(e: Ewm, cast: Cast, output: Seq<char>) -> CastPlan {
    if cast.had_error {
        CastPlan::Stop
    } else if !cast.is_active {
        CastPlan::Skip
    } else {
        match cast.target {
            CastTarget::Output { name } => if e.space@.contains_key(name@) && name@ == output
                && cast.state is Ready {
                CastPlan::Output
            } else {
                CastPlan::Skip
            },
            CastTarget::Window { id } => if e.window_cast_output@.contains_key(id)
                && e.window_cast_output@[id]@ == output {
                CastPlan::Window(id)
            } else {
                CastPlan::Skip
            },
        }
    }
}

/// What a window's cast does once the output was rendered.
#[derive(Debug)]
pub struct WindowCast {
    /// New formats to offer, because the window changed its size.
    pub offer: Option<VideoParams>,
    /// How the frame is paced; `None` where there is no frame because the window is gone or the
    /// size is being negotiated.
    pub pacing: Option<FramePacing>,
}

/// The first output of the name on the session bus.
pub open spec fn bus_output(s: Seq<BusOutputInfo>, name: Seq<char>) -> Option<BusOutputInfo>
    decreases s.len(),
{
    if s.len() == 0 {
        None
    } else if bus_output(s.drop_last(), name) is Some {
        bus_output(s.drop_last(), name)
    } else if s.last().name@ == name {
        Some(s.last())
    } else {
        None
    }
}

/// The refresh rate of the output that the window is cast from, in hertz.
pub open spec fn window_refresh(e: Ewm, id: u64) -> u32 {
    if e.window_cast_output@.contains_key(id) && e.space@.contains_key(
        e.window_cast_output@[id]@,
    ) && e.space@[e.window_cast_output@[id]@].mode_size is Some {
        whole_hertz(e.space@[e.window_cast_output@[id]@].refresh)
    } else {
        DEFAULT_REFRESH
    }
}

/// The size and refresh rate that a cast starts with.
pub open spec fn cast_start(e: Ewm, target: CastTarget, window_size: Size) -> Option<(Size, u32)> {
    match target {
        CastTarget::Output { name } => match bus_output(e.dbus_outputs@, name@) {
            Some(o) => Some((Size { w: o.width, h: o.height }, o.refresh)),
            None => None,
        },
        CastTarget::Window { id } => if e.windows@.contains_key(id) {
            Some((window_size, window_refresh(e, id)))
        } else {
            None
        },
    }
}

/// The modifiers that the renderer supports for the format.
pub open spec fn modifiers_for(formats: Seq<(u32, u64)>, code: u32) -> Seq<i64>
    decreases formats.len(),
{
    if formats.len() == 0 {
        Seq::empty()
    } else {
        let head = modifiers_for(formats.drop_last(), code);
        if formats.last().0 == code {
            head.push(formats.last().1 as i64)
        } else {
            head
        }
    }
}

/// The modifiers that a cast offers: those of its pixel format, or the linear one if the renderer
/// cannot be asked. Windows are cast with transparency.
pub fn cast_modifiers(formats: Option<&Vec<(u32, u64)>>, alpha: bool) -> (r: Vec<i64>)
    ensures
        r@ == match formats {
            Some(f) => modifiers_for(
                f@,
                if alpha {
                    FORMAT_ARGB8888
                } else {
                    FORMAT_XRGB8888
                },
            ),
            None => seq![0i64],
        },
{
    let code: u32 = if alpha {
        FORMAT_ARGB8888
    } else {
        FORMAT_XRGB8888
    };
    let mut out: Vec<i64> = Vec::new();
    match formats {
        Some(f) => {
            let mut i: usize = 0;
            assert(f@.subrange(0, 0) =~= Seq::<(u32, u64)>::empty());
            while i < f.len()
                invariant
                    i <= f@.len(),
                    out@ == modifiers_for(f@.subrange(0, i as int), code),
                decreases f@.len() - i,
            {
                assert(f@.subrange(0, i + 1).drop_last() =~= f@.subrange(0, i as int));
                if f[i].0 == code {
                    out.push(
                        #[verifier::truncate]
                        (f[i].1 as i64),
                    );
                }
                i = i + 1;
            }
            assert(f@.subrange(0, i as int) =~= f@);
        },
        None => {
            out.push(0);
            assert(out@ =~= seq![0i64]);
        },
    }
    out
}

/// The first entry of the surface in a list.
pub open spec fn first_entry_of(entries: Seq<LayoutEntry>, id: u64) -> Option<LayoutEntry>
    decreases entries.len(),
{
    if entries.len() == 0 {
        None
    } else if first_entry_of(entries.drop_last(), id) is Some {
        first_entry_of(entries.drop_last(), id)
    } else if entries.last().id == id {
        Some(entries.last())
    } else {
        None
    }
}

/// Where the window stands on the output, in the global space, and how large it is there.
pub open spec fn cast_window_place(e: Ewm, output: Seq<char>, id: u64) -> Option<
    (int, int, LayoutEntry),
> {
    if e.space@.contains_key(output) && e.layouts.outputs@.contains_key(output) {
        let m = e.space@[output];
        match first_entry_of(e.layouts.outputs@[output]@, id) {
            Some(entry) => Some(
                (
                    m.geo.loc.x + m.zone.loc.x + entry.x,
                    m.geo.loc.y + m.zone.loc.y + entry.y,
                    entry,
                ),
            ),
            None => None,
        }
    } else {
        None
    }
}

impl Ewm {
    /// Find which output a window is on (by compositor window ID).
    /// Returns the output name, or None if the window is not found.
    pub fn window_output_name(&self, window_id: u64) -> (r: Option<String>)
        requires
            self.wf(),
        ensures
            r == if self.window_cast_output@.contains_key(window_id) {
                Some(self.window_cast_output@[window_id])
            } else {
                None
            },
    {
        match self.window_cast_output.get(window_id) {
            Some(n) => Some(n.clone()),
            None => None,
        }
    }

    /// Decides what is done with a cast after an output was rendered.
    pub fn plan_cast(&self, cast: &Cast, output: &str) -> (r: CastPlan)
        requires
            self.wf(),
        ensures
            r == plan_of(*self, *cast, output@),
    {
        if cast.has_error() {
            return CastPlan::Stop;
        }
        if !cast.is_streaming() {
            return CastPlan::Skip;
        }
        match &cast.target {
            CastTarget::Output { name } => {
                if self.space.contains(name.as_str()) && str_eq(name.as_str(), output)
                    && !cast.is_resize_pending() {
                    CastPlan::Output
                } else {
                    CastPlan::Skip
                }
            },
            CastTarget::Window { id } => {
                match self.window_cast_output.get(*id) {
                    Some(n) => {
                        if str_eq(n.as_str(), output) {
                            CastPlan::Window(*id)
                        } else {
                            CastPlan::Skip
                        }
                    },
                    None => CastPlan::Skip,
                }
            },
        }
    }

    /// A window's cast after its output was rendered: the stream follows the window's size, and
    /// a frame is due once the size is settled and enough time has passed.
    pub fn window_cast_step(
        &self,
        cast: &mut Cast,
        window_id: u64,
        window_size: Size,
        refresh: Option<i32>,
        target_frame_time: Duration,
        now: Duration,
        token: u64,
    ) -> (r: WindowCast)
        requires
            self.wf(),
            target_frame_time@ + old(cast).min_time_between_frames@ <= MAX_NANOS,
        ensures
            ({
                let hz = match refresh {
                    Some(m) => whole_hertz(m),
                    None => DEFAULT_REFRESH,
                };
                let same = old(cast).state.expected() == cast_size(window_size);
                if !self.windows@.contains_key(window_id) {
                    *final(cast) == *old(cast) && r.offer is None && r.pacing is None
                } else if !same {
                    &&& *final(cast) == (Cast {
                        size: cast_size(window_size),
                        refresh: hz,
                        state: CastState::ResizePending { pending_size: cast_size(window_size) },
                        ..*old(cast)
                    })
                    &&& r.offer is Some
                    &&& crate::pipewire::stream::offers(
                        r.offer->0,
                        cast_size(window_size),
                        hz,
                        old(cast).render_formats@,
                        old(cast).alpha,
                    )
                    &&& r.pacing is None
                } else if !(old(cast).state is Ready) {
                    *final(cast) == *old(cast) && r.offer is None && r.pacing is None
                } else {
                    let d = extra_delay(
                        old(cast).last_frame_time@,
                        old(cast).min_time_between_frames@,
                        target_frame_time@,
                    );
                    &&& r.offer is None
                    &&& r.pacing is Some
                    &&& r.pacing->0.delayed == (d >= CAST_DELAY_ALLOWANCE)
                    &&& *final(cast) == (Cast {
                        scheduled_redraw: final(cast).scheduled_redraw,
                        ..*old(cast)
                    })
                    &&& final(cast).scheduled_redraw == if d < CAST_DELAY_ALLOWANCE {
                        None
                    } else if old(cast).scheduled_redraw is Some {
                        old(cast).scheduled_redraw
                    } else {
                        Some(token)
                    }
                    &&& r.pacing->0.cancel == if d < CAST_DELAY_ALLOWANCE {
                        old(cast).scheduled_redraw
                    } else {
                        None
                    }
                    &&& (r.pacing->0.start is Some) == (d >= CAST_DELAY_ALLOWANCE && old(
                        cast,
                    ).scheduled_redraw is None)
                    &&& r.pacing->0.start is Some ==> r.pacing->0.start->0@ == {
                        let at = target_frame_time@ + d;
                        if at > now@ {
                            at - now@
                        } else {
                            0
                        }
                    }
                }
            }),
    {
        if !self.windows.contains(window_id) {
            return WindowCast { offer: None, pacing: None };
        }
        let hz: u32 = match refresh {
            Some(m) => super::outputs::hertz(m),
            None => DEFAULT_REFRESH,
        };
        let offer = cast.ensure_size(window_size, hz);
        if cast.is_resize_pending() {
            return WindowCast { offer, pacing: None };
        }
        let pacing = cast.check_time_and_schedule(target_frame_time, now, token);
        WindowCast { offer, pacing: Some(pacing) }
    }

    /// The size and refresh rate that a cast starts with. `None` for an output or a window that
    /// is not there. `window_size` is that of the window with its popups, in physical pixels.
    pub fn cast_info(&self, target: &CastTarget, window_size: Size) -> (r: Option<(Size, u32)>)
        requires
            self.wf(),
        ensures
            r == cast_start(*self, *target, window_size),
    {
        match target {
            CastTarget::Output { name } => {
                match self.find_bus_output(name.as_str()) {
                    Some(i) => {
                        let o = &self.dbus_outputs[i];
                        Some((Size { w: o.width, h: o.height }, o.refresh))
                    },
                    None => None,
                }
            },
            CastTarget::Window { id } => {
                if self.windows.contains(*id) {
                    Some((window_size, self.refresh_of_window(*id)))
                } else {
                    None
                }
            },
        }
    }

    fn find_bus_output(&self, name: &str) -> (r: Option<usize>)
        ensures
            match r {
                Some(i) => i < self.dbus_outputs@.len() && bus_output(self.dbus_outputs@, name@)
                    == Some(self.dbus_outputs@[i as int]),
                None => bus_output(self.dbus_outputs@, name@) is None,
            },
    {
        let ghost all = self.dbus_outputs@;
        let mut found: Option<usize> = None;
        let mut i: usize = 0;
        while i < self.dbus_outputs.len()
            invariant
                all == self.dbus_outputs@,
                i <= all.len(),
                match found {
                    Some(k) => k < i && bus_output(all.subrange(0, i as int), name@) == Some(
                        all[k as int],
                    ),
                    None => bus_output(all.subrange(0, i as int), name@) is None,
                },
            decreases all.len() - i,
        {
            assert(all.subrange(0, i + 1).drop_last() =~= all.subrange(0, i as int));
            if found.is_none() && str_eq(self.dbus_outputs[i].name.as_str(), name) {
                found = Some(i);
            }
            i = i + 1;
        }
        assert(all.subrange(0, i as int) =~= all);
        found
    }

    fn refresh_of_window(&self, id: u64) -> (r: u32)
        requires
            self.wf(),
        ensures
            r == window_refresh(*self, id),
    {
        match self.window_cast_output.get(id) {
            Some(n) => {
                match self.space.get(n.as_str()) {
                    Some(m) => {
                        if m.mode_size.is_some() {
                            super::outputs::hertz(m.refresh)
                        } else {
                            DEFAULT_REFRESH
                        }
                    },
                    None => DEFAULT_REFRESH,
                }
            },
            None => DEFAULT_REFRESH,
        }
    }

    /// A cast began.
    pub fn cast_started(&mut self, session_id: u64, target: CastTarget)
        requires
            old(self).wf(),
        ensures
            final(self).wf(),
            *final(self) == (Ewm { screen_casts: final(self).screen_casts, ..*old(self) }),
            final(self).screen_casts@ == old(self).screen_casts@.insert(session_id, target),
    {
        self.screen_casts.insert(session_id, target);
    }

    /// PipeWire is gone, and with it all casts.
    pub fn pipewire_lost(&mut self)
        requires
            old(self).wf(),
        ensures
            final(self).wf(),
            *final(self) == (Ewm {
                screen_casts: final(self).screen_casts,
                effects: final(self).effects,
                ..*old(self)
            }),
            final(self).screen_casts@ == Map::<u64, CastTarget>::empty(),
            final(self).effects@ == old(self).effects@.push(Effect::DropCasts),
    {
        self.screen_casts = crate::tables::IdMap::new();
        self.emit(Effect::DropCasts);
    }

    /// A running stream got its first buffer of a new size: what it shows is redrawn.
    pub fn redraw_cast_target(&mut self, target: &CastTarget)
        requires
            old(self).wf(),
        ensures
            final(self).wf(),
            *final(self) == (Ewm { output_state: final(self).output_state, ..*old(self) }),
            final(self).output_state.entries@ == match cast_output(*old(self), *target) {
                Some(n) => if old(self).space@.contains_key(n) {
                    one_requested(old(self).output_state.entries@, n)
                } else {
                    old(self).output_state.entries@
                },
                None => old(self).output_state.entries@,
            },
    {
        let name: Option<String> = match target {
            CastTarget::Output { name } => Some(name.clone()),
            CastTarget::Window { id } => self.window_output_name(*id),
        };
        match name {
            Some(n) => {
                if self.space.contains(n.as_str()) {
                    self.queue_redraw(n.as_str());
                }
            },
            None => {},
        }
    }

    /// Where the window stands on the output, for placing the cursor in its cast. Coordinates are
    /// in the global space.
    pub fn window_on_output(&self, output: &str, id: u64) -> (r: Option<(i64, i64, LayoutEntry)>)
        requires
            self.wf(),
        ensures
            match (r, cast_window_place(*self, output@, id)) {
                (Some((x, y, e)), Some((sx, sy, se))) => x == sx && y == sy && e == se,
                (None, None) => true,
                _ => false,
            },
    {
        match (self.space.get(output), self.layouts.outputs.get(output)) {
            (Some(m), Some(entries)) => {
                let mut found: Option<LayoutEntry> = None;
                let mut i: usize = 0;
                while i < entries.len()
                    invariant
                        i <= entries@.len(),
                        found == first_entry_of(entries@.subrange(0, i as int), id),
                    decreases entries@.len() - i,
                {
                    assert(entries@.subrange(0, i + 1).drop_last() =~= entries@.subrange(
                        0,
                        i as int,
                    ));
                    if found.is_none() && entries[i].id == id {
                        found = Some(entries[i]);
                    }
                    i = i + 1;
                }
                assert(entries@.subrange(0, i as int) =~= entries@);
                match found {
                    Some(e) => Some(
                        (
                            m.geo.loc.x as i64 + m.zone.loc.x as i64 + e.x as i64,
                            m.geo.loc.y as i64 + m.zone.loc.y as i64 + e.y as i64,
                            e,
                        ),
                    ),
                    None => None,
                }
            },
            _ => None,
        }
    }
}

/// The output that a cast is drawn with.
pub open spec fn cast_output(e: Ewm, target: CastTarget) -> Option<Seq<char>> {
    match target {
        CastTarget::Output { name } => Some(name@),
        CastTarget::Window { id } => if e.window_cast_output@.contains_key(id) {
            Some(e.window_cast_output@[id]@)
        } else {
            None
        },
    }
}

} // verus!
