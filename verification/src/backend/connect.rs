//! Connecting displays and applying output configurations.
use crate::backend::drm::{
    is_fastest, is_near, is_nearest, preferred_of, refresh_interval, resolve_drm_mode, select_mode,
    timings_ok, DrmMode,
};
use crate::backend::drm_state::{drives, ConnectorInfo, DrmBackendState};
use crate::backend::{transform_to_int, Transform};
use crate::event::{OutputInfo, OutputMode};
use crate::ewm::outputs::{config_changed, output_added, place_ok, CurrentOutput};
use crate::ewm::Ewm;
use crate::frame_clock::FrameClock;
use crate::geometry::{Point, Rect, Size};
use crate::layout::MappedOutput;
use crate::outputs::{all_locked, all_requested, default_config, one_set, put_state, OutputConfig};
use crate::redraw::{LockRenderState, OutputState, RedrawState};
use crate::time::Duration;
use vstd::prelude::*;
use vstd::string::*;

verus! {

/// The configuration of an output, or the default one.
pub open spec fn config_of(e: Ewm, name: Seq<char>) -> OutputConfig {
    if e.output_config@.contains_key(name) {
        e.output_config@[name]
    } else {
        default_config()
    }
}

/// Where a new output goes: where its configuration says, else to the right of all others.
pub open spec fn start_position(e: Ewm, name: Seq<char>) -> Point {
    match config_of(e, name).position {
        Some((x, y)) => Point { x, y },
        None => Point { x: e.output_size.w, y: 0 },
    }
}

/// The transform that an output starts with.
pub open spec fn start_transform(e: Ewm, name: Seq<char>) -> Transform {
    match config_of(e, name).transform {
        Some(t) => t,
        None => Transform::Normal,
    }
}

/// The scale that an output starts with, in 120ths.
pub open spec fn start_scale(e: Ewm, name: Seq<char>) -> u32 {
    match config_of(e, name).scale_120 {
        Some(s) => s,
        None => 120,
    }
}

/// The place of an output as it is mapped at a point.
pub open spec fn mapped_at(at: Point, cur: CurrentOutput) -> MappedOutput {
    MappedOutput {
        geo: Rect { loc: at, size: cur.size },
        size: cur.size,
        zone: cur.zone,
        mode_size: Some(cur.mode_size),
        refresh: cur.refresh,
    }
}

/// A mode's timing fits the arithmetic of refresh intervals, and a refresh takes less than a
/// second.
pub open spec fn mode_usable(m: DrmMode) -> bool {
    &&& m.has_timing()
    &&& m.clock != 0 ==> m.frame_work() + m.clock_rate() / 2 <= u64::MAX
    &&& m.interval_nanos() < 1_000_000_000
}

impl DrmMode {
    /// Whether an output can run in this mode.
    pub fn is_usable(&self) -> (r: bool)
        ensures
            r == mode_usable(*self),
    {
        if self.htotal == 0 || self.vtotal == 0 {
            return false;
        }
        let h: u128 = self.htotal as u128;
        let v: u128 = self.vtotal as u128;
        assert(0 <= h * v <= 0xffff * 0xffff) by (nonlinear_arith)
            requires
                h <= 0xffff,
                v <= 0xffff,
        ;
        let mut work: u128 = h * v * 1_000_000;
        if self.dblscan {
            work = work * 2;
        }
        if self.vscan > 1 {
            let s: u128 = self.vscan as u128;
            assert(0 <= work * s <= 0x1_0000_0000_0000_0000 * 0xffff) by (nonlinear_arith)
                requires
                    work <= 0x1_0000_0000_0000_0000,
                    s <= 0xffff,
            ;
            work = work * s;
        }
        let rate: u128 = if self.interlace {
            self.clock as u128 * 2
        } else {
            self.clock as u128
        };
        if self.clock != 0 && work + rate / 2 > u64::MAX as u128 {
            return false;
        }
        refresh_interval(self).less(&Duration::from_secs(1))
    }
}

/// What is told of a mode.
pub open spec fn told_mode(m: DrmMode) -> OutputMode {
    OutputMode {
        width: m.width as i32,
        height: m.height as i32,
        refresh: (m.millihertz() as u64) as i32,
        preferred: m.preferred,
    }
}

fn told_modes(modes: &Vec<DrmMode>) -> (r: Vec<OutputMode>)
    requires
        forall|i: int| 0 <= i < modes@.len() ==> (#[trigger] modes@[i]).has_timing(),
    ensures
        r@ == modes@.map_values(|m: DrmMode| told_mode(m)),
{
    let mut out: Vec<OutputMode> = Vec::new();
    let mut i: usize = 0;
    while i < modes.len()
        invariant
            forall|i: int| 0 <= i < modes@.len() ==> (#[trigger] modes@[i]).has_timing(),
            i <= modes@.len(),
            out@.len() == i,
            forall|j: int| 0 <= j < i ==> #[trigger] out@[j] == told_mode(modes@[j]),
        decreases modes@.len() - i,
    {
        assert(modes@[i as int].has_timing());
        let m: DrmMode = modes[i];
        out.push(
            OutputMode {
                width: m.width as i32,
                height: m.height as i32,
                refresh: m.refresh(),
                preferred: m.preferred,
            },
        );
        i = i + 1;
    }
    assert(out@ =~= modes@.map_values(|m: DrmMode| told_mode(m)));
    out
}

/// `info` tells Emacs of the connector at its place.
pub open spec fn tells(
    info: OutputInfo,
    c: ConnectorInfo,
    at: Point,
    scale_120: u32,
    transform: Transform,
) -> bool {
    &&& info.name == c.name
    &&& match c.make {
        Some(m) => info.make == m,
        None => info.make@ == "Unknown"@,
    }
    &&& match c.model {
        Some(m) => info.model == m,
        None => info.model@ == "Unknown"@,
    }
    &&& info.width_mm == match c.size_mm {
        Some((w, _)) => w as i32,
        None => 0,
    }
    &&& info.height_mm == match c.size_mm {
        Some((_, h)) => h as i32,
        None => 0,
    }
    &&& info.x == at.x
    &&& info.y == at.y
    &&& info.scale_120 == scale_120
    &&& info.transform == transform.number() as i32
    &&& info.modes@ == c.modes@.map_values(|m: DrmMode| told_mode(m))
}

/// The state `after` is `before` with a redraw state for a new output. While the session is
/// locked the output counts as locked, so that it does not hold up the lock.
pub open spec fn state_made(
    before: Ewm,
    after: Ewm,
    name: String,
    interval: nat,
    size: Size,
) -> bool {
    &&& after == (Ewm { output_state: after.output_state, ..before })
    &&& exists|st: OutputState|
        {
            &&& after.output_state.entries@ == #[trigger] before.output_state.entries_with(name, st)
            &&& st.wf()
            &&& st.frame_clock.last() is None
            &&& st.frame_clock.interval() == if interval == 0 {
                None::<nat>
            } else {
                Some(interval)
            }
            &&& st == (OutputState {
                redraw_state: RedrawState::Queued,
                frame_clock: st.frame_clock,
                unfinished_animations_remain: false,
                lock_surface: None,
                lock_render_state: if before.lock_state is Unlocked {
                    LockRenderState::Unlocked
                } else {
                    LockRenderState::Locked
                },
                lock_buffer_size: size,
                frame_callback_sequence: 0,
                backdrop_size: size,
            })
        }
}

/// The state `after` is `before` with the output placed, unless its configuration disables it.
pub open spec fn output_placed(before: Ewm, after: Ewm, name: String, m: MappedOutput) -> bool {
    if config_of(before, name@).enabled {
        &&& after == (Ewm { space: after.space, ..before })
        &&& after.space.entries@ == before.space.entries_with(name, m)
    } else {
        after == before
    }
}

/// The display on a connector is in use: it has a redraw state and a place, and Emacs knows it.
pub open spec fn output_connected(
    e0: Ewm,
    e1: Ewm,
    c: ConnectorInfo,
    mode: DrmMode,
    cur: CurrentOutput,
) -> bool {
    let at = start_position(e0, c.name@);
    exists|a: Ewm, b: Ewm, info: OutputInfo|
        {
            &&& #[trigger] state_made(e0, a, c.name, mode.interval_nanos() as nat, cur.size)
            &&& #[trigger] output_placed(a, b, c.name, mapped_at(at, cur))
            &&& tells(
                info,
                c,
                at,
                start_scale(e0, c.name@),
                start_transform(e0, c.name@),
            )
            &&& #[trigger] output_added(b, e1, info, cur)
        }
}

/// The state `after` is `before` with an output disabled: taken off the global space.
pub open spec fn output_disabled(before: Ewm, after: Ewm, name: Seq<char>) -> bool {
    &&& after == (Ewm { space: after.space, output_state: after.output_state, ..before })
    &&& after.space@ == before.space@.remove(name)
    &&& after.output_state.entries@ == all_requested(before.output_state.entries@)
}

/// What a configuration asks of the hardware.
#[derive(Clone, Copy, Debug)]
pub struct ConfigPlan {
    pub mode: Option<DrmMode>,
    pub scale_120: Option<u32>,
    pub transform: Option<Transform>,
    pub position: Option<(i32, i32)>,
}

/// Where an output is after its configuration was applied.
pub open spec fn moved_to(m: MappedOutput, position: Option<(i32, i32)>) -> Point {
    match position {
        Some((x, y)) => Point { x, y },
        None => m.geo.loc,
    }
}

/// The state `after` is `before` with the output at its new place.
pub open spec fn output_moved(before: Ewm, after: Ewm, name: String, m: MappedOutput) -> bool {
    &&& after == (Ewm { space: after.space, ..before })
    &&& after.space.entries@ == before.space.entries_with(name, m)
}

/// An output's state with another frame clock.
pub open spec fn with_clock(st: OutputState, clock: FrameClock) -> OutputState {
    OutputState { frame_clock: clock, ..st }
}

/// The state `after` is `before` with a new frame clock for the output, if it has a new mode.
pub open spec fn clock_replaced(
    before: Ewm,
    after: Ewm,
    name: Seq<char>,
    mode: Option<DrmMode>,
) -> bool {
    if mode is Some && before.output_state@.contains_key(name) {
        &&& after == (Ewm { output_state: after.output_state, ..before })
        &&& exists|clock: FrameClock|
            {
                &&& after.output_state.entries@ == one_set(
                    before.output_state.entries@,
                    name,
                    #[trigger] with_clock(before.output_state@[name], clock),
                )
                &&& clock.last() is None
                &&& clock.interval() == if mode->0.interval_nanos() == 0 {
                    None::<nat>
                } else {
                    Some(mode->0.interval_nanos() as nat)
                }
            }
    } else {
        after == before
    }
}

/// The state `after` is `before` with a configuration that the hardware took noted everywhere.
pub open spec fn config_taken(
    before: Ewm,
    after: Ewm,
    name: String,
    mode: Option<DrmMode>,
    position: Option<(i32, i32)>,
    cur: CurrentOutput,
) -> bool {
    let m = mapped_at(moved_to(before.space@[name@], position), cur);
    exists|a: Ewm, b: Ewm|
        {
            &&& #[trigger] output_moved(before, a, name, m)
            &&& #[trigger] clock_replaced(a, b, name@, mode)
            &&& config_changed(b, after, name, cur)
        }
}

impl Ewm {
    fn config_or_default(&self, name: &str) -> (r: OutputConfig)
        requires
            self.wf(),
        ensures
            r == config_of(*self, name@),
    {
        match self.output_config.get(name) {
            Some(c) => *c,
            None => OutputConfig::default(),
        }
    }
}

/// Chooses the mode of a display: the configured one where it has it, else the one it prefers.
pub fn choose_mode(ewm: &Ewm, c: &ConnectorInfo) -> (r: Option<DrmMode>)
    requires
        ewm.wf(),
        config_of(*ewm, c.name@).mode matches Some((w, h, _)) ==> timings_ok(c.modes@, w, h),
    ensures
        r is Some <==> c.modes@.len() > 0,
        config_of(*ewm, c.name@).mode is None ==> r == preferred_of(c.modes@),
        config_of(*ewm, c.name@).mode matches Some((w, h, Some(hz))) ==> (r == preferred_of(
            c.modes@,
        ) && forall|j: int|
            0 <= j < c.modes@.len() ==> !is_near(#[trigger] c.modes@[j], w, h, hz)) || exists|
            i: int,
        |
            #![trigger c.modes@[i]]
            is_nearest(c.modes@, w, h, hz, i) && r == Some(c.modes@[i]),
        config_of(*ewm, c.name@).mode matches Some((w, h, None)) ==> (r == preferred_of(c.modes@)
            && forall|j: int|
            0 <= j < c.modes@.len() ==> !(#[trigger] c.modes@[j]).is_size(w, h)) || exists|
            i: int,
        |
            #![trigger c.modes@[i]]
            is_fastest(c.modes@, w, h, i) && r == Some(c.modes@[i]),
{
    let config = ewm.config_or_default(c.name.as_str());
    select_mode(&c.modes, config.mode)
}

fn describe(c: &ConnectorInfo, at: Point, scale_120: u32, transform: Transform) -> (r: OutputInfo)
    requires
        forall|i: int| 0 <= i < c.modes@.len() ==> (#[trigger] c.modes@[i]).has_timing(),
    ensures
        tells(r, *c, at, scale_120, transform),
{
    let make = match &c.make {
        Some(m) => m.clone(),
        None => "Unknown".to_owned(),
    };
    let model = match &c.model {
        Some(m) => m.clone(),
        None => "Unknown".to_owned(),
    };
    let (w, h): (i32, i32) = match c.size_mm {
        Some((w, h)) => (
            #[verifier::truncate]
            (w as i32),
            #[verifier::truncate]
            (h as i32),
        ),
        None => (0, 0),
    };
    OutputInfo {
        name: c.name.clone(),
        make,
        model,
        width_mm: w,
        height_mm: h,
        x: at.x,
        y: at.y,
        scale_120,
        transform: transform_to_int(transform),
        modes: told_modes(&c.modes),
    }
}

impl DrmBackendState {
    /// Connect a new output
    ///
    /// The display on the connector was brought up in the mode by the controller: gives it a
    /// redraw state and a place, and tells Emacs of it.
    pub fn connect_output(
        &mut self,
        ewm: &mut Ewm,
        crtc: u64,
        c: &ConnectorInfo,
        mode: &DrmMode,
        cur: &CurrentOutput,
    )
        requires
            old(self).wf(),
            old(ewm).wf(),
            mode_usable(*mode),
            forall|i: int| 0 <= i < c.modes@.len() ==> (#[trigger] c.modes@[i]).has_timing(),
            place_ok(mapped_at(start_position(*old(ewm), c.name@), *cur)),
        ensures
            final(self).wf(),
            *final(self) == (DrmBackendState { surfaces: final(self).surfaces, ..*old(self) }),
            final(self).surfaces@ == old(self).surfaces@.insert(crtc, c.name),
            final(ewm).wf(),
            output_connected(*old(ewm), *final(ewm), *c, *mode, *cur),
    {
        self.surfaces.insert(crtc, c.name.clone());
        let ghost e0 = *ewm;
        let config = ewm.config_or_default(c.name.as_str());
        let at = match config.position {
            Some((x, y)) => Point { x, y },
            None => Point { x: ewm.output_size.w, y: 0 },
        };
        let transform = match config.transform {
            Some(t) => t,
            None => Transform::Normal,
        };
        let scale_120: u32 = match config.scale_120 {
            Some(s) => s,
            None => 120,
        };
        add_output_state(ewm, &c.name, refresh_interval(mode), cur.size);
        let ghost a = *ewm;
        let m = MappedOutput {
            geo: Rect { loc: at, size: cur.size },
            size: cur.size,
            zone: cur.zone,
            mode_size: Some(cur.mode_size),
            refresh: cur.refresh,
        };
        if config.enabled {
            ewm.map_output(&c.name, m);
        }
        let ghost b = *ewm;
        let info = describe(c, at, scale_120, transform);
        ewm.add_output(info, cur);
        assert(state_made(e0, a, c.name, mode.interval_nanos() as nat, cur.size));
        assert(output_placed(a, b, c.name, mapped_at(at, *cur)));
        assert(output_added(b, *ewm, info, *cur));
    }

    /// Looks up what the configuration of a live output asks of the hardware. `modes` are those
    /// that its connector reports, if it does. A disabled output is taken off the global space.
    pub fn apply_output_config(
        &self,
        ewm: &mut Ewm,
        name: &String,
        modes: Option<&Vec<DrmMode>>,
    ) -> (r: Option<ConfigPlan>)
        requires
            self.wf(),
            old(ewm).wf(),
            modes is Some && old(ewm).output_config@.contains_key(name@) ==> (old(
                ewm,
            ).output_config@[name@].mode matches Some((w, h, _)) ==> timings_ok(modes->0@, w, h)),
        ensures
            final(ewm).wf(),
            ({
                let b = *old(ewm);
                let known = b.output_config@.contains_key(name@) && b.space@.contains_key(name@);
                let c = b.output_config@[name@];
                if !known {
                    *final(ewm) == b && r is None
                } else if !c.enabled {
                    output_disabled(b, *final(ewm), name@) && r is None
                } else if !self.initialized || !drives(self.surfaces.entries@, name@) || (c.mode
                    is Some && modes is None) {
                    *final(ewm) == b && r is None
                } else {
                    &&& *final(ewm) == b
                    &&& r matches Some(p)
                    &&& p.scale_120 == c.scale_120
                    &&& p.transform == c.transform
                    &&& p.position == c.position
                    &&& c.mode is None ==> p.mode is None
                    &&& c.mode matches Some((w, h, hz)) ==> mode_resolved(
                        modes->0@,
                        w,
                        h,
                        hz,
                        p.mode,
                    )
                }
            }),
    {
        let config: OutputConfig = match ewm.output_config.get(name.as_str()) {
            Some(c) => *c,
            None => {
                return None;
            },
        };
        if !ewm.space.contains(name.as_str()) {
            return None;
        }
        if !config.enabled {
            ewm.unmap_output(name.as_str());
            ewm.queue_redraw_all();
            return None;
        }
        if !self.initialized || !self.drives_output(name.as_str()) {
            return None;
        }
        let mode: Option<DrmMode> = match config.mode {
            Some((w, h, refresh)) => {
                match modes {
                    Some(list) => resolve_drm_mode(list, w, h, refresh),
                    None => {
                        return None;
                    },
                }
            },
            None => None,
        };
        Some(
            ConfigPlan {
                mode,
                scale_120: config.scale_120,
                transform: config.transform,
                position: config.position,
            },
        )
    }

    /// The hardware took a configuration: notes it everywhere.
    pub fn output_config_applied(
        &self,
        ewm: &mut Ewm,
        name: &String,
        mode: Option<DrmMode>,
        position: Option<(i32, i32)>,
        cur: &CurrentOutput,
    )
        requires
            old(ewm).wf(),
            old(ewm).space@.contains_key(name@),
            mode matches Some(m) ==> mode_usable(m),
            place_ok(mapped_at(moved_to(old(ewm).space@[name@], position), *cur)),
        ensures
            final(ewm).wf(),
            config_taken(*old(ewm), *final(ewm), *name, mode, position, *cur),
    {
        let ghost e0 = *ewm;
        apply_place(ewm, name, position, cur);
        let ghost a = *ewm;
        match mode {
            Some(m) => {
                match ewm.output_state.find(name.as_str()) {
                    Some(i) => {
                        let mut st: OutputState = ewm.output_state.entries[i].1;
                        st.frame_clock = FrameClock::new(Some(refresh_interval(&m)));
                        put_state(&mut ewm.output_state, name.as_str(), st);
                        assert(st == with_clock(a.output_state@[name@], st.frame_clock));
                    },
                    None => {},
                }
            },
            None => {},
        }
        let ghost b = *ewm;
        assert(clock_replaced(a, b, name@, mode));
        ewm.output_config_changed(name, cur);
        assert(output_moved(
            e0,
            a,
            *name,
            mapped_at(moved_to(e0.space@[name@], position), *cur),
        ));
    }
}

/// Puts a mapped output at its new place with its new extent.
pub(crate) fn apply_place(
    ewm: &mut Ewm,
    name: &String,
    position: Option<(i32, i32)>,
    cur: &CurrentOutput,
)
    requires
        old(ewm).wf(),
        old(ewm).space@.contains_key(name@),
        place_ok(mapped_at(moved_to(old(ewm).space@[name@], position), *cur)),
    ensures
        final(ewm).wf(),
        output_moved(
            *old(ewm),
            *final(ewm),
            *name,
            mapped_at(moved_to(old(ewm).space@[name@], position), *cur),
        ),
        final(ewm).space@.contains_key(name@),
        final(ewm).space@[name@] == mapped_at(moved_to(old(ewm).space@[name@], position), *cur),
{
    let at = match position {
        Some((x, y)) => Point { x, y },
        None => match ewm.space.get(name.as_str()) {
            Some(m) => m.geo.loc,
            None => Point { x: 0, y: 0 },
        },
    };
    let m = MappedOutput {
        geo: Rect { loc: at, size: cur.size },
        size: cur.size,
        zone: cur.zone,
        mode_size: Some(cur.mode_size),
        refresh: cur.refresh,
    };
    ewm.map_output(name, m);
}

/// Gives a new output its redraw state.
pub(crate) fn add_output_state(ewm: &mut Ewm, name: &String, interval: Duration, size: Size)
    requires
        old(ewm).wf(),
        interval@ < 1_000_000_000,
    ensures
        final(ewm).wf(),
        state_made(*old(ewm), *final(ewm), *name, interval@, size),
{
    let ghost before = *ewm;
    let mut st = OutputState::new(Some(interval), size);
    if ewm.is_locked() {
        st.lock_render_state = LockRenderState::Locked;
    }
    ewm.output_state.insert(name, st);
    proof {
        assert forall|i: int| 0 <= i < ewm.output_state.entries@.len() implies (
        #[trigger] ewm.output_state.entries@[i]).1.wf() by {
            if i < before.output_state.entries@.len() {
                assert(before.output_state.entries@[i].1.wf());
            }
        }
        assert(ewm.output_state.entries@ == before.output_state.entries_with(*name, st));
    }
}

/// `r` is the mode that the request stands for among the modes, if any.
pub open spec fn mode_resolved(
    modes: Seq<DrmMode>,
    w: i32,
    h: i32,
    hz: Option<i32>,
    r: Option<DrmMode>,
) -> bool {
    match (r, hz) {
        (Some(m), Some(hz)) => exists|i: int|
            #![trigger modes[i]]
            is_nearest(modes, w, h, hz, i) && m == modes[i],
        (None, Some(hz)) => forall|j: int|
            0 <= j < modes.len() ==> !is_near(#[trigger] modes[j], w, h, hz),
        (Some(m), None) => exists|i: int|
            #![trigger modes[i]]
            is_fastest(modes, w, h, i) && m == modes[i],
        (None, None) => forall|j: int|
            0 <= j < modes.len() ==> !(#[trigger] modes[j]).is_size(w, h),
    }
}

/// A display that is plugged in while the session is locked does not undo the lock: if every
/// output showed a locked frame before, every output counts as locked after.
pub proof fn law_new_output_keeps_lock(
    before: Ewm,
    after: Ewm,
    name: String,
    interval: nat,
    size: Size,
)
    requires
        before.wf(),
        !(before.lock_state is Unlocked),
        all_locked(before.output_state.entries@),
        state_made(before, after, name, interval, size),
    ensures
        all_locked(after.output_state.entries@),
{
    let st = choose|st: OutputState|
        {
            &&& after.output_state.entries@ == #[trigger] before.output_state.entries_with(name, st)
            &&& st.lock_render_state == LockRenderState::Locked
        };
    assert forall|i: int| 0 <= i < after.output_state.entries@.len() implies (
    #[trigger] after.output_state.entries@[i]).1.lock_render_state == LockRenderState::Locked by {
        if i < before.output_state.entries@.len() {
            assert(before.output_state.entries@[i].1.lock_render_state == LockRenderState::Locked);
        }
    }
}

} // verus!
