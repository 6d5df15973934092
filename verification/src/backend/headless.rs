//! Headless backend for testing
//!
//! A backend without hardware: it renders nothing and counts frames. Virtual outputs have fixed
//! sizes and refresh rates.
use crate::backend::connect::{
    apply_place, mapped_at, moved_to, output_disabled, output_moved, start_position, start_scale,
    start_transform,
};
use crate::backend::{transform_to_int, RenderResult, Transform};
use crate::effect::Effect;
use crate::event::{OutputInfo, OutputMode};
use crate::ewm::lock::{frame_noted, lock_settled, redraw_done};
use crate::ewm::outputs::{
    config_changed, output_added, output_removed, place_ok, CurrentOutput,
};
use crate::ewm::Ewm;
use crate::geometry::{Point, Rect, Size};
use crate::layout::MappedOutput;
use crate::outputs::{
    any_due, any_queued, find_due, first_due, lemma_same_names, one_set, put_state,
    queued_somewhere, same_names, OutputConfig,
};
use crate::redraw::{OutputState, RedrawState};
use crate::tables::NameMap;
use crate::time::Duration;
use vstd::prelude::*;
use vstd::string::*;

verus! {

/// Refresh rate of virtual outputs in millihertz.
pub const VIRTUAL_REFRESH: i32 = 60_000;

/// A virtual output for headless testing
#[derive(Clone, Copy, Debug, PartialEq, Eq, Structural)]
pub struct VirtualOutput {
    pub size: Size,
    /// Count of frames rendered to this output (for assertions)
    pub render_count: usize,
}

/// Headless backend state for testing without real hardware
pub struct HeadlessBackend {
    /// Virtual outputs indexed by name
    pub outputs: NameMap<VirtualOutput>,
}

/// `info` tells Emacs of a virtual output.
pub open spec fn tells_virtual(
    info: OutputInfo,
    name: String,
    width: i32,
    height: i32,
    at: Point,
    scale_120: u32,
    transform: Transform,
) -> bool {
    &&& info.name == name
    &&& info.make@ == "EWM"@
    &&& info.model@ == "Virtual"@
    &&& info.width_mm == width
    &&& info.height_mm == height
    &&& info.x == at.x
    &&& info.y == at.y
    &&& info.scale_120 == scale_120
    &&& info.transform == transform.number() as i32
    &&& info.modes@ == seq![
        OutputMode { width, height, refresh: VIRTUAL_REFRESH, preferred: true },
    ]
}

/// What is known of a virtual output at the moment.
pub open spec fn virtual_current(e: Ewm, name: Seq<char>, width: i32, height: i32, logical: Size) -> CurrentOutput {
    CurrentOutput {
        mode_size: Size { w: width, h: height },
        refresh: VIRTUAL_REFRESH,
        scale_120: start_scale(e, name),
        transform: start_transform(e, name),
        size: logical,
        zone: Rect { loc: Point { x: 0, y: 0 }, size: logical },
    }
}

/// A virtual output is in use.
pub open spec fn virtual_added(
    e0: Ewm,
    e1: Ewm,
    name: String,
    width: i32,
    height: i32,
    logical: Size,
) -> bool {
    let cur = virtual_current(e0, name@, width, height, logical);
    let at = start_position(e0, name@);
    exists|a: Ewm, b: Ewm, info: OutputInfo|
        {
            &&& #[trigger] output_moved(e0, a, name, mapped_at(at, cur))
            &&& #[trigger] virtual_state_made(a, b, name, Size { w: width, h: height })
            &&& tells_virtual(info, name, width, height, at, cur.scale_120, cur.transform)
            &&& #[trigger] output_added(b, e1, info, cur)
        }
}

/// The state `after` is `before` with a redraw state for a new virtual output at 60 Hz.
pub open spec fn virtual_state_made(before: Ewm, after: Ewm, name: String, size: Size) -> bool {
    &&& after == (Ewm { output_state: after.output_state, ..before })
    &&& exists|st: OutputState|
        {
            &&& after.output_state.entries@ == #[trigger] before.output_state.entries_with(name, st)
            &&& st.redraw_state == RedrawState::Queued
            &&& st.frame_clock.interval() == Some(16_667_000nat)
            &&& st.frame_clock.last() is None
            &&& st.lock_surface is None
            &&& st.lock_render_state == crate::redraw::LockRenderState::Unlocked
            &&& st.lock_buffer_size == size
            &&& st.backdrop_size == size
            &&& st.frame_callback_sequence == 0
            &&& !st.unfinished_animations_remain
        }
}

/// The state `after` is `before` with a headless frame: the output is at rest.
pub open spec fn headless_rendered(before: Ewm, after: Ewm, output: Seq<char>) -> bool {
    &&& after == (Ewm { output_state: after.output_state, ..before })
    &&& after.output_state.entries@ == if before.output_state@.contains_key(output) {
        one_set(
            before.output_state.entries@,
            output,
            OutputState { redraw_state: RedrawState::Idle, ..before.output_state@[output] },
        )
    } else {
        before.output_state.entries@
    }
}

/// The outputs whose redraw is due.
pub open spec fn count_due(s: Seq<(String, OutputState)>) -> nat
    decreases s.len(),
{
    if s.len() == 0 {
        0
    } else {
        count_due(s.drop_last()) + if s.last().1.redraw_state.is_due() {
            1nat
        } else {
            0
        }
    }
}

/// A frame of the output was rendered. It is counted where the output is one of the backend's.
pub open spec fn frame_counted(
    b0: HeadlessBackend,
    e0: Ewm,
    b1: HeadlessBackend,
    e1: Ewm,
    output: Seq<char>,
) -> bool {
    &&& headless_rendered(e0, e1, output)
    &&& if b0.outputs@.contains_key(output) {
        b1.outputs@ == b0.outputs@.insert(
            output,
            VirtualOutput {
                size: b0.outputs@[output].size,
                render_count: (b0.outputs@[output].render_count + 1) as usize,
            },
        )
    } else {
        b1 == b0
    }
}

/// One output was redrawn by the backend: the first whose redraw was due.
pub open spec fn one_redrawn(
    b0: HeadlessBackend,
    e0: Ewm,
    b1: HeadlessBackend,
    e1: Ewm,
) -> bool {
    exists|i: int, mid: Ewm| #[trigger]
        first_due(e0.output_state.entries@, None, i) && frame_counted(
            b0,
            e0,
            b1,
            mid,
            e0.output_state.entries@[i].0@,
        ) && #[trigger] redraw_done(
            mid,
            e1,
            e0.output_state.entries@[i].0,
            RenderResult::Submitted,
        )
}

/// `n` outputs were redrawn one after the other.
pub open spec fn redrawn(
    n: nat,
    b0: HeadlessBackend,
    e0: Ewm,
    b1: HeadlessBackend,
    e1: Ewm,
) -> bool
    decreases n,
{
    if n == 0 {
        b1 == b0 && e1 == e0
    } else {
        exists|b: HeadlessBackend, e: Ewm|
            redrawn((n - 1) as nat, b0, e0, b, e) && #[trigger] one_redrawn(b, e, b1, e1)
    }
}

proof fn lemma_next_redraw(
    n: nat,
    b0: HeadlessBackend,
    e0: Ewm,
    b: HeadlessBackend,
    e: Ewm,
    b1: HeadlessBackend,
    e1: Ewm,
)
    requires
        redrawn(n, b0, e0, b, e),
        one_redrawn(b, e, b1, e1),
    ensures
        redrawn(n + 1, b0, e0, b1, e1),
{
}

/// One while a lock waits for its frames.
pub open spec fn locking(e: Ewm) -> nat {
    if e.lock_state is Locking {
        1
    } else {
        0
    }
}

/// A bound on how often one pass can still redraw an output: once if that is due, and once more
/// if a lock is given up.
pub open spec fn frames_left(e: Ewm, output: Seq<char>) -> nat {
    locking(e) + if e.output_state@.contains_key(output)
        && e.output_state@[output].redraw_state.is_due() {
        1nat
    } else {
        0
    }
}

/// The frame counters can take the frames of one pass.
pub open spec fn room_left(b: HeadlessBackend, e: Ewm) -> bool {
    forall|k: Seq<char>| #[trigger]
        b.outputs@.contains_key(k) ==> b.outputs@[k].render_count + frames_left(e, k) <= usize::MAX
}

/// With one redraw done, one less is due.
proof fn lemma_one_less_due(a: Seq<(String, OutputState)>, b: Seq<(String, OutputState)>, i: int)
    requires
        a.len() == b.len(),
        0 <= i < a.len(),
        a[i].1.redraw_state.is_due(),
        !b[i].1.redraw_state.is_due(),
        forall|j: int|
            0 <= j < a.len() && j != i ==> (#[trigger] b[j]).1.redraw_state == a[j].1.redraw_state,
    ensures
        count_due(b) + 1 == count_due(a),
    decreases a.len(),
{
    let x = a.drop_last();
    let y = b.drop_last();
    if i == a.len() - 1 {
        lemma_same_due(x, y);
    } else {
        lemma_one_less_due(x, y, i);
        assert(b[a.len() - 1].1.redraw_state == a[a.len() - 1].1.redraw_state);
    }
}

proof fn lemma_same_due(a: Seq<(String, OutputState)>, b: Seq<(String, OutputState)>)
    requires
        a.len() == b.len(),
        forall|j: int|
            0 <= j < a.len() ==> (#[trigger] b[j]).1.redraw_state == a[j].1.redraw_state,
    ensures
        count_due(b) == count_due(a),
    decreases a.len(),
{
    if a.len() > 0 {
        assert(b[a.len() - 1].1.redraw_state == a[a.len() - 1].1.redraw_state);
        lemma_same_due(a.drop_last(), b.drop_last());
    }
}

/// Each redraw brings the pass nearer to its end.
proof fn lemma_redraw_progress(
    b0: HeadlessBackend,
    e0: Ewm,
    b1: HeadlessBackend,
    mid: Ewm,
    e1: Ewm,
    i: int,
)
    requires
        b0.wf(),
        e0.wf(),
        mid.wf(),
        e1.wf(),
        room_left(b0, e0),
        first_due(e0.output_state.entries@, None, i),
        frame_counted(b0, e0, b1, mid, e0.output_state.entries@[i].0@),
        redraw_done(
            mid,
            e1,
            e0.output_state.entries@[i].0,
            RenderResult::Submitted,
        ),
    ensures
        locking(e1) < locking(e0) || (locking(e1) == locking(e0) && count_due(
            e1.output_state.entries@,
        ) < count_due(e0.output_state.entries@)),
        room_left(b1, e1),
{
    let s0 = e0.output_state.entries@;
    let name = s0[i].0;
    let res = RenderResult::Submitted;
    let (noted, settled) = choose|noted: Ewm, settled: Ewm|
        {
            &&& #[trigger] frame_noted(mid, noted, name@, res)
            &&& #[trigger] lock_settled(noted, settled, res)
            &&& e1 == (Ewm { effects: e1.effects, ..settled })
            &&& e1.effects@ == settled.effects@.push(Effect::FrameCallbacks { output: name })
        };
    e0.output_state.lemma_entry(i);
    let s1 = noted.output_state.entries@;
    assert(same_names(s0, mid.output_state.entries@));
    lemma_same_names(e0.output_state, mid.output_state);
    mid.output_state.lemma_entry(i);
    assert(s1.len() == s0.len());
    assert(!s1[i].1.redraw_state.is_due());
    assert forall|j: int| 0 <= j < s0.len() && j != i implies (#[trigger] s1[j]).1.redraw_state
        == s0[j].1.redraw_state by {
        assert(s0[j].0@ != s0[i].0@);
    }
    lemma_one_less_due(s0, s1, i);
    assert(same_names(s0, e1.output_state.entries@));
    lemma_same_names(e0.output_state, e1.output_state);
    assert forall|k: Seq<char>| #[trigger] b1.outputs@.contains_key(k) implies
        b1.outputs@[k].render_count + frames_left(e1, k) <= usize::MAX by {
        assert(b0.outputs@.contains_key(k));
        if e1.output_state@.contains_key(k) {
            let p = e0.output_state.position(k);
            e1.output_state.lemma_entry(p);
            e0.output_state.lemma_entry(p);
        }
    }
}

impl HeadlessBackend {
    pub open spec fn wf(&self) -> bool {
        self.outputs.wf()
    }

    /// Every output can take another frame without its counter running over.
    pub open spec fn counters_ok(&self, room: nat) -> bool {
        forall|n: Seq<char>| #[trigger]
            self.outputs@.contains_key(n) ==> self.outputs@[n].render_count + room <= usize::MAX
    }

    /// Create a new headless backend
    pub fn new() -> (r: Self)
        ensures
            r.wf(),
            r.outputs@ == Map::<Seq<char>, VirtualOutput>::empty(),
    {
        HeadlessBackend { outputs: NameMap::new() }
    }

    /// Add a virtual output with the given name and size. `logical` is the size that results from
    /// its configured scale and transform.
    pub fn add_output(
        &mut self,
        name: &String,
        width: i32,
        height: i32,
        logical: Size,
        ewm: &mut Ewm,
    )
        requires
            old(self).wf(),
            old(ewm).wf(),
            place_ok(
                mapped_at(
                    start_position(*old(ewm), name@),
                    virtual_current(*old(ewm), name@, width, height, logical),
                ),
            ),
        ensures
            final(self).wf(),
            final(self).outputs@ == old(self).outputs@.insert(
                name@,
                (VirtualOutput { size: Size { w: width, h: height }, render_count: 0 }),
            ),
            final(ewm).wf(),
            virtual_added(*old(ewm), *final(ewm), *name, width, height, logical),
    {
        let ghost e0 = *ewm;
        let config: OutputConfig = match ewm.output_config.get(name.as_str()) {
            Some(c) => *c,
            None => OutputConfig::default(),
        };
        let transform = match config.transform {
            Some(t) => t,
            None => Transform::Normal,
        };
        let scale_120: u32 = match config.scale_120 {
            Some(s) => s,
            None => 120,
        };
        let at = match config.position {
            Some((x, y)) => Point { x, y },
            None => Point { x: ewm.output_size.w, y: 0 },
        };
        let size = Size { w: width, h: height };
        let cur = CurrentOutput {
            mode_size: size,
            refresh: VIRTUAL_REFRESH,
            scale_120,
            transform,
            size: logical,
            zone: Rect { loc: Point { x: 0, y: 0 }, size: logical },
        };
        ewm.map_output(
            name,
            MappedOutput {
                geo: Rect { loc: at, size: logical },
                size: logical,
                zone: cur.zone,
                mode_size: Some(size),
                refresh: VIRTUAL_REFRESH,
            },
        );
        let ghost a = *ewm;
        let st = OutputState::new(Some(Duration::from_micros(16_667)), size);
        ewm.output_state.insert(name, st);
        proof {
            assert forall|i: int| 0 <= i < ewm.output_state.entries@.len() implies (
            #[trigger] ewm.output_state.entries@[i]).1.wf() by {
                if i < a.output_state.entries@.len() {
                    assert(a.output_state.entries@[i].1.wf());
                }
            }
            assert(ewm.output_state.entries@ == a.output_state.entries_with(*name, st));
        }
        let ghost b = *ewm;
        assert(virtual_state_made(a, b, *name, size));
        self.outputs.insert(name, VirtualOutput { size, render_count: 0 });
        let mut modes: Vec<OutputMode> = Vec::new();
        modes.push(OutputMode { width, height, refresh: VIRTUAL_REFRESH, preferred: true });
        let info = OutputInfo {
            name: name.clone(),
            make: "EWM".to_owned(),
            model: "Virtual".to_owned(),
            width_mm: width,
            height_mm: height,
            x: at.x,
            y: at.y,
            scale_120,
            transform: transform_to_int(transform),
            modes,
        };
        assert(info.modes@ =~= seq![
            OutputMode { width, height, refresh: VIRTUAL_REFRESH, preferred: true },
        ]);
        ewm.add_output(info, &cur);
        assert(output_moved(e0, a, *name, mapped_at(at, cur)));
        assert(output_added(b, *ewm, info, cur));
    }

    /// Remove a virtual output by name
    pub fn remove_output(&mut self, name: &String, ewm: &mut Ewm)
        requires
            old(self).wf(),
            old(ewm).wf(),
        ensures
            final(self).wf(),
            final(self).outputs@ == old(self).outputs@.remove(name@),
            final(ewm).wf(),
            if old(self).outputs@.contains_key(name@) {
                output_removed(*old(ewm), *final(ewm), *name)
            } else {
                *final(ewm) == *old(ewm)
            },
    {
        match self.outputs.remove(name.as_str()) {
            Some(_) => {
                ewm.remove_output(name);
            },
            None => {
                assert(self.outputs@ =~= old(self).outputs@.remove(name@));
            },
        }
    }

    /// Check if any output has a redraw queued
    pub fn has_queued_redraws(&self, ewm: &Ewm) -> (r: bool)
        ensures
            r == queued_somewhere(ewm.output_state.entries@),
    {
        any_queued(&ewm.output_state)
    }

    /// Render a single output in headless mode.
    ///
    /// There is no real display, so this just tracks render counts for test assertions. Returns
    /// Submitted unconditionally.
    pub fn render(&mut self, ewm: &mut Ewm, output: &String) -> (r: RenderResult)
        requires
            old(self).wf(),
            old(ewm).wf(),
            old(self).outputs@.contains_key(output@) ==> old(self).outputs@[output@].render_count
                < usize::MAX,
        ensures
            final(self).wf(),
            final(ewm).wf(),
            r == RenderResult::Submitted,
            frame_counted(*old(self), *old(ewm), *final(self), *final(ewm), output@),
    {
        // There is no VBlank and no timer, so the output comes to rest at once.
        match ewm.output_state.find(output.as_str()) {
            Some(i) => {
                let mut st: OutputState = ewm.output_state.entries[i].1;
                assert(ewm.output_state.entries@[i as int].1.wf());
                st.redraw_state = RedrawState::Idle;
                put_state(&mut ewm.output_state, output.as_str(), st);
            },
            None => {},
        }
        match self.outputs.get(output.as_str()) {
            Some(v) => {
                let counted = VirtualOutput { size: v.size, render_count: v.render_count + 1 };
                self.outputs.insert(output, counted);
            },
            None => {},
        }
        RenderResult::Submitted
    }

    /// Redraw the outputs whose redraw is due. An output that becomes due meanwhile is redrawn in
    /// the same pass.
    pub fn redraw_queued_outputs(&mut self, ewm: &mut Ewm)
        requires
            old(self).wf(),
            old(ewm).wf(),
            old(self).counters_ok(2),
        ensures
            final(self).wf(),
            final(ewm).wf(),
            if old(ewm).monitors_active {
                &&& exists|n: nat| redrawn(n, *old(self), *old(ewm), *final(self), *final(ewm))
                &&& !any_due(final(ewm).output_state.entries@, None)
            } else {
                *final(self) == *old(self) && *final(ewm) == *old(ewm)
            },
    {
        if !ewm.monitors_active {
            return ;
        }
        let ghost mut n: nat = 0;
        let ghost b0 = *self;
        let ghost e0 = *ewm;
        proof {
            assert forall|k: Seq<char>| #[trigger] self.outputs@.contains_key(k) implies
                self.outputs@[k].render_count + frames_left(*ewm, k) <= usize::MAX by {
                assert(frames_left(*ewm, k) <= 2);
            }
        }
        loop
            invariant
                self.wf(),
                ewm.wf(),
                room_left(*self, *ewm),
                redrawn(n, b0, e0, *self, *ewm),
                b0 == *old(self),
                e0 == *old(ewm),
                e0.monitors_active,
            decreases locking(*ewm), count_due(ewm.output_state.entries@),
        {
            let i: usize = match find_due(&ewm.output_state, None) {
                Some(i) => i,
                None => {
                    return ;
                },
            };
            let name = ewm.output_state.entries[i].0.clone();
            let ghost b1 = *self;
            let ghost e1 = *ewm;
            proof {
                ewm.output_state.lemma_entry(i as int);
            }
            let res = self.render(ewm, &name);
            let ghost mid = *ewm;
            ewm.finish_redraw(&name, res);
            proof {
                assert(first_due(e1.output_state.entries@, None, i as int));
                assert(redraw_done(mid, *ewm, name, res));
                assert(one_redrawn(b1, e1, *self, *ewm));
                lemma_next_redraw(n, b0, e0, b1, e1, *self, *ewm);
                lemma_redraw_progress(b1, e1, *self, mid, *ewm, i as int);
                n = n + 1;
            }
        }
    }

    /// Apply output configuration for a live headless output.
    ///
    /// Scale, transform, position, and enabled state are supported. Mode changes are not (virtual
    /// outputs have fixed size). `cur` is the output with its new scale and transform.
    pub fn apply_output_config(&self, ewm: &mut Ewm, name: &String, cur: &CurrentOutput)
        requires
            old(ewm).wf(),
            old(ewm).space@.contains_key(name@) && old(ewm).output_config@.contains_key(name@)
                ==> place_ok(
                mapped_at(
                    moved_to(
                        old(ewm).space@[name@],
                        old(ewm).output_config@[name@].position,
                    ),
                    *cur,
                ),
            ),
        ensures
            final(ewm).wf(),
            ({
                let b = *old(ewm);
                let c = b.output_config@[name@];
                if !(b.output_config@.contains_key(name@) && b.space@.contains_key(name@)) {
                    *final(ewm) == b
                } else if !c.enabled {
                    output_disabled(b, *final(ewm), name@)
                } else {
                    exists|a: Ewm| #[trigger]
                        output_moved(
                            b,
                            a,
                            *name,
                            mapped_at(moved_to(b.space@[name@], c.position), *cur),
                        ) && config_changed(a, *final(ewm), *name, *cur)
                }
            }),
    {
        let config: OutputConfig = match ewm.output_config.get(name.as_str()) {
            Some(c) => *c,
            None => {
                return ;
            },
        };
        if !ewm.space.contains(name.as_str()) {
            return ;
        }
        if !config.enabled {
            ewm.unmap_output(name.as_str());
            ewm.queue_redraw_all();
            return ;
        }
        apply_place(ewm, name, config.position, cur);
        ewm.output_config_changed(name, cur);
    }

    /// Get render count for an output (for test assertions)
    pub fn render_count(&self, name: &str) -> (r: usize)
        requires
            self.wf(),
        ensures
            r == if self.outputs@.contains_key(name@) {
                self.outputs@[name@].render_count
            } else {
                0
            },
    {
        match self.outputs.get(name) {
            Some(v) => v.render_count,
            None => 0,
        }
    }
}

impl Default for HeadlessBackend {
    fn default() -> (r: Self)
        ensures
            r.wf(),
            r.outputs@ == Map::<Seq<char>, VirtualOutput>::empty(),
    {
        HeadlessBackend::new()
    }
}

} // verus!
