//! Outputs coming, going and changing, and what depends on them.
use super::lock::lock_checked;
use super::{Ewm, WindowState};
use crate::backend::{transform_to_int, Transform};
use crate::dbus::{CastTarget, OutputInfo as BusOutputInfo};
use crate::effect::Effect;
use crate::event::{Event, OutputInfo, OutputMode};
use crate::geometry::{Point, Rect, Size};
use crate::layout::{LayoutEntry, Layouts, MappedOutput};
use crate::outputs::{
    all_requested, covered, edges_fit, one_requested, one_set, put_state, total_extent,
};
use crate::redraw::OutputState;
use crate::tables::{IdMap, NameMap};
use crate::text::str_eq;
use vstd::prelude::*;

verus! {

/// The output's place is expressible: its edges and the corner of its free area are 32-bit
/// numbers and its extent is not negative.
pub open spec fn place_ok(m: MappedOutput) -> bool {
    &&& i32::MIN <= m.geo.loc.x + m.geo.size.w <= i32::MAX
    &&& i32::MIN <= m.geo.loc.y + m.geo.size.h <= i32::MAX
    &&& i32::MIN <= m.geo.loc.x + m.zone.loc.x <= i32::MAX
    &&& i32::MIN <= m.geo.loc.y + m.zone.loc.y <= i32::MAX
    &&& m.size.w >= 0
    &&& m.size.h >= 0
}

pub open spec fn places_ok(s: Seq<(String, MappedOutput)>) -> bool {
    forall|i: int| 0 <= i < s.len() ==> place_ok((#[trigger] s[i]).1)
}

/// A valid table of expressible places has valid extents.
proof fn lemma_places(space: NameMap<MappedOutput>)
    requires
        space.wf(),
        places_ok(space.entries@),
    ensures
        crate::layout::sizes_ok(space@),
        edges_fit(space.entries@),
        forall|n: Seq<char>| #[trigger] space@.contains_key(n) ==> place_ok(space@[n]),
{
    assert forall|n: Seq<char>| #[trigger] space@.contains_key(n) implies place_ok(space@[n]) by {
        assert(space.has(n));
        let p = space.position(n);
        space.lemma_entry(p);
    }
    assert forall|i: int| 0 <= i < space.entries@.len() implies {
        let g = (#[trigger] space.entries@[i]).1.geo;
        &&& i32::MIN <= g.loc.x + g.size.w <= i32::MAX
        &&& i32::MIN <= g.loc.y + g.size.h <= i32::MAX
    } by {
        assert(place_ok(space.entries@[i].1));
    }
}

/// Millihertz in whole hertz, toward zero, in 32 bits.
pub open spec fn whole_hertz(refresh: i32) -> u32 {
    if refresh >= 0 {
        (refresh / 1000) as u32
    } else {
        (-((-refresh) / 1000)) as u32
    }
}

pub(crate) fn hertz(refresh: i32) -> (r: u32)
    ensures
        r == whole_hertz(refresh),
{
    if refresh >= 0 {
        (refresh as u32) / 1000
    } else {
        let m: i64 = -(refresh as i64);
        let q: u32 = (m as u32) / 1000;
        #[verifier::truncate]
        (-(q as i64) as u32)
    }
}

/// What the display server knows of an output at the moment.
#[derive(Clone, Copy, Debug, PartialEq, Eq, Structural)]
pub struct CurrentOutput {
    /// Extent of the mode in physical pixels; zero without a mode.
    pub mode_size: Size,
    /// Refresh rate of the mode in millihertz; zero without a mode.
    pub refresh: i32,
    pub scale_120: u32,
    pub transform: Transform,
    /// Logical extent.
    pub size: Size,
    /// The part that layer surfaces leave free.
    pub zone: Rect,
}

/// Where an output is; the empty rectangle for one that is not mapped.
pub open spec fn geo_of(space: Map<Seq<char>, MappedOutput>, name: Seq<char>) -> Rect {
    if space.contains_key(name) {
        space[name].geo
    } else {
        Rect { loc: Point { x: 0, y: 0 }, size: Size { w: 0, h: 0 } }
    }
}

/// The modes with the current one marked as preferred.
pub open spec fn modes_marked(modes: Seq<OutputMode>, cur: CurrentOutput) -> Seq<OutputMode> {
    modes.map_values(
        |m: OutputMode|
            OutputMode {
                preferred: m.width == cur.mode_size.w && m.height == cur.mode_size.h && m.refresh
                    == cur.refresh,
                ..m
            },
    )
}

/// `after` is what is known of an output once its configuration became `cur`.
pub open spec fn info_updated(
    before: OutputInfo,
    after: OutputInfo,
    geo: Rect,
    cur: CurrentOutput,
) -> bool {
    &&& after == (OutputInfo {
        scale_120: cur.scale_120,
        transform: cur.transform.number() as i32,
        x: geo.loc.x,
        y: geo.loc.y,
        modes: after.modes,
        ..before
    })
    &&& after.modes@ == modes_marked(before.modes@, cur)
}

/// The list `after` is `before` with the output `name` brought up to date.
pub open spec fn infos_updated(
    before: Seq<OutputInfo>,
    after: Seq<OutputInfo>,
    name: Seq<char>,
    geo: Rect,
    cur: CurrentOutput,
) -> bool {
    &&& after.len() == before.len()
    &&& forall|i: int|
        0 <= i < before.len() ==> if before[i].name@ == name {
            info_updated(before[i], #[trigger] after[i], geo, cur)
        } else {
            after[i] == before[i]
        }
}

/// What the session bus shows of an output once its configuration became `cur`.
pub open spec fn bus_updated(
    s: Seq<BusOutputInfo>,
    name: Seq<char>,
    geo: Rect,
    cur: CurrentOutput,
) -> Seq<BusOutputInfo> {
    s.map_values(
        |o: BusOutputInfo|
            if o.name@ == name {
                BusOutputInfo {
                    width: cur.mode_size.w,
                    height: cur.mode_size.h,
                    refresh: whole_hertz(cur.refresh),
                    x: geo.loc.x,
                    y: geo.loc.y,
                    ..o
                }
            } else {
                o
            },
    )
}

/// A scale for every window that the layout lists.
pub open spec fn listed_scales(
    name: String,
    entries: Seq<LayoutEntry>,
    windows: Map<u64, WindowState>,
) -> Seq<Effect>
    decreases entries.len(),
{
    if entries.len() == 0 {
        Seq::empty()
    } else {
        let head = listed_scales(name, entries.drop_last(), windows);
        if windows.contains_key(entries.last().id) {
            head.push(Effect::SendScale { output: name, id: entries.last().id })
        } else {
            head
        }
    }
}

/// A scale for every window that stands on the output without a layout placing it.
pub open spec fn unlisted_scales(
    name: String,
    windows: Seq<(u64, WindowState)>,
    layouts: Layouts,
    geo: Rect,
) -> Seq<Effect>
    decreases windows.len(),
{
    if windows.len() == 0 {
        Seq::empty()
    } else {
        let head = unlisted_scales(name, windows.drop_last(), layouts, geo);
        let (id, w) = windows.last();
        if w.at is Some && !layouts.surface_outputs.shown(id) && geo.has_point(w.at->0) {
            head.push(Effect::SendScale { output: name, id })
        } else {
            head
        }
    }
}

/// What tells the surfaces on an output its scale and transform.
pub open spec fn scale_effects(e: Ewm, name: String) -> Seq<Effect> {
    listed_scales(name, super::layouts::layout_of(e, name@), e.windows@) + unlisted_scales(
        name,
        e.windows.entries@,
        e.layouts,
        geo_of(e.space@, name@),
    ) + seq![Effect::SendScaleToLayers { output: name }]
}

/// The cast shows the output.
pub open spec fn casts_output(t: CastTarget, output: Seq<char>) -> bool {
    match t {
        CastTarget::Output { name } => name@ == output,
        CastTarget::Window { .. } => false,
    }
}

/// The cast shows the window.
pub open spec fn casts_window(t: CastTarget, window: u64) -> bool {
    match t {
        CastTarget::Output { .. } => false,
        CastTarget::Window { id } => id == window,
    }
}

/// A new size for every cast of the output.
pub open spec fn resize_effects(
    casts: Seq<(u64, CastTarget)>,
    output: Seq<char>,
    size: Size,
    refresh: u32,
) -> Seq<Effect>
    decreases casts.len(),
{
    if casts.len() == 0 {
        Seq::empty()
    } else {
        let head = resize_effects(casts.drop_last(), output, size, refresh);
        if casts_output(casts.last().1, output) {
            head.push(Effect::ResizeCast { session: casts.last().0, size, refresh })
        } else {
            head
        }
    }
}

/// The sessions whose casts show the output.
pub open spec fn sessions_on(casts: Seq<(u64, CastTarget)>, output: Seq<char>) -> Seq<u64>
    decreases casts.len(),
{
    if casts.len() == 0 {
        Seq::empty()
    } else {
        let head = sessions_on(casts.drop_last(), output);
        if casts_output(casts.last().1, output) {
            head.push(casts.last().0)
        } else {
            head
        }
    }
}

/// The sessions whose casts show the window.
pub open spec fn sessions_of(casts: Seq<(u64, CastTarget)>, window: u64) -> Seq<u64>
    decreases casts.len(),
{
    if casts.len() == 0 {
        Seq::empty()
    } else {
        let head = sessions_of(casts.drop_last(), window);
        if casts_window(casts.last().1, window) {
            head.push(casts.last().0)
        } else {
            head
        }
    }
}

/// Stopping each of the sessions, in order.
pub open spec fn stop_effects(sessions: Seq<u64>) -> Seq<Effect> {
    sessions.map_values(|session: u64| Effect::StopCast { session })
}

/// The state `after` is `before` with the casts of `sessions` stopped.
pub open spec fn casts_stopped(before: Ewm, after: Ewm, sessions: Seq<u64>) -> bool {
    &&& after == (Ewm { screen_casts: after.screen_casts, effects: after.effects, ..before })
    &&& after.screen_casts@ == before.screen_casts@.remove_keys(sessions.to_set())
    &&& after.effects@ == before.effects@ + stop_effects(sessions)
}

/// The frames of the output after they were fitted to its free area.
pub open spec fn frames_fitted(
    windows: Map<u64, WindowState>,
    order: Seq<(u64, WindowState)>,
    frames: Map<u64, String>,
    output: Seq<char>,
    at: Point,
    size: Size,
) -> Map<u64, WindowState>
    decreases order.len(),
{
    if order.len() == 0 {
        windows
    } else {
        let head = frames_fitted(windows, order.drop_last(), frames, output, at, size);
        let (id, w) = order.last();
        if frames.contains_key(id) && frames[id]@ == output {
            head.insert(id, WindowState { at: Some(at), size: Some(size), ..w })
        } else {
            head
        }
    }
}

/// What fitting the frames of the output asks for.
pub open spec fn fit_effects(
    order: Seq<(u64, WindowState)>,
    frames: Map<u64, String>,
    output: Seq<char>,
    at: Point,
) -> Seq<Effect>
    decreases order.len(),
{
    if order.len() == 0 {
        Seq::empty()
    } else {
        let head = fit_effects(order.drop_last(), frames, output, at);
        let id = order.last().0;
        if frames.contains_key(id) && frames[id]@ == output {
            head.push(Effect::MapFrame { id, at }).push(Effect::Configure { id })
        } else {
            head
        }
    }
}

/// The corner of an output's free area in the global space.
pub open spec fn zone_corner(m: MappedOutput) -> Point {
    Point { x: (m.geo.loc.x + m.zone.loc.x) as i32, y: (m.geo.loc.y + m.zone.loc.y) as i32 }
}

/// The state `after` is `before` with the frames of the output fitted to its free area.
pub open spec fn frames_updated(before: Ewm, after: Ewm, output: Seq<char>) -> bool {
    if before.space@.contains_key(output) {
        let m = before.space@[output];
        let frames = before.emacs_surfaces@;
        &&& after == (Ewm {
            windows: after.windows,
            output_state: after.output_state,
            effects: after.effects,
            ..before
        })
        &&& after.windows@ == frames_fitted(
            before.windows@,
            before.windows.entries@,
            frames,
            output,
            zone_corner(m),
            m.zone.size,
        )
        &&& after.output_state.entries@ == one_requested(before.output_state.entries@, output)
        &&& after.effects@ == before.effects@ + fit_effects(
            before.windows.entries@,
            frames,
            output,
            zone_corner(m),
        )
    } else {
        after == before
    }
}

pub open spec fn area_event(output: String, zone: Rect) -> Effect {
    Effect::Event(
        Event::WorkingArea {
            output,
            x: zone.loc.x,
            y: zone.loc.y,
            width: zone.size.w,
            height: zone.size.h,
        },
    )
}

/// The state `after` is `before` with the free area of a mapped output set to `zone`.
pub open spec fn zone_set(before: Ewm, after: Ewm, output: Seq<char>, zone: Rect) -> bool {
    &&& after == (Ewm { space: after.space, ..before })
    &&& after.space.entries@ == before.space.entries@.map_values(
        |e: (String, MappedOutput)|
            if e.0@ == output {
                (e.0, MappedOutput { zone, ..e.1 })
            } else {
                e
            },
    )
}

/// The state `after` is `before` with the free area of the output noted.
pub open spec fn area_noted(before: Ewm, after: Ewm, output: String, zone: Rect) -> bool {
    &&& after == (Ewm {
        working_areas: after.working_areas,
        active_outputs_dirty: true,
        ..before
    })
    &&& after.working_areas.entries@ == before.working_areas.entries_with(output, zone)
}

/// The state `after` is `before` with a changed free area noted, applied to the Emacs frames and
/// told to Emacs.
pub open spec fn area_changed(before: Ewm, after: Ewm, output: String, zone: Rect) -> bool {
    exists|noted: Ewm, fitted: Ewm|
        {
            &&& #[trigger] area_noted(before, noted, output, zone)
            &&& #[trigger] frames_updated(noted, fitted, output@)
            &&& after == (Ewm { effects: after.effects, ..fitted })
            &&& after.effects@ == fitted.effects@.push(area_event(output, zone))
        }
}

/// The state `after` is `before` with the free area `zone` of the output, handled if it differs
/// from the one noted before.
pub open spec fn area_checked(before: Ewm, after: Ewm, output: String, zone: Rect) -> bool {
    exists|zoned: Ewm| #[trigger]
        zone_set(before, zoned, output@, zone) && if before.working_areas@.contains_key(output@)
            && before.working_areas@[output@] == zone {
            after == zoned
        } else {
            area_changed(zoned, after, output, zone)
        }
}

impl Ewm {
    /// Places an output in the global space, or moves it.
    pub fn map_output(&mut self, name: &String, m: MappedOutput)
        requires
            old(self).wf(),
            place_ok(m),
        ensures
            final(self).wf(),
            *final(self) == (Ewm { space: final(self).space, ..*old(self) }),
            final(self).space@ == old(self).space@.insert(name@, m),
            final(self).space.entries@ == old(self).space.entries_with(*name, m),
    {
        let ghost before = *self;
        self.space.insert(name, m);
        proof {
            assert(places_ok(self.space.entries@)) by {
                assert forall|i: int| 0 <= i < self.space.entries@.len() implies place_ok(
                    (#[trigger] self.space.entries@[i]).1,
                ) by {
                    if i < before.space.entries@.len() {
                        assert(place_ok(before.space.entries@[i].1));
                    }
                }
            }
            lemma_places(self.space);
        }
    }

    /// Takes an output out of the global space.
    pub fn unmap_output(&mut self, name: &str)
        requires
            old(self).wf(),
        ensures
            final(self).wf(),
            *final(self) == (Ewm { space: final(self).space, ..*old(self) }),
            final(self).space@ == old(self).space@.remove(name@),
            !old(self).space@.contains_key(name@) ==> *final(self) == *old(self),
    {
        let ghost before = *self;
        let _gone = self.space.remove(name);
        proof {
            assert(places_ok(self.space.entries@)) by {
                assert forall|i: int| 0 <= i < self.space.entries@.len() implies place_ok(
                    (#[trigger] self.space.entries@[i]).1,
                ) by {
                    if before.space@.contains_key(name@) {
                        let p = before.space.position(name@);
                        assert(place_ok(before.space.entries@[if i < p { i } else { i + 1 }].1));
                    }
                }
            }
            lemma_places(self.space);
        }
    }

    /// Recalculate total output size from current space geometry
    pub fn recalculate_output_size(&mut self)
        requires
            old(self).wf(),
        ensures
            final(self).wf(),
            *final(self) == (Ewm { output_size: final(self).output_size, ..*old(self) }),
            final(self).output_size.w == covered(
                old(self).space.entries@,
                old(self).space.entries@.len() as int,
            ).0,
            final(self).output_size.h == covered(
                old(self).space.entries@,
                old(self).space.entries@.len() as int,
            ).1,
    {
        proof {
            lemma_places(self.space);
        }
        self.output_size = total_extent(&self.space);
    }

    /// Send output detected event to Emacs
    pub fn send_output_detected(&mut self, output: OutputInfo)
        requires
            old(self).wf(),
        ensures
            final(self).wf(),
            *final(self) == (Ewm {
                active_outputs_dirty: true,
                effects: final(self).effects,
                ..*old(self)
            }),
            final(self).effects@ == old(self).effects@.push(
                Effect::Event(Event::OutputDetected(output)),
            ),
    {
        self.active_outputs_dirty = true;
        self.queue_event(Event::OutputDetected(output));
    }

    /// Send output disconnected event to Emacs
    pub fn send_output_disconnected(&mut self, name: &String)
        requires
            old(self).wf(),
        ensures
            final(self).wf(),
            *final(self) == (Ewm {
                active_outputs_dirty: true,
                effects: final(self).effects,
                ..*old(self)
            }),
            final(self).effects@ == old(self).effects@.push(
                Effect::Event(Event::OutputDisconnected { name: *name }),
            ),
    {
        self.active_outputs_dirty = true;
        self.queue_event(Event::OutputDisconnected { name: name.clone() });
    }

    /// Stop a screen cast session
    pub fn stop_cast(&mut self, session_id: u64)
        requires
            old(self).wf(),
        ensures
            final(self).wf(),
            !old(self).screen_casts@.contains_key(session_id) ==> *final(self) == *old(self),
            old(self).screen_casts@.contains_key(session_id) ==> {
                &&& *final(self) == (Ewm {
                    screen_casts: final(self).screen_casts,
                    effects: final(self).effects,
                    ..*old(self)
                })
                &&& final(self).screen_casts@ == old(self).screen_casts@.remove(session_id)
                &&& final(self).effects@ == old(self).effects@.push(
                    Effect::StopCast { session: session_id },
                )
            },
    {
        if self.screen_casts.remove(session_id).is_none() {
            return ;
        }
        self.emit(Effect::StopCast { session: session_id });
    }

    fn stop_sessions(&mut self, sessions: &Vec<u64>)
        requires
            old(self).wf(),
            sessions@.no_duplicates(),
            forall|k: int|
                0 <= k < sessions@.len() ==> old(self).screen_casts@.contains_key(
                    #[trigger] sessions@[k],
                ),
        ensures
            final(self).wf(),
            casts_stopped(*old(self), *final(self), sessions@),
    {
        let ghost before = *self;
        let mut i: usize = 0;
        assert(self.effects@ =~= before.effects@ + stop_effects(sessions@.subrange(0, 0)));
        assert(self.screen_casts@ =~= before.screen_casts@.remove_keys(
            sessions@.subrange(0, 0).to_set(),
        ));
        while i < sessions.len()
            invariant
                i <= sessions@.len(),
                self.wf(),
                sessions@.no_duplicates(),
                forall|k: int|
                    0 <= k < sessions@.len() ==> before.screen_casts@.contains_key(
                        #[trigger] sessions@[k],
                    ),
                *self == (Ewm {
                    screen_casts: self.screen_casts,
                    effects: self.effects,
                    ..before
                }),
                self.screen_casts@ == before.screen_casts@.remove_keys(
                    sessions@.subrange(0, i as int).to_set(),
                ),
                self.effects@ == before.effects@ + stop_effects(sessions@.subrange(0, i as int)),
            decreases sessions@.len() - i,
        {
            let ghost pre = sessions@.subrange(0, i as int);
            let ghost post = sessions@.subrange(0, i + 1);
            proof {
                assert(post =~= pre.push(sessions@[i as int]));
                assert(!pre.contains(sessions@[i as int]));
                assert forall|x: u64| post.to_set().contains(x) == (pre.to_set().contains(x) || x
                    == sessions@[i as int]) by {
                    if pre.contains(x) {
                        let k = choose|k: int| 0 <= k < pre.len() && pre[k] == x;
                        assert(post[k] == x);
                    }
                    assert(post[i as int] == sessions@[i as int]);
                }
                assert(before.screen_casts@.contains_key(sessions@[i as int]));
            }
            self.stop_cast(sessions[i]);
            i = i + 1;
            proof {
                assert(self.screen_casts@ =~= before.screen_casts@.remove_keys(post.to_set()));
                assert(self.effects@ =~= before.effects@ + stop_effects(post));
            }
        }
        assert(sessions@.subrange(0, i as int) =~= sessions@);
    }

    /// Stop all screen casts targeting a specific window.
    pub fn stop_casts_for_window(&mut self, window_id: u64)
        requires
            old(self).wf(),
        ensures
            final(self).wf(),
            casts_stopped(
                *old(self),
                *final(self),
                sessions_of(old(self).screen_casts.entries@, window_id),
            ),
    {
        let mut sessions: Vec<u64> = Vec::new();
        let mut i: usize = 0;
        let ghost casts = self.screen_casts.entries@;
        assert(casts.subrange(0, 0) =~= Seq::<(u64, CastTarget)>::empty());
        while i < self.screen_casts.entries.len()
            invariant
                i <= casts.len(),
                casts == self.screen_casts.entries@,
                sessions@ == sessions_of(casts.subrange(0, i as int), window_id),
            decreases casts.len() - i,
        {
            assert(casts.subrange(0, i + 1).drop_last() =~= casts.subrange(0, i as int));
            let hit = match &self.screen_casts.entries[i].1 {
                CastTarget::Window { id } => *id == window_id,
                CastTarget::Output { .. } => false,
            };
            if hit {
                sessions.push(self.screen_casts.entries[i].0);
            }
            i = i + 1;
        }
        proof {
            assert(casts.subrange(0, i as int) =~= casts);
            lemma_sessions_of(self.screen_casts, casts, window_id);
        }
        self.stop_sessions(&sessions);
    }

    /// Stop all screen casts targeting a specific output.
    pub fn stop_casts_for_output(&mut self, output: &str)
        requires
            old(self).wf(),
        ensures
            final(self).wf(),
            casts_stopped(
                *old(self),
                *final(self),
                sessions_on(old(self).screen_casts.entries@, output@),
            ),
    {
        let mut sessions: Vec<u64> = Vec::new();
        let mut i: usize = 0;
        let ghost casts = self.screen_casts.entries@;
        assert(casts.subrange(0, 0) =~= Seq::<(u64, CastTarget)>::empty());
        while i < self.screen_casts.entries.len()
            invariant
                i <= casts.len(),
                casts == self.screen_casts.entries@,
                sessions@ == sessions_on(casts.subrange(0, i as int), output@),
            decreases casts.len() - i,
        {
            assert(casts.subrange(0, i + 1).drop_last() =~= casts.subrange(0, i as int));
            let hit = match &self.screen_casts.entries[i].1 {
                CastTarget::Output { name } => str_eq(name.as_str(), output),
                CastTarget::Window { .. } => false,
            };
            if hit {
                sessions.push(self.screen_casts.entries[i].0);
            }
            i = i + 1;
        }
        proof {
            assert(casts.subrange(0, i as int) =~= casts);
            lemma_sessions_on(self.screen_casts, casts, output@);
        }
        self.stop_sessions(&sessions);
    }
}

/// The zone fits at the place of the output.
pub open spec fn zone_ok(space: Map<Seq<char>, MappedOutput>, output: Seq<char>, zone: Rect) -> bool {
    space.contains_key(output) ==> place_ok(MappedOutput { zone, ..space[output] })
}

impl Ewm {
    /// Get the working area for an output (non-exclusive zone from layer surfaces).
    /// This is the area available for Emacs frames after panels reserve their space.
    pub fn get_working_area(&self, output: &str) -> (r: Option<Rect>)
        requires
            self.wf(),
        ensures
            r == if self.space@.contains_key(output@) {
                Some(self.space@[output@].zone)
            } else {
                None
            },
    {
        match self.space.get(output) {
            Some(m) => Some(m.zone),
            None => None,
        }
    }

    fn set_zone(&mut self, output: &str, zone: Rect)
        requires
            old(self).wf(),
            zone_ok(old(self).space@, output@, zone),
        ensures
            final(self).wf(),
            zone_set(*old(self), *final(self), output@, zone),
    {
        let ghost before = *self;
        match self.space.find(output) {
            Some(i) => {
                let name = self.space.entries[i].0.clone();
                let m: MappedOutput = self.space.entries[i].1;
                self.space.entries.set(i, (name, MappedOutput { zone, ..m }));
                proof {
                    crate::outputs::lemma_same_names(before.space, self.space);
                    assert forall|j: int| 0 <= j < self.space.entries@.len() implies place_ok(
                        (#[trigger] self.space.entries@[j]).1,
                    ) by {
                        if j != i {
                            assert(self.space.entries@[j] == before.space.entries@[j]);
                        }
                    }
                    lemma_places(self.space);
                    assert forall|j: int|
                        0 <= j < before.space.entries@.len() && j != i implies (
                    #[trigger] before.space.entries@[j]).0@ != output@ by {}
                    assert(self.space.entries@ =~= before.space.entries@.map_values(
                        |e: (String, MappedOutput)|
                            if e.0@ == output@ {
                                (e.0, MappedOutput { zone, ..e.1 })
                            } else {
                                e
                            },
                    ));
                }
            },
            None => {
                proof {
                    assert forall|j: int| 0 <= j < before.space.entries@.len() implies (
                    #[trigger] before.space.entries@[j]).0@ != output@ by {
                        before.space.lemma_entry(j);
                    }
                    assert(self.space.entries@ =~= before.space.entries@.map_values(
                        |e: (String, MappedOutput)|
                            if e.0@ == output@ {
                                (e.0, MappedOutput { zone, ..e.1 })
                            } else {
                                e
                            },
                    ));
                }
            },
        }
    }

    /// Update Emacs frames to fit within the working area of an output.
    /// Called when layer surface exclusive zones change.
    pub fn update_frames_for_working_area(&mut self, output: &str)
        requires
            old(self).wf(),
        ensures
            final(self).wf(),
            frames_updated(*old(self), *final(self), output@),
    {
        let ghost before = *self;
        proof {
            lemma_places(self.space);
        }
        let m: MappedOutput = match self.space.get(output) {
            Some(m) => *m,
            None => {
                return ;
            },
        };
        let at = Point { x: m.geo.loc.x + m.zone.loc.x, y: m.geo.loc.y + m.zone.loc.y };
        let ghost order = self.windows.entries@;
        let ghost frames = self.emacs_surfaces@;
        let mut i: usize = 0;
        assert(order.subrange(0, 0) =~= Seq::<(u64, WindowState)>::empty());
        assert(self.effects@ =~= before.effects@ + fit_effects(
            order.subrange(0, 0),
            frames,
            output@,
            at,
        ));
        while i < self.windows.entries.len()
            invariant
                before.wf(),
                frames == before.emacs_surfaces@,
                order == before.windows.entries@,
                i <= order.len(),
                *self == (Ewm { windows: self.windows, effects: self.effects, ..before }),
                self.windows.wf(),
                self.windows.entries@.len() == order.len(),
                forall|j: int|
                    0 <= j < order.len() ==> (#[trigger] self.windows.entries@[j]).0 == order[j].0,
                forall|j: int|
                    i <= j < order.len() ==> (#[trigger] self.windows.entries@[j]) == order[j],
                self.windows@ == frames_fitted(
                    before.windows@,
                    order.subrange(0, i as int),
                    frames,
                    output@,
                    at,
                    m.zone.size,
                ),
                self.effects@ == before.effects@ + fit_effects(
                    order.subrange(0, i as int),
                    frames,
                    output@,
                    at,
                ),
            decreases order.len() - i,
        {
            let id: u64 = self.windows.entries[i].0;
            let w: WindowState = self.windows.entries[i].1;
            let ghost pre = order.subrange(0, i as int);
            let ghost post = order.subrange(0, i + 1);
            assert(post.drop_last() =~= pre);
            assert(post.last() == (id, w));
            let here = match self.emacs_surfaces.get(id) {
                Some(n) => str_eq(n.as_str(), output),
                None => false,
            };
            if here {
                self.emit(Effect::MapFrame { id, at });
                let fitted = WindowState { at: Some(at), size: Some(m.zone.size), ..w };
                self.put_window(i, fitted);
                self.emit(Effect::Configure { id });
            }
            i = i + 1;
            assert(self.effects@ =~= before.effects@ + fit_effects(post, frames, output@, at));
        }
        proof {
            assert(order.subrange(0, i as int) =~= order);
            lemma_fitted_ids(before.windows, order, frames, output@, at, m.zone.size);
        }
        self.queue_redraw(output);
    }

    /// Replaces the window at a place of the table.
    fn put_window(&mut self, i: usize, w: WindowState)
        requires
            old(self).windows.wf(),
            i < old(self).windows.entries@.len(),
        ensures
            final(self).windows.wf(),
            *final(self) == (Ewm { windows: final(self).windows, ..*old(self) }),
            final(self).windows@ == old(self).windows@.insert(
                old(self).windows.entries@[i as int].0,
                w,
            ),
            final(self).windows.entries@ == old(self).windows.entries@.update(
                i as int,
                (old(self).windows.entries@[i as int].0, w),
            ),
    {
        self.windows.set_at(i, w);
    }

    /// Check and update working area for an output, sending event if changed.
    pub fn check_working_area_change(&mut self, output: &String, zone: Rect)
        requires
            old(self).wf(),
            zone_ok(old(self).space@, output@, zone),
        ensures
            final(self).wf(),
            area_checked(*old(self), *final(self), *output, zone),
    {
        let ghost before = *self;
        self.set_zone(output.as_str(), zone);
        let ghost zoned = *self;
        assert(zone_set(before, zoned, output@, zone));
        let changed = match self.working_areas.get(output.as_str()) {
            Some(prev) => *prev != zone,
            None => true,
        };
        if changed {
            self.working_areas.insert(output, zone);
            self.active_outputs_dirty = true;
            let ghost noted = *self;
            assert(area_noted(zoned, noted, *output, zone));
            self.update_frames_for_working_area(output.as_str());
            assert(frames_updated(noted, *self, output@));
            self.queue_event(
                Event::WorkingArea {
                    output: output.clone(),
                    x: zone.loc.x,
                    y: zone.loc.y,
                    width: zone.size.w,
                    height: zone.size.h,
                },
            );
            assert(area_changed(zoned, *self, *output, zone));
        }
    }
}

/// The state `after` is `before` with a new output registered.
pub open spec fn output_added(before: Ewm, after: Ewm, info: OutputInfo, cur: CurrentOutput) -> bool {
    let name = info.name;
    &&& after == (Ewm {
        dbus_outputs: after.dbus_outputs,
        outputs: after.outputs,
        output_size: after.output_size,
        active_outputs_dirty: true,
        working_areas: after.working_areas,
        output_heads_changed: true,
        effects: after.effects,
        ..before
    })
    &&& after.dbus_outputs@ == before.dbus_outputs@.push(
        BusOutputInfo {
            name,
            x: info.x,
            y: info.y,
            width: cur.mode_size.w,
            height: cur.mode_size.h,
            refresh: whole_hertz(cur.refresh),
        },
    )
    &&& after.outputs@.len() == before.outputs@.len() + 1
    &&& after.outputs@.drop_last() == before.outputs@
    &&& after.outputs@.last().same(&info)
    &&& after.output_size.w == covered(
        before.space.entries@,
        before.space.entries@.len() as int,
    ).0
    &&& after.output_size.h == covered(
        before.space.entries@,
        before.space.entries@.len() as int,
    ).1
    &&& after.working_areas.entries@ == before.working_areas.entries_with(name, cur.zone)
    &&& after.effects@ == before.effects@.push(Effect::Event(Event::OutputDetected(info))).push(
        area_event(name, cur.zone),
    )
}

/// The list without the outputs of this name.
pub open spec fn infos_without(s: Seq<OutputInfo>, name: Seq<char>) -> Seq<OutputInfo>
    decreases s.len(),
{
    if s.len() == 0 {
        Seq::empty()
    } else {
        let head = infos_without(s.drop_last(), name);
        if s.last().name@ == name {
            head
        } else {
            head.push(s.last())
        }
    }
}

/// The list without the outputs of this name.
pub open spec fn bus_without(s: Seq<BusOutputInfo>, name: Seq<char>) -> Seq<BusOutputInfo>
    decreases s.len(),
{
    if s.len() == 0 {
        Seq::empty()
    } else {
        let head = bus_without(s.drop_last(), name);
        if s.last().name@ == name {
            head
        } else {
            head.push(s.last())
        }
    }
}

fn retain_infos(list: &mut Vec<OutputInfo>, name: &str)
    ensures
        final(list)@ == infos_without(old(list)@, name@),
{
    let ghost all = list@;
    let ghost mut seen: int = 0;
    let mut i: usize = 0;
    assert(all.subrange(0, 0) =~= Seq::<OutputInfo>::empty());
    assert(list@ =~= infos_without(all.subrange(0, 0), name@) + all.subrange(
        0,
        all.len() as int,
    ));
    while i < list.len()
        invariant
            0 <= seen <= all.len(),
            i <= list@.len(),
            i == infos_without(all.subrange(0, seen), name@).len(),
            list@ == infos_without(all.subrange(0, seen), name@) + all.subrange(
                seen,
                all.len() as int,
            ),
        decreases list@.len() - i,
    {
        let ghost head = infos_without(all.subrange(0, seen), name@);
        assert(list@[i as int] == all[seen]);
        assert(all.subrange(0, seen + 1).drop_last() =~= all.subrange(0, seen));
        assert(all.subrange(0, seen + 1).last() == all[seen]);
        if str_eq(list[i].name.as_str(), name) {
            let _gone = list.remove(i);
            assert(list@ =~= head + all.subrange(seen + 1, all.len() as int));
        } else {
            i = i + 1;
            assert(list@ =~= head.push(all[seen]) + all.subrange(seen + 1, all.len() as int));
        }
        proof {
            seen = seen + 1;
        }
    }
    assert(seen == all.len());
    assert(all.subrange(0, seen) =~= all);
    assert(list@ =~= infos_without(all, name@));
}

fn retain_bus(list: &mut Vec<BusOutputInfo>, name: &str)
    ensures
        final(list)@ == bus_without(old(list)@, name@),
{
    let ghost all = list@;
    let ghost mut seen: int = 0;
    let mut i: usize = 0;
    assert(all.subrange(0, 0) =~= Seq::<BusOutputInfo>::empty());
    assert(list@ =~= bus_without(all.subrange(0, 0), name@) + all.subrange(0, all.len() as int));
    while i < list.len()
        invariant
            0 <= seen <= all.len(),
            i <= list@.len(),
            i == bus_without(all.subrange(0, seen), name@).len(),
            list@ == bus_without(all.subrange(0, seen), name@) + all.subrange(
                seen,
                all.len() as int,
            ),
        decreases list@.len() - i,
    {
        let ghost head = bus_without(all.subrange(0, seen), name@);
        assert(list@[i as int] == all[seen]);
        assert(all.subrange(0, seen + 1).drop_last() =~= all.subrange(0, seen));
        assert(all.subrange(0, seen + 1).last() == all[seen]);
        if str_eq(list[i].name.as_str(), name) {
            let _gone = list.remove(i);
            assert(list@ =~= head + all.subrange(seen + 1, all.len() as int));
        } else {
            i = i + 1;
            assert(list@ =~= head.push(all[seen]) + all.subrange(seen + 1, all.len() as int));
        }
        proof {
            seen = seen + 1;
        }
    }
    assert(seen == all.len());
    assert(all.subrange(0, seen) =~= all);
    assert(list@ =~= bus_without(all, name@));
}

/// The state `after` is `before` with the output's redraw state gone and its timer cancelled.
pub open spec fn state_dropped(before: Ewm, after: Ewm, name: Seq<char>) -> bool {
    &&& after == (Ewm { output_state: after.output_state, effects: after.effects, ..before })
    &&& after.output_state@ == before.output_state@.remove(name)
    &&& before.output_state@.contains_key(name) ==> after.output_state.entries@
        == before.output_state.entries@.remove(before.output_state.position(name))
    &&& after.effects@ == before.effects@ + (if before.output_state@.contains_key(name) {
        super::idle::cancel_effects(before.output_state@[name].redraw_state.timer())
    } else {
        Seq::empty()
    })
}

/// The state `after` is `before` with the output forgotten everywhere but in its redraw state,
/// and Emacs told of it.
pub open spec fn output_forgotten(before: Ewm, after: Ewm, name: String) -> bool {
    &&& after == (Ewm {
        space: after.space,
        layouts: after.layouts,
        output_workspaces: after.output_workspaces,
        working_areas: after.working_areas,
        outputs: after.outputs,
        dbus_outputs: after.dbus_outputs,
        output_size: after.output_size,
        active_outputs_dirty: true,
        output_heads_changed: true,
        effects: after.effects,
        ..before
    })
    &&& after.space@ == before.space@.remove(name@)
    &&& after.layouts.outputs@ == before.layouts.outputs@.remove(name@)
    &&& after.output_workspaces@ == before.output_workspaces@.remove(name@)
    &&& after.working_areas@ == before.working_areas@.remove(name@)
    &&& after.outputs@ == infos_without(before.outputs@, name@)
    &&& after.dbus_outputs@ == bus_without(before.dbus_outputs@, name@)
    &&& after.output_size.w == covered(after.space.entries@, after.space.entries@.len() as int).0
    &&& after.output_size.h == covered(after.space.entries@, after.space.entries@.len() as int).1
    &&& after.effects@ == before.effects@.push(
        Effect::Event(Event::OutputDisconnected { name }),
    )
}

/// The state `after` is `before` with the output removed: its timer cancelled, a lock that waited
/// for it settled, its gamma control dropped, its casts stopped, and the rest forgotten.
pub open spec fn output_removed(before: Ewm, after: Ewm, name: String) -> bool {
    exists|a: Ewm, b: Ewm, c: Ewm, d: Ewm|
        {
            &&& #[trigger] state_dropped(before, a, name@)
            &&& #[trigger] lock_checked(a, b)
            &&& c == (Ewm { effects: c.effects, ..b })
            &&& c.effects@ == b.effects@.push(Effect::DropGammaControl { output: name })
            &&& #[trigger] casts_stopped(c, d, sessions_on(c.screen_casts.entries@, name@))
            &&& output_forgotten(d, after, name)
        }
}

impl Ewm {
    /// Register a newly connected output.
    ///
    /// Called by backends after hardware setup (DRM surface, virtual output) and
    /// after the output is mapped in the space. Handles all backend-agnostic
    /// bookkeeping: OutputInfo registration, D-Bus output, size recalculation,
    /// event to Emacs, initial working area, and output management state.
    pub fn add_output(&mut self, info: OutputInfo, cur: &CurrentOutput)
        requires
            old(self).wf(),
        ensures
            final(self).wf(),
            output_added(*old(self), *final(self), info, *cur),
    {
        let name = info.name.clone();
        self.dbus_outputs.push(
            BusOutputInfo {
                name: name.clone(),
                x: info.x,
                y: info.y,
                width: cur.mode_size.w,
                height: cur.mode_size.h,
                refresh: hertz(cur.refresh),
            },
        );
        self.outputs.push(info.duplicate());
        assert(self.outputs@.drop_last() =~= old(self).outputs@);
        self.recalculate_output_size();
        self.send_output_detected(info);
        let zone = cur.zone;
        self.working_areas.insert(&name, zone);
        self.queue_event(
            Event::WorkingArea {
                output: name,
                x: zone.loc.x,
                y: zone.loc.y,
                width: zone.size.w,
                height: zone.size.h,
            },
        );
        self.output_heads_changed = true;
    }

    /// Clean up all state for a removed output.
    ///
    /// Called by backends after their own teardown (e.g. DRM surface removal).
    /// Handles: output state, lock check, screencasts, space, layouts,
    /// workspaces, working areas, outputs list, D-Bus, output size, event.
    pub fn remove_output(&mut self, output_name: &String)
        requires
            old(self).wf(),
        ensures
            final(self).wf(),
            output_removed(*old(self), *final(self), *output_name),
    {
        let ghost before = *self;
        self.drop_output_state(output_name.as_str());
        let ghost a = *self;
        self.check_lock_on_output_removed();
        let ghost b = *self;
        self.emit(Effect::DropGammaControl { output: output_name.clone() });
        let ghost c = *self;
        self.stop_casts_for_output(output_name.as_str());
        let ghost d = *self;
        self.unmap_output(output_name.as_str());
        self.layouts.remove_output(output_name.as_str());
        let _tabs = self.output_workspaces.remove(output_name.as_str());
        let _area = self.working_areas.remove(output_name.as_str());
        retain_infos(&mut self.outputs, output_name.as_str());
        retain_bus(&mut self.dbus_outputs, output_name.as_str());
        self.recalculate_output_size();
        self.send_output_disconnected(output_name);
        self.output_heads_changed = true;
        assert(output_forgotten(d, *self, *output_name));
        assert(state_dropped(before, a, output_name@) && lock_checked(a, b) && casts_stopped(
            c,
            d,
            sessions_on(c.screen_casts.entries@, output_name@),
        ));
    }

    fn drop_output_state(&mut self, name: &str)
        requires
            old(self).wf(),
        ensures
            final(self).wf(),
            state_dropped(*old(self), *final(self), name@),
    {
        let ghost before = *self;
        match self.output_state.remove(name) {
            Some(st) => {
                match st.redraw_state.timer_token() {
                    Some(token) => {
                        self.emit(Effect::CancelTimer { token });
                    },
                    None => {},
                }
                proof {
                    let p = before.output_state.position(name@);
                    assert forall|i: int|
                        0 <= i < self.output_state.entries@.len() implies (
                    #[trigger] self.output_state.entries@[i]).1.wf() by {
                        let j = if i < p {
                            i
                        } else {
                            i + 1
                        };
                        assert(self.output_state.entries@[i] == before.output_state.entries@[j]);
                    }
                    assert(self.effects@ =~= before.effects@ + super::idle::cancel_effects(
                        st.redraw_state.timer(),
                    ));
                }
            },
            None => {
                assert(self.effects@ =~= before.effects@ + Seq::<Effect>::empty());
            },
        }
    }
}

/// An output that was removed leaves no trace: it is not mapped, has no layout, no surface is
/// noted as shown on it, and neither Emacs's list nor the session bus knows it.
pub proof fn law_removed_output_leaves_no_trace(before: Ewm, after: Ewm, name: String)
    requires
        after.wf(),
        output_removed(before, after, name),
    ensures
        !after.space@.contains_key(name@),
        !after.output_state@.contains_key(name@),
        !after.layouts.outputs@.contains_key(name@),
        forall|id: u64| !#[trigger] after.layouts.surface_outputs.has(id, name@),
        !after.working_areas@.contains_key(name@),
        !after.output_workspaces@.contains_key(name@),
        forall|i: int|
            0 <= i < after.outputs@.len() ==> (#[trigger] after.outputs@[i]).name@ != name@,
        forall|i: int|
            0 <= i < after.dbus_outputs@.len() ==> (#[trigger] after.dbus_outputs@[i]).name@
                != name@,
{
    assert forall|id: u64| !#[trigger] after.layouts.surface_outputs.has(id, name@) by {
        assert(after.layouts.surface_outputs.has(id, name@) <==> after.layouts.shows(id, name@));
    }
    let d = choose|d: Ewm| #[trigger] output_forgotten(d, after, name);
    lemma_infos_without(d.outputs@, name@);
    lemma_bus_without(d.dbus_outputs@, name@);
}

proof fn lemma_infos_without(s: Seq<OutputInfo>, name: Seq<char>)
    ensures
        forall|i: int|
            0 <= i < infos_without(s, name).len() ==> (#[trigger] infos_without(s, name)[i]).name@
                != name,
    decreases s.len(),
{
    if s.len() > 0 {
        lemma_infos_without(s.drop_last(), name);
        let head = infos_without(s.drop_last(), name);
        assert forall|i: int| 0 <= i < infos_without(s, name).len() implies (
        #[trigger] infos_without(s, name)[i]).name@ != name by {
            if i < head.len() {
                assert(infos_without(s, name)[i] == head[i]);
            }
        }
    }
}

proof fn lemma_bus_without(s: Seq<BusOutputInfo>, name: Seq<char>)
    ensures
        forall|i: int|
            0 <= i < bus_without(s, name).len() ==> (#[trigger] bus_without(s, name)[i]).name@
                != name,
    decreases s.len(),
{
    if s.len() > 0 {
        lemma_bus_without(s.drop_last(), name);
        let head = bus_without(s.drop_last(), name);
        assert forall|i: int| 0 <= i < bus_without(s, name).len() implies (
        #[trigger] bus_without(s, name)[i]).name@ != name by {
            if i < head.len() {
                assert(bus_without(s, name)[i] == head[i]);
            }
        }
    }
}

/// The state `after` is `before` with what is known of the output brought up to date, and its
/// surfaces, its lock surface and its casts told.
pub open spec fn config_noted(before: Ewm, after: Ewm, name: String, cur: CurrentOutput) -> bool {
    let geo = geo_of(before.space@, name@);
    let known = before.output_state@.contains_key(name@);
    let st = before.output_state@[name@];
    &&& after == (Ewm {
        outputs: after.outputs,
        dbus_outputs: after.dbus_outputs,
        output_state: after.output_state,
        output_size: after.output_size,
        active_outputs_dirty: true,
        effects: after.effects,
        ..before
    })
    &&& infos_updated(before.outputs@, after.outputs@, name@, geo, cur)
    &&& after.dbus_outputs@ == bus_updated(before.dbus_outputs@, name@, geo, cur)
    &&& after.output_state.entries@ == if known {
        one_set(
            before.output_state.entries@,
            name@,
            OutputState { lock_buffer_size: cur.size, backdrop_size: cur.size, ..st },
        )
    } else {
        before.output_state.entries@
    }
    &&& after.output_size.w == covered(
        before.space.entries@,
        before.space.entries@.len() as int,
    ).0
    &&& after.output_size.h == covered(
        before.space.entries@,
        before.space.entries@.len() as int,
    ).1
    &&& after.effects@ == before.effects@ + scale_effects(before, name) + (if known && !(
    before.lock_state is Unlocked) && st.lock_surface is Some {
        seq![Effect::ConfigureLockSurface { output: name, surface: st.lock_surface->0 }]
    } else {
        Seq::empty()
    }) + resize_effects(
        before.screen_casts.entries@,
        name@,
        cur.mode_size,
        whole_hertz(cur.refresh),
    )
}

/// The state `after` is `before` with redraws requested everywhere and the applied configuration
/// told to Emacs.
pub open spec fn config_told(before: Ewm, after: Ewm, name: String, cur: CurrentOutput) -> bool {
    let geo = geo_of(before.space@, name@);
    &&& after == (Ewm {
        output_state: after.output_state,
        output_heads_changed: true,
        effects: after.effects,
        ..before
    })
    &&& after.output_state.entries@ == all_requested(before.output_state.entries@)
    &&& after.effects@ == before.effects@.push(
        Effect::Event(
            Event::OutputConfigChanged {
                name,
                width: cur.mode_size.w,
                height: cur.mode_size.h,
                refresh: cur.refresh,
                x: geo.loc.x,
                y: geo.loc.y,
                scale_120: cur.scale_120,
                transform: cur.transform.number() as i32,
            },
        ),
    )
}

/// The state `after` follows `before` once the configuration of the output became `cur`.
pub open spec fn config_changed(before: Ewm, after: Ewm, name: String, cur: CurrentOutput) -> bool {
    exists|noted: Ewm, checked: Ewm|
        {
            &&& #[trigger] config_noted(before, noted, name, cur)
            &&& #[trigger] area_checked(noted, checked, name, cur.zone)
            &&& config_told(checked, after, name, cur)
        }
}

fn mark_modes(modes: &Vec<OutputMode>, cur: &CurrentOutput) -> (r: Vec<OutputMode>)
    ensures
        r@ == modes_marked(modes@, *cur),
{
    let mut out: Vec<OutputMode> = Vec::new();
    let mut i: usize = 0;
    while i < modes.len()
        invariant
            i <= modes@.len(),
            out@.len() == i,
            forall|j: int| 0 <= j < i ==> #[trigger] out@[j] == modes_marked(modes@, *cur)[j],
        decreases modes@.len() - i,
    {
        let m: OutputMode = modes[i];
        let preferred = m.width == cur.mode_size.w && m.height == cur.mode_size.h && m.refresh
            == cur.refresh;
        out.push(OutputMode { preferred, ..m });
        i = i + 1;
    }
    assert(out@ =~= modes_marked(modes@, *cur));
    out
}

fn update_infos(list: &mut Vec<OutputInfo>, name: &str, geo: Rect, cur: &CurrentOutput)
    ensures
        infos_updated(old(list)@, final(list)@, name@, geo, *cur),
{
    let ghost all = list@;
    let mut i: usize = 0;
    while i < list.len()
        invariant
            i <= list@.len(),
            list@.len() == all.len(),
            forall|j: int|
                0 <= j < i ==> if all[j].name@ == name@ {
                    info_updated(all[j], #[trigger] list@[j], geo, *cur)
                } else {
                    list@[j] == all[j]
                },
            forall|j: int| i <= j < all.len() ==> #[trigger] list@[j] == all[j],
        decreases list@.len() - i,
    {
        if str_eq(list[i].name.as_str(), name) {
            let modes = mark_modes(&list[i].modes, cur);
            let o = &list[i];
            let updated = OutputInfo {
                name: o.name.clone(),
                make: o.make.clone(),
                model: o.model.clone(),
                width_mm: o.width_mm,
                height_mm: o.height_mm,
                x: geo.loc.x,
                y: geo.loc.y,
                scale_120: cur.scale_120,
                transform: transform_to_int(cur.transform),
                modes,
            };
            list.set(i, updated);
        }
        i = i + 1;
    }
}

fn update_bus(list: &mut Vec<BusOutputInfo>, name: &str, geo: Rect, cur: &CurrentOutput)
    ensures
        final(list)@ == bus_updated(old(list)@, name@, geo, *cur),
{
    let ghost all = list@;
    let mut i: usize = 0;
    while i < list.len()
        invariant
            i <= list@.len(),
            list@.len() == all.len(),
            forall|j: int|
                0 <= j < i ==> #[trigger] list@[j] == bus_updated(all, name@, geo, *cur)[j],
            forall|j: int| i <= j < all.len() ==> #[trigger] list@[j] == all[j],
        decreases list@.len() - i,
    {
        if str_eq(list[i].name.as_str(), name) {
            let updated = BusOutputInfo {
                name: list[i].name.clone(),
                x: geo.loc.x,
                y: geo.loc.y,
                width: cur.mode_size.w,
                height: cur.mode_size.h,
                refresh: hertz(cur.refresh),
            };
            list.set(i, updated);
        }
        i = i + 1;
    }
    assert(list@ =~= bus_updated(all, name@, geo, *cur));
}

impl Ewm {
    /// Notify all surfaces on an output about a scale/transform change.
    ///
    /// Goes over the windows and layer surfaces on the given output.
    pub fn send_scale_transform_to_output_surfaces(&mut self, output: &String)
        requires
            old(self).wf(),
        ensures
            final(self).wf(),
            *final(self) == (Ewm { effects: final(self).effects, ..*old(self) }),
            final(self).effects@ == old(self).effects@ + scale_effects(*old(self), *output),
    {
        let ghost before = *self;
        let ghost list = super::layouts::layout_of(before, output@);
        let ghost listed = listed_scales(*output, list, before.windows@);
        match self.layouts.outputs.find(output.as_str()) {
            Some(o) => {
                self.send_listed_scales(output, o);
            },
            None => {
                assert(self.effects@ =~= before.effects@ + listed);
            },
        }
        let geo: Rect = match self.space.get(output.as_str()) {
            Some(m) => m.geo,
            None => Rect { loc: Point { x: 0, y: 0 }, size: Size { w: 0, h: 0 } },
        };
        let ghost order = self.windows.entries@;
        let mut i: usize = 0;
        assert(order.subrange(0, 0) =~= Seq::<(u64, WindowState)>::empty());
        assert(self.effects@ =~= before.effects@ + listed + unlisted_scales(
            *output,
            order.subrange(0, 0),
            before.layouts,
            geo,
        ));
        while i < self.windows.entries.len()
            invariant
                *self == (Ewm { effects: self.effects, ..before }),
                order == before.windows.entries@,
                i <= order.len(),
                self.effects@ == before.effects@ + listed + unlisted_scales(
                    *output,
                    order.subrange(0, i as int),
                    before.layouts,
                    geo,
                ),
            decreases order.len() - i,
        {
            let ghost post = order.subrange(0, i + 1);
            assert(post.drop_last() =~= order.subrange(0, i as int));
            let id: u64 = self.windows.entries[i].0;
            let w: WindowState = self.windows.entries[i].1;
            match w.at {
                Some(p) => {
                    if !self.layouts.surface_outputs.contains_surface(id) && geo.contains(p) {
                        self.emit(Effect::SendScale { output: output.clone(), id });
                    }
                },
                None => {},
            }
            i = i + 1;
            assert(self.effects@ =~= before.effects@ + listed + unlisted_scales(
                *output,
                post,
                before.layouts,
                geo,
            ));
        }
        assert(order.subrange(0, i as int) =~= order);
        self.emit(Effect::SendScaleToLayers { output: output.clone() });
        assert(self.effects@ =~= before.effects@ + scale_effects(before, *output));
    }

    fn send_listed_scales(&mut self, output: &String, o: usize)
        requires
            old(self).wf(),
            o < old(self).layouts.outputs.entries@.len(),
        ensures
            *final(self) == (Ewm { effects: final(self).effects, ..*old(self) }),
            final(self).effects@ == old(self).effects@ + listed_scales(
                *output,
                old(self).layouts.outputs.entries@[o as int].1@,
                old(self).windows@,
            ),
    {
        let ghost before = *self;
        let ghost list = self.layouts.outputs.entries@[o as int].1@;
        let mut j: usize = 0;
        assert(list.subrange(0, 0) =~= Seq::<LayoutEntry>::empty());
        assert(self.effects@ =~= before.effects@ + listed_scales(
            *output,
            list.subrange(0, 0),
            before.windows@,
        ));
        while j < self.layouts.outputs.entries[o].1.len()
            invariant
                before.windows.wf(),
                o < self.layouts.outputs.entries@.len(),
                *self == (Ewm { effects: self.effects, ..before }),
                list == self.layouts.outputs.entries@[o as int].1@,
                j <= list.len(),
                self.effects@ == before.effects@ + listed_scales(
                    *output,
                    list.subrange(0, j as int),
                    before.windows@,
                ),
            decreases list.len() - j,
        {
            let ghost post = list.subrange(0, j + 1);
            assert(post.drop_last() =~= list.subrange(0, j as int));
            let id: u64 = self.layouts.outputs.entries[o].1[j].id;
            if self.windows.contains(id) {
                self.emit(Effect::SendScale { output: output.clone(), id });
            }
            j = j + 1;
            assert(self.effects@ =~= before.effects@ + listed_scales(
                *output,
                post,
                before.windows@,
            ));
        }
        assert(list.subrange(0, j as int) =~= list);
    }

    fn resize_casts(&mut self, output: &str, size: Size, refresh: u32)
        requires
            old(self).wf(),
        ensures
            final(self).wf(),
            *final(self) == (Ewm { effects: final(self).effects, ..*old(self) }),
            final(self).effects@ == old(self).effects@ + resize_effects(
                old(self).screen_casts.entries@,
                output@,
                size,
                refresh,
            ),
    {
        let ghost before = *self;
        let ghost casts = self.screen_casts.entries@;
        let mut i: usize = 0;
        assert(casts.subrange(0, 0) =~= Seq::<(u64, CastTarget)>::empty());
        assert(self.effects@ =~= before.effects@ + resize_effects(
            casts.subrange(0, 0),
            output@,
            size,
            refresh,
        ));
        while i < self.screen_casts.entries.len()
            invariant
                *self == (Ewm { effects: self.effects, ..before }),
                casts == before.screen_casts.entries@,
                i <= casts.len(),
                self.effects@ == before.effects@ + resize_effects(
                    casts.subrange(0, i as int),
                    output@,
                    size,
                    refresh,
                ),
            decreases casts.len() - i,
        {
            let ghost post = casts.subrange(0, i + 1);
            assert(post.drop_last() =~= casts.subrange(0, i as int));
            let hit = match &self.screen_casts.entries[i].1 {
                CastTarget::Output { name } => str_eq(name.as_str(), output),
                CastTarget::Window { .. } => false,
            };
            if hit {
                let session: u64 = self.screen_casts.entries[i].0;
                self.emit(Effect::ResizeCast { session, size, refresh });
            }
            i = i + 1;
            assert(self.effects@ =~= before.effects@ + resize_effects(
                post,
                output@,
                size,
                refresh,
            ));
        }
        assert(casts.subrange(0, i as int) =~= casts);
    }

    /// Handle output configuration changes (mode, scale, transform, position).
    ///
    /// Called by backends after applying hardware state changes. Handles all
    /// backend-agnostic bookkeeping: OutputInfo update, D-Bus update, scale
    /// notification, lock buffer resize, screencast size, recalculation,
    /// working areas, redraw, event to Emacs, and output management state.
    pub fn output_config_changed(&mut self, output: &String, cur: &CurrentOutput)
        requires
            old(self).wf(),
            zone_ok(old(self).space@, output@, cur.zone),
        ensures
            final(self).wf(),
            config_changed(*old(self), *final(self), *output, *cur),
    {
        let ghost before = *self;
        self.note_config(output, cur);
        let ghost noted = *self;
        self.check_working_area_change(output, cur.zone);
        let ghost checked = *self;
        proof {
            lemma_area_keeps_geo(noted, checked, *output, cur.zone);
        }
        let geo: Rect = match self.space.get(output.as_str()) {
            Some(m) => m.geo,
            None => Rect { loc: Point { x: 0, y: 0 }, size: Size { w: 0, h: 0 } },
        };
        self.queue_redraw_all();
        self.queue_event(
            Event::OutputConfigChanged {
                name: output.clone(),
                width: cur.mode_size.w,
                height: cur.mode_size.h,
                refresh: cur.refresh,
                x: geo.loc.x,
                y: geo.loc.y,
                scale_120: cur.scale_120,
                transform: transform_to_int(cur.transform),
            },
        );
        self.output_heads_changed = true;
        assert(config_noted(before, noted, *output, *cur) && area_checked(
            noted,
            checked,
            *output,
            cur.zone,
        ));
    }

    fn note_config(&mut self, output: &String, cur: &CurrentOutput)
        requires
            old(self).wf(),
        ensures
            final(self).wf(),
            config_noted(*old(self), *final(self), *output, *cur),
    {
        let ghost before = *self;
        let geo: Rect = match self.space.get(output.as_str()) {
            Some(m) => m.geo,
            None => Rect { loc: Point { x: 0, y: 0 }, size: Size { w: 0, h: 0 } },
        };
        update_infos(&mut self.outputs, output.as_str(), geo, cur);
        update_bus(&mut self.dbus_outputs, output.as_str(), geo, cur);
        let ghost listed = *self;
        self.send_scale_transform_to_output_surfaces(output);
        assert(scale_effects(listed, *output) == scale_effects(before, *output));
        let locked = self.is_locked();
        let ghost scaled = *self;
        match self.output_state.find(output.as_str()) {
            Some(i) => {
                let mut st: OutputState = self.output_state.entries[i].1;
                assert(self.output_state.entries@[i as int].1.wf());
                st.resize_lock_buffer(cur.size);
                st.resize_fullscreen_backdrop(cur.size);
                put_state(&mut self.output_state, output.as_str(), st);
                if locked {
                    match st.lock_surface {
                        Some(surface) => {
                            self.emit(
                                Effect::ConfigureLockSurface { output: output.clone(), surface },
                            );
                        },
                        None => {},
                    }
                }
            },
            None => {},
        }
        let ghost extra: Seq<Effect> = if before.output_state@.contains_key(output@) && !(
        before.lock_state is Unlocked) && before.output_state@[output@].lock_surface is Some {
            seq![
                Effect::ConfigureLockSurface {
                    output: *output,
                    surface: before.output_state@[output@].lock_surface->0,
                },
            ]
        } else {
            Seq::empty()
        };
        assert(self.effects@ =~= scaled.effects@ + extra);
        self.resize_casts(output.as_str(), cur.mode_size, hertz(cur.refresh));
        self.recalculate_output_size();
        self.active_outputs_dirty = true;
    }
}

/// Noting a free area moves no output.
proof fn lemma_area_keeps_geo(before: Ewm, after: Ewm, output: String, zone: Rect)
    requires
        before.wf(),
        after.wf(),
        area_checked(before, after, output, zone),
    ensures
        geo_of(after.space@, output@) == geo_of(before.space@, output@),
{
    let zoned = choose|zoned: Ewm| #[trigger]
        zone_set(before, zoned, output@, zone) && if before.working_areas@.contains_key(output@)
            && before.working_areas@[output@] == zone {
            after == zoned
        } else {
            area_changed(zoned, after, output, zone)
        };
    assert(after.space == zoned.space);
    crate::outputs::lemma_same_names(before.space, zoned.space);
    if before.space@.contains_key(output@) {
        let p = before.space.position(output@);
        assert(zoned.space.entries@[p].1.geo == before.space.entries@[p].1.geo);
        assert(zoned.space@[output@] == zoned.space.entries@[p].1);
    } else {
        assert(!zoned.space@.contains_key(output@));
    }
}

/// Fitting frames adds and removes no window.
proof fn lemma_fitted_ids(
    windows: IdMap<WindowState>,
    order: Seq<(u64, WindowState)>,
    frames: Map<u64, String>,
    output: Seq<char>,
    at: Point,
    size: Size,
)
    requires
        windows.wf(),
        order.len() <= windows.entries@.len(),
        order == windows.entries@.subrange(0, order.len() as int),
    ensures
        frames_fitted(windows@, order, frames, output, at, size).dom() == windows@.dom(),
    decreases order.len(),
{
    if order.len() > 0 {
        let head = order.drop_last();
        assert(head =~= windows.entries@.subrange(0, head.len() as int));
        lemma_fitted_ids(windows, head, frames, output, at, size);
        windows.lemma_entry(order.len() - 1);
        assert(order.last() == windows.entries@[order.len() - 1]);
        assert(frames_fitted(windows@, order, frames, output, at, size).dom() =~= windows@.dom());
    }
}

/// The sessions found for an output are casts of the table, none twice.
proof fn lemma_sessions_on(t: IdMap<CastTarget>, casts: Seq<(u64, CastTarget)>, output: Seq<char>)
    requires
        t.wf(),
        casts.len() <= t.entries@.len(),
        casts == t.entries@.subrange(0, casts.len() as int),
    ensures
        sessions_on(casts, output).no_duplicates(),
        forall|k: int|
            0 <= k < sessions_on(casts, output).len() ==> t@.contains_key(
                #[trigger] sessions_on(casts, output)[k],
            ),
        forall|id: u64| #[trigger]
            sessions_on(casts, output).contains(id) ==> exists|i: int|
                0 <= i < casts.len() && (#[trigger] casts[i]).0 == id && casts_output(
                    casts[i].1,
                    output,
                ),
    decreases casts.len(),
{
    if casts.len() > 0 {
        let head = casts.drop_last();
        assert(head =~= t.entries@.subrange(0, head.len() as int));
        lemma_sessions_on(t, head, output);
        let hs = sessions_on(head, output);
        let s = sessions_on(casts, output);
        t.lemma_entry(casts.len() - 1);
        assert(casts.last() == t.entries@[casts.len() - 1]);
        if casts_output(casts.last().1, output) {
            assert(!hs.contains(casts.last().0)) by {
                if hs.contains(casts.last().0) {
                    let i = choose|i: int|
                        0 <= i < head.len() && (#[trigger] head[i]).0 == casts.last().0
                            && casts_output(head[i].1, output);
                    assert(t.entries@[i].0 == head[i].0);
                }
            }
        }
        assert forall|id: u64| #[trigger] s.contains(id) implies exists|i: int|
            0 <= i < casts.len() && (#[trigger] casts[i]).0 == id && casts_output(
                casts[i].1,
                output,
            ) by {
            let k = choose|k: int| 0 <= k < s.len() && s[k] == id;
            if k < hs.len() {
                assert(hs[k] == id);
                assert(hs.contains(id));
                let i = choose|i: int|
                    0 <= i < head.len() && (#[trigger] head[i]).0 == id && casts_output(
                        head[i].1,
                        output,
                    );
                assert(casts[i].0 == id);
            } else {
                assert(casts[casts.len() - 1].0 == id);
            }
        }
        assert forall|k: int| 0 <= k < s.len() implies t@.contains_key(#[trigger] s[k]) by {
            if k < hs.len() {
                assert(hs[k] == s[k]);
            }
        }
    }
}

/// The sessions found for a window are casts of the table, none twice.
proof fn lemma_sessions_of(t: IdMap<CastTarget>, casts: Seq<(u64, CastTarget)>, window: u64)
    requires
        t.wf(),
        casts.len() <= t.entries@.len(),
        casts == t.entries@.subrange(0, casts.len() as int),
    ensures
        sessions_of(casts, window).no_duplicates(),
        forall|k: int|
            0 <= k < sessions_of(casts, window).len() ==> t@.contains_key(
                #[trigger] sessions_of(casts, window)[k],
            ),
        forall|id: u64| #[trigger]
            sessions_of(casts, window).contains(id) ==> exists|i: int|
                0 <= i < casts.len() && (#[trigger] casts[i]).0 == id && casts_window(
                    casts[i].1,
                    window,
                ),
    decreases casts.len(),
{
    if casts.len() > 0 {
        let head = casts.drop_last();
        assert(head =~= t.entries@.subrange(0, head.len() as int));
        lemma_sessions_of(t, head, window);
        let hs = sessions_of(head, window);
        let s = sessions_of(casts, window);
        t.lemma_entry(casts.len() - 1);
        assert(casts.last() == t.entries@[casts.len() - 1]);
        if casts_window(casts.last().1, window) {
            assert(!hs.contains(casts.last().0)) by {
                if hs.contains(casts.last().0) {
                    let i = choose|i: int|
                        0 <= i < head.len() && (#[trigger] head[i]).0 == casts.last().0
                            && casts_window(head[i].1, window);
                    assert(t.entries@[i].0 == head[i].0);
                }
            }
        }
        assert forall|id: u64| #[trigger] s.contains(id) implies exists|i: int|
            0 <= i < casts.len() && (#[trigger] casts[i]).0 == id && casts_window(
                casts[i].1,
                window,
            ) by {
            let k = choose|k: int| 0 <= k < s.len() && s[k] == id;
            if k < hs.len() {
                assert(hs[k] == id);
                assert(hs.contains(id));
                let i = choose|i: int|
                    0 <= i < head.len() && (#[trigger] head[i]).0 == id && casts_window(
                        head[i].1,
                        window,
                    );
                assert(casts[i].0 == id);
            } else {
                assert(casts[casts.len() - 1].0 == id);
            }
        }
        assert forall|k: int| 0 <= k < s.len() implies t@.contains_key(#[trigger] s[k]) by {
            if k < hs.len() {
                assert(hs[k] == s[k]);
            }
        }
    }
}

} // verus!
