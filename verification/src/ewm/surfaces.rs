//! Surfaces as a whole: where they are, what is hit at a point, what gets frame callbacks and
//! what a commit does.
use super::focus::output_for_point;
use super::layers::{layer_committed, no_layer, placed_layer, LayerCommit};
use super::layouts::layout_of;
use super::lock::all_redrawn;
use super::outputs::zone_ok;
use super::windows::{content_noted, lock_content_noted};
use super::{DragIcon, Ewm, KeyboardInteractivity, Layer, LayerInfo, WindowState};
use crate::geometry::{center_offset, fullscreen_center_offset, Point, Size};
use crate::laws::placement::lemma_views;
use crate::layout::{
    entry_covers, entry_found, entry_origin, layout_entry_under, place_window, window_position,
    EntryKind, LayoutEntry, MappedOutput,
};
use crate::outputs::first_containing;
use crate::redraw::OutputState;
use crate::tables::IdMap;
use crate::text::str_eq;
use vstd::prelude::*;

verus! {

/// `j` is the topmost entry that covers the point.
pub open spec fn topmost_at(
    entries: Seq<LayoutEntry>,
    out: MappedOutput,
    p: Point,
    j: int,
) -> bool {
    &&& 0 <= j < entries.len()
    &&& entry_covers(entries[j], out, p)
    &&& forall|k: int| 0 <= k < j ==> !entry_covers(#[trigger] entries[k], out, p)
}

/// `r` is the window whose entry is the topmost to cover the point.
pub open spec fn window_hit(
    entries: Seq<LayoutEntry>,
    out: MappedOutput,
    p: Point,
    r: Option<u64>,
) -> bool {
    match r {
        Some(id) => exists|j: int| #[trigger]
            topmost_at(entries, out, p, j) && entries[j].id == id,
        None => forall|j: int| !#[trigger] topmost_at(entries, out, p, j),
    }
}

/// How a point in a view of a window is turned into a point of the window.
#[derive(Clone, Copy, Debug, PartialEq, Eq, Structural)]
pub enum PointerMapping {
    /// One to one.
    Direct,
    /// One to one, with the window this far from the view's origin.
    Offset { x: i32, y: i32 },
    /// The window is scaled up evenly until it fills the output.
    FillOutput { window: Size, output: Size },
    /// The window is scaled evenly by the smaller of the ratios of window and entry.
    FillEntry { window: Size, width: u32, height: u32 },
}

/// A view of a window that is tried for a surface at a point.
#[derive(Clone, Copy, Debug, PartialEq, Eq, Structural)]
pub struct LayoutHit {
    pub id: u64,
    /// Where the view starts in the global space.
    pub x: i64,
    pub y: i64,
    pub mapping: PointerMapping,
}

/// How a point in the entry's view is turned into a point of its window.
pub open spec fn mapping_of(e: LayoutEntry, out: MappedOutput, window: Size) -> PointerMapping {
    if e.fullscreen && e.primary {
        PointerMapping::Offset {
            x: center_offset(window.w as int, out.geo.size.w as int) as i32,
            y: center_offset(window.h as int, out.geo.size.h as int) as i32,
        }
    } else if e.fullscreen {
        PointerMapping::FillOutput { window, output: out.geo.size }
    } else if e.primary || e.w == 0 || e.h == 0 {
        PointerMapping::Direct
    } else {
        PointerMapping::FillEntry { window, width: e.w, height: e.h }
    }
}

/// The view that an entry gives of its window.
pub open spec fn hit_of(e: LayoutEntry, out: MappedOutput, window: Size) -> LayoutHit {
    LayoutHit {
        id: e.id,
        x: entry_origin(e, out).0 as i64,
        y: entry_origin(e, out).1 as i64,
        mapping: mapping_of(e, out, window),
    }
}

/// The views that are tried, topmost first: those of windows that exist, down to the first that
/// is fullscreen.
pub open spec fn hits_of(
    entries: Seq<LayoutEntry>,
    out: MappedOutput,
    sizes: Map<u64, Size>,
) -> Seq<LayoutHit>
    decreases entries.len(),
{
    if entries.len() == 0 {
        Seq::empty()
    } else if !sizes.contains_key(entries[0].id) {
        hits_of(entries.skip(1), out, sizes)
    } else if entries[0].fullscreen {
        seq![hit_of(entries[0], out, sizes[entries[0].id])]
    } else {
        seq![hit_of(entries[0], out, sizes[entries[0].id])] + hits_of(entries.skip(1), out, sizes)
    }
}

/// The windows' sizes are not negative.
pub open spec fn sizes_positive(sizes: Map<u64, Size>) -> bool {
    forall|id: u64| #[trigger]
        sizes.contains_key(id) ==> sizes[id].w >= 0 && sizes[id].h >= 0
}

/// The views of an output that are tried for a surface at a point, topmost first. `sizes` holds
/// the windows and their sizes.
pub fn layout_hits(entries: &Vec<LayoutEntry>, out: &MappedOutput, sizes: &IdMap<Size>) -> (r: Vec<
    LayoutHit,
>)
    requires
        sizes.wf(),
        sizes_positive(sizes@),
    ensures
        r@ == hits_of(entries@, *out, sizes@),
        forall|k: int|
            0 <= k < r@.len() ==> exists|j: int|
                0 <= j < entries@.len() && k <= j && (#[trigger] entries@[j]).id == (
                #[trigger] r@[k]).id && (if entries@[j].fullscreen {
                    r@[k].x == out.geo.loc.x && r@[k].y == out.geo.loc.y
                } else {
                    r@[k].x == out.geo.loc.x + out.zone.loc.x + entries@[j].x && r@[k].y
                        == out.geo.loc.y + out.zone.loc.y + entries@[j].y
                }),
{
    proof {
        lemma_views(entries@, *out, sizes@);
    }
    let mut hits: Vec<LayoutHit> = Vec::new();
    let mut i: usize = 0;
    assert(entries@.skip(0) =~= entries@);
    assert(hits@ + hits_of(entries@, *out, sizes@) =~= hits_of(entries@, *out, sizes@));
    while i < entries.len()
        invariant
            i <= entries@.len(),
            sizes.wf(),
            sizes_positive(sizes@),
            hits@ + hits_of(entries@.skip(i as int), *out, sizes@) == hits_of(
                entries@,
                *out,
                sizes@,
            ),
        decreases entries@.len() - i,
    {
        let e: LayoutEntry = entries[i];
        assert(entries@.skip(i as int)[0] == e);
        assert(entries@.skip(i as int).skip(1) =~= entries@.skip(i + 1));
        match sizes.get(e.id) {
            Some(s) => {
                let window: Size = *s;
                let gx: i64 = out.geo.loc.x as i64;
                let gy: i64 = out.geo.loc.y as i64;
                let (x, y, mapping): (i64, i64, PointerMapping) = if e.fullscreen {
                    if e.primary {
                        let (cx, cy) = fullscreen_center_offset(window, out.geo.size);
                        (gx, gy, PointerMapping::Offset { x: cx, y: cy })
                    } else {
                        (gx, gy, PointerMapping::FillOutput { window, output: out.geo.size })
                    }
                } else {
                    let ex: i64 = gx + out.zone.loc.x as i64 + e.x as i64;
                    let ey: i64 = gy + out.zone.loc.y as i64 + e.y as i64;
                    if e.primary || e.w == 0 || e.h == 0 {
                        (ex, ey, PointerMapping::Direct)
                    } else {
                        (ex, ey, PointerMapping::FillEntry { window, width: e.w, height: e.h })
                    }
                };
                let ghost before = hits@;
                let hit = LayoutHit { id: e.id, x, y, mapping };
                assert(hit == hit_of(e, *out, window));
                hits.push(hit);
                assert(hits@ =~= before + seq![hit]);
                if e.fullscreen {
                    proof {
                        lemma_views(entries@, *out, sizes@);
                    }
                    return hits;
                }
                assert(before + (seq![hit] + hits_of(entries@.skip(i + 1), *out, sizes@)) =~= hits@
                    + hits_of(entries@.skip(i + 1), *out, sizes@));
            },
            None => {},
        }
        i = i + 1;
    }
    assert(hits@ + hits_of(entries@.skip(i as int), *out, sizes@) =~= hits@);
    hits
}

/// A surface tree that takes part in an output's frames.
#[derive(Clone, Copy, Debug, PartialEq, Eq, Structural)]
pub enum FrameTarget {
    Window(u64),
    Layer(u64),
    Lock(u64),
    /// The icon of a drag operation.
    Icon(u64),
}

/// Every window.
pub open spec fn window_targets(windows: Seq<(u64, WindowState)>) -> Seq<FrameTarget> {
    windows.map_values(|e: (u64, WindowState)| FrameTarget::Window(e.0))
}

/// The layer surfaces of an output.
pub open spec fn layer_targets(layers: Seq<LayerInfo>, output: Seq<char>) -> Seq<FrameTarget>
    decreases layers.len(),
{
    if layers.len() == 0 {
        Seq::empty()
    } else {
        let head = layer_targets(layers.drop_last(), output);
        if layers.last().output@ == output {
            head.push(FrameTarget::Layer(layers.last().surface))
        } else {
            head
        }
    }
}

/// The lock surface of an output.
pub open spec fn lock_target(surface: Option<u64>) -> Seq<FrameTarget> {
    match surface {
        Some(s) => seq![FrameTarget::Lock(s)],
        None => Seq::empty(),
    }
}

/// The icon of a drag operation, if there is one.
pub open spec fn icon_target(icon: Option<DragIcon>) -> Seq<FrameTarget> {
    match icon {
        Some(i) => seq![FrameTarget::Icon(i.surface)],
        None => Seq::empty(),
    }
}

/// The surface trees that take part in an output's frames.
pub open spec fn targets_on(e: Ewm, output: Seq<char>) -> Seq<FrameTarget> {
    window_targets(e.windows.entries@) + layer_targets(e.layers@, output) + lock_target(
        lock_surface_on(e, output),
    ) + icon_target(e.drag_icon)
}

/// The surface trees that get frame callbacks when none came for long.
#[derive(Debug)]
pub struct FallbackTargets {
    /// Every window. No output is named for them.
    pub windows: Vec<FrameTarget>,
    /// The layer surfaces and lock surfaces, output by output.
    pub outputs: Vec<(String, Vec<FrameTarget>)>,
    /// The icon of a drag operation, and an output that is named for it if there is any.
    pub icon: Option<(FrameTarget, Option<String>)>,
}

/// The output's lock surface, if it is known and has one.
pub open spec fn lock_surface_on(e: Ewm, output: Seq<char>) -> Option<u64> {
    if e.output_state@.contains_key(output) {
        e.output_state@[output].lock_surface
    } else {
        None
    }
}

/// The layer surfaces and lock surfaces of the outputs, output by output.
pub open spec fn per_output_targets(
    states: Seq<(String, OutputState)>,
    layers: Seq<LayerInfo>,
) -> Seq<(Seq<char>, Seq<FrameTarget>)> {
    states.map_values(
        |e: (String, OutputState)|
            (e.0@, layer_targets(layers, e.0@) + lock_target(e.1.lock_surface)),
    )
}

/// A mapped layer surface in the state dump.
#[derive(Debug)]
pub struct LayerSurfaceInfo {
    pub surface: u64,
    pub layer: Layer,
    pub output: String,
    pub interactivity: KeyboardInteractivity,
    pub on_demand_focused: bool,
}

/// The layer surfaces on one layer of an output.
pub open spec fn dumped_layer(
    layers: Seq<LayerInfo>,
    output: String,
    layer: Layer,
    on_demand: Option<u64>,
) -> Seq<LayerSurfaceInfo>
    decreases layers.len(),
{
    if layers.len() == 0 {
        Seq::empty()
    } else {
        let head = dumped_layer(layers.drop_last(), output, layer, on_demand);
        let l = layers.last();
        if l.output@ == output@ && l.layer == layer {
            head.push(
                LayerSurfaceInfo {
                    surface: l.surface,
                    layer,
                    output,
                    interactivity: l.interactivity,
                    on_demand_focused: on_demand == Some(l.surface),
                },
            )
        } else {
            head
        }
    }
}

/// The layer surfaces of an output, from the top layer down.
pub open spec fn dumped_output(e: Ewm, output: String) -> Seq<LayerSurfaceInfo> {
    dumped_layer(e.layers@, output, Layer::Overlay, e.on_demand_layer) + dumped_layer(
        e.layers@,
        output,
        Layer::Top,
        e.on_demand_layer,
    ) + dumped_layer(e.layers@, output, Layer::Bottom, e.on_demand_layer) + dumped_layer(
        e.layers@,
        output,
        Layer::Background,
        e.on_demand_layer,
    )
}

/// The layer surfaces of the mapped outputs.
pub open spec fn dumped(e: Ewm, space: Seq<(String, MappedOutput)>) -> Seq<LayerSurfaceInfo>
    decreases space.len(),
{
    if space.len() == 0 {
        Seq::empty()
    } else {
        dumped(e, space.drop_last()) + dumped_output(e, space.last().0)
    }
}

/// The name of a layer, for the state dump.
pub fn layer_name(layer: Layer) -> (r: &'static str)
    ensures
        r@ == match layer {
            Layer::Background => "Background"@,
            Layer::Bottom => "Bottom"@,
            Layer::Top => "Top"@,
            Layer::Overlay => "Overlay"@,
        },
{
    match layer {
        Layer::Background => "Background",
        Layer::Bottom => "Bottom",
        Layer::Top => "Top",
        Layer::Overlay => "Overlay",
    }
}

/// A commit of a surface, with what is known of the surface's place in its tree.
pub struct SurfaceCommit {
    /// It is the surface that its tree starts with.
    pub is_root: bool,
    /// How far the surface's content moved.
    pub delta: Point,
    /// The layer surface, if any, that the surface belongs to.
    pub layer_root: u64,
    pub layer: LayerCommit,
    /// It takes effect with the commit of its parent only.
    pub synced: bool,
    /// The window that the surface belongs to.
    pub window: Option<u64>,
    pub app_id: String,
    pub title: String,
    /// The surface that its tree starts with, where that is a lock surface or a drag icon.
    pub root: u64,
}

/// What a commit was of.
#[derive(Clone, Copy, Debug, PartialEq, Eq, Structural)]
pub enum CommitKind {
    DragIcon,
    Layer,
    Synced,
    Window(u64),
    Other,
}

/// The surface belongs to the icon that is being dragged.
pub open spec fn is_of_icon(icon: Option<DragIcon>, c: SurfaceCommit) -> bool {
    icon is Some && icon->0.surface == c.root
}

/// The icon after a commit of a surface in its tree: its own commits move it.
pub open spec fn icon_after(icon: DragIcon, c: SurfaceCommit) -> DragIcon {
    if c.is_root {
        DragIcon {
            offset: Point {
                x: (icon.offset.x + c.delta.x) as i32,
                y: (icon.offset.y + c.delta.y) as i32,
            },
            ..icon
        }
    } else {
        icon
    }
}

/// The offset of the icon fits.
pub open spec fn icon_fits(icon: DragIcon, c: SurfaceCommit) -> bool {
    c.is_root ==> i32::MIN <= icon.offset.x + c.delta.x <= i32::MAX && i32::MIN <= icon.offset.y
        + c.delta.y <= i32::MAX
}

/// What a commit is of. The kinds are tried in this order.
pub open spec fn commit_kind(e: Ewm, c: SurfaceCommit) -> CommitKind {
    if is_of_icon(e.drag_icon, c) {
        CommitKind::DragIcon
    } else if !no_layer(e.layers@, e.space@, c.layer_root) {
        CommitKind::Layer
    } else if c.synced {
        CommitKind::Synced
    } else if c.window is Some {
        CommitKind::Window(c.window->0)
    } else {
        CommitKind::Other
    }
}

/// The state `after` follows `before` once a surface committed.
pub open spec fn committed(before: Ewm, after: Ewm, c: SurfaceCommit) -> bool {
    match commit_kind(before, c) {
        CommitKind::DragIcon => all_redrawn(
            (Ewm { drag_icon: Some(icon_after(before.drag_icon->0, c)), ..before }),
            after,
        ),
        CommitKind::Layer => layer_committed(before, after, c.layer_root, c.layer),
        CommitKind::Synced => after == before,
        CommitKind::Window(id) => content_noted(
            before,
            after,
            id,
            c.is_root,
            c.app_id,
            c.title,
        ),
        CommitKind::Other => lock_content_noted(before, after, c.root),
    }
}

/// Where the pointer goes.
#[derive(Clone, Copy, Debug, PartialEq, Eq, Structural)]
pub enum PointerRoute {
    /// To this lock surface, or to none.
    Lock(Option<u64>),
    /// To what is under it.
    Under,
}

impl Ewm {
    /// Get the global position of a window.
    ///
    /// For layout surfaces (managed via layouts): uses the primary entry's position relative to
    /// the output's working area. For other windows (Emacs frames): uses their place in the
    /// global space.
    pub fn window_global_position(&self, id: u64, window: Size) -> (r: Option<(i64, i64)>)
        requires
            self.wf(),
            window.w >= 0,
            window.h >= 0,
        ensures
            if !self.windows@.contains_key(id) {
                r is None
            } else if self.layouts.surface_outputs.shown(id) {
                exists|x: Option<(String, LayoutEntry)>| #[trigger]
                    entry_found(self.layouts.outputs.entries@, id, EntryKind::Primary, x) && match x {
                        Some((name, e)) => if self.space@.contains_key(name@) {
                            &&& r matches Some((a, b))
                            &&& (a as int, b as int) == window_position(
                                e,
                                self.space@[name@],
                                window,
                            )
                        } else {
                            r is None
                        },
                        None => r is None,
                    }
            } else {
                match self.windows@[id].at {
                    Some(p) => r == Some((p.x as i64, p.y as i64)),
                    None => r is None,
                }
            },
    {
        let at: Option<Point> = match self.windows.get(id) {
            Some(w) => w.at,
            None => {
                return None;
            },
        };
        if !self.layouts.surface_outputs.contains_surface(id) {
            return match at {
                Some(p) => Some((p.x as i64, p.y as i64)),
                None => None,
            };
        }
        let found = self.layouts.primary_output_for_surface(id);
        match found {
            Some((name, entry)) => {
                match self.space.get(name.as_str()) {
                    Some(m) => Some(place_window(&entry, m, window)),
                    None => None,
                }
            },
            None => None,
        }
    }

    /// Hit-test layout surfaces under a global position, returning the surface ID.
    ///
    /// `pos` is the position with its fractions cut off toward zero, which decides the output;
    /// `floor` has them cut off downward.
    pub fn layout_surface_id_under(&self, pos: Point, floor: Point) -> (r: Option<u64>)
        requires
            self.wf(),
        ensures
            match output_for_point(self.space.entries@, pos) {
                Some(n) => window_hit(layout_of(*self, n), self.space@[n], floor, r),
                None => r is None,
            },
    {
        let name = match self.output_at(pos) {
            Some(n) => n,
            None => {
                return None;
            },
        };
        proof {
            let s = self.space.entries@;
            if exists|k: int| first_containing(s, pos, k) {
                self.space.lemma_entry(choose|k: int| first_containing(s, pos, k));
            } else {
                self.space.lemma_entry(0);
            }
            assert(self.space@.contains_key(name@));
        }
        let m = match self.space.get(name.as_str()) {
            Some(m) => m,
            None => {
                return None;
            },
        };
        let entries = match self.layouts.outputs.get(name.as_str()) {
            Some(entries) => entries,
            None => {
                return None;
            },
        };
        let hit = match layout_entry_under(entries, m, floor) {
            Some((e, _, _)) => {
                proof {
                    let j = choose|j: int|
                        0 <= j < entries@.len() && #[trigger] entries@[j] == e && entry_covers(
                            e,
                            *m,
                            floor,
                        ) && forall|k: int|
                            0 <= k < j ==> !entry_covers(#[trigger] entries@[k], *m, floor);
                    assert(topmost_at(entries@, *m, floor, j));
                }
                Some(e.id)
            },
            None => None,
        };
        assert(window_hit(entries@, *m, floor, hit));
        hit
    }

    /// The surface trees that take part in an output's frames: every window, the output's layer
    /// surfaces and its lock surface, and the icon of a drag.
    pub fn frame_targets(&self, output: &str) -> (r: Vec<FrameTarget>)
        requires
            self.wf(),
        ensures
            r@ == targets_on(*self, output@),
    {
        let mut targets: Vec<FrameTarget> = Vec::new();
        let mut i: usize = 0;
        while i < self.windows.entries.len()
            invariant
                i <= self.windows.entries@.len(),
                targets@ == window_targets(self.windows.entries@.take(i as int)),
            decreases self.windows.entries@.len() - i,
        {
            targets.push(FrameTarget::Window(self.windows.entries[i].0));
            i = i + 1;
            assert(targets@ =~= window_targets(self.windows.entries@.take(i as int)));
        }
        assert(self.windows.entries@.take(i as int) =~= self.windows.entries@);
        let lock: Option<u64> = match self.output_state.find(output) {
            Some(k) => self.output_state.entries[k].1.lock_surface,
            None => None,
        };
        let mut rest = self.output_targets(output, lock);
        let ghost w = targets@;
        let ghost t = rest@;
        targets.append(&mut rest);
        assert(targets@ =~= w + layer_targets(self.layers@, output@) + lock_target(lock));
        let ghost shown = targets@;
        match self.drag_icon {
            Some(icon) => {
                targets.push(FrameTarget::Icon(icon.surface));
            },
            None => {},
        }
        assert(targets@ =~= shown + icon_target(self.drag_icon));
        targets
    }

    /// The layer surfaces and the lock surface of an output.
    fn output_targets(&self, output: &str, lock: Option<u64>) -> (r: Vec<FrameTarget>)
        ensures
            r@ == layer_targets(self.layers@, output@) + lock_target(lock),
    {
        let mut targets: Vec<FrameTarget> = Vec::new();
        let mut i: usize = 0;
        while i < self.layers.len()
            invariant
                i <= self.layers@.len(),
                targets@ == layer_targets(self.layers@.take(i as int), output@),
            decreases self.layers@.len() - i,
        {
            assert(self.layers@.take(i + 1).drop_last() =~= self.layers@.take(i as int));
            if str_eq(self.layers[i].output.as_str(), output) {
                targets.push(FrameTarget::Layer(self.layers[i].surface));
            }
            i = i + 1;
        }
        assert(self.layers@.take(i as int) =~= self.layers@);
        let ghost l = targets@;
        match lock {
            Some(s) => {
                targets.push(FrameTarget::Lock(s));
                assert(targets@ =~= l + lock_target(lock));
            },
            None => {
                assert(targets@ =~= l + lock_target(lock));
            },
        }
        targets
    }

    /// The surface trees that get frame callbacks when none came for long: every window, the
    /// surfaces of every output, and the icon of a drag.
    pub fn fallback_frame_targets(&self) -> (r: FallbackTargets)
        requires
            self.wf(),
        ensures
            r.windows@ == window_targets(self.windows.entries@),
            r.outputs@.len() == self.output_state.entries@.len(),
            forall|k: int|
                0 <= k < r.outputs@.len() ==> (#[trigger] r.outputs@[k]).0@ == per_output_targets(
                    self.output_state.entries@,
                    self.layers@,
                )[k].0 && r.outputs@[k].1@ == per_output_targets(
                    self.output_state.entries@,
                    self.layers@,
                )[k].1,
            r.icon == match self.drag_icon {
                Some(i) => Some(
                    (
                        FrameTarget::Icon(i.surface),
                        if self.output_state.entries@.len() > 0 {
                            Some(self.output_state.entries@[0].0)
                        } else {
                            None
                        },
                    ),
                ),
                None => None,
            },
    {
        let mut windows: Vec<FrameTarget> = Vec::new();
        let mut i: usize = 0;
        while i < self.windows.entries.len()
            invariant
                i <= self.windows.entries@.len(),
                windows@ == window_targets(self.windows.entries@.take(i as int)),
            decreases self.windows.entries@.len() - i,
        {
            windows.push(FrameTarget::Window(self.windows.entries[i].0));
            i = i + 1;
            assert(windows@ =~= window_targets(self.windows.entries@.take(i as int)));
        }
        assert(self.windows.entries@.take(i as int) =~= self.windows.entries@);
        let mut outputs: Vec<(String, Vec<FrameTarget>)> = Vec::new();
        let mut k: usize = 0;
        while k < self.output_state.entries.len()
            invariant
                k <= self.output_state.entries@.len(),
                outputs@.len() == k,
                forall|j: int|
                    0 <= j < k ==> (#[trigger] outputs@[j]).0@ == per_output_targets(
                        self.output_state.entries@,
                        self.layers@,
                    )[j].0 && outputs@[j].1@ == per_output_targets(
                        self.output_state.entries@,
                        self.layers@,
                    )[j].1,
            decreases self.output_state.entries@.len() - k,
        {
            let name = self.output_state.entries[k].0.clone();
            let lock: Option<u64> = self.output_state.entries[k].1.lock_surface;
            let targets = self.output_targets(name.as_str(), lock);
            outputs.push((name, targets));
            k = k + 1;
        }
        let icon = match self.drag_icon {
            Some(i) => {
                let named = if self.output_state.entries.len() > 0 {
                    Some(self.output_state.entries[0].0.clone())
                } else {
                    None
                };
                Some((FrameTarget::Icon(i.surface), named))
            },
            None => None,
        };
        FallbackTargets { windows, outputs, icon }
    }

    /// Get info about all mapped layer surfaces for state dump.
    pub fn get_layer_surfaces_info(&self) -> (r: Vec<LayerSurfaceInfo>)
        ensures
            r@ == dumped(*self, self.space.entries@),
    {
        let mut list: Vec<LayerSurfaceInfo> = Vec::new();
        let mut i: usize = 0;
        while i < self.space.entries.len()
            invariant
                i <= self.space.entries@.len(),
                list@ == dumped(*self, self.space.entries@.take(i as int)),
            decreases self.space.entries@.len() - i,
        {
            assert(self.space.entries@.take(i + 1).drop_last() =~= self.space.entries@.take(
                i as int,
            ));
            let ghost before = list@;
            let name = &self.space.entries[i].0;
            self.dump_layer(name, Layer::Overlay, &mut list);
            self.dump_layer(name, Layer::Top, &mut list);
            self.dump_layer(name, Layer::Bottom, &mut list);
            self.dump_layer(name, Layer::Background, &mut list);
            assert(list@ =~= before + dumped_output(*self, self.space.entries@[i as int].0));
            i = i + 1;
        }
        assert(self.space.entries@.take(i as int) =~= self.space.entries@);
        list
    }

    fn dump_layer(&self, output: &String, layer: Layer, list: &mut Vec<LayerSurfaceInfo>)
        ensures
            final(list)@ == old(list)@ + dumped_layer(
                self.layers@,
                *output,
                layer,
                self.on_demand_layer,
            ),
    {
        let ghost l0 = list@;
        let mut i: usize = 0;
        assert(l0 + dumped_layer(self.layers@.take(0), *output, layer, self.on_demand_layer)
            =~= l0);
        while i < self.layers.len()
            invariant
                i <= self.layers@.len(),
                list@ == l0 + dumped_layer(
                    self.layers@.take(i as int),
                    *output,
                    layer,
                    self.on_demand_layer,
                ),
            decreases self.layers@.len() - i,
        {
            assert(self.layers@.take(i + 1).drop_last() =~= self.layers@.take(i as int));
            let l = &self.layers[i];
            if str_eq(l.output.as_str(), output.as_str()) && l.layer == layer {
                let focused = match self.on_demand_layer {
                    Some(s) => s == l.surface,
                    None => false,
                };
                let ghost before = list@;
                list.push(
                    LayerSurfaceInfo {
                        surface: l.surface,
                        layer,
                        output: output.clone(),
                        interactivity: l.interactivity,
                        on_demand_focused: focused,
                    },
                );
                assert(list@ =~= l0 + dumped_layer(
                    self.layers@.take(i + 1),
                    *output,
                    layer,
                    self.on_demand_layer,
                ));
            }
            i = i + 1;
        }
        assert(self.layers@.take(i as int) =~= self.layers@);
    }

    /// A drag operation starts, with or without an icon.
    pub fn dnd_requested(&mut self, icon: Option<u64>)
        requires
            old(self).wf(),
        ensures
            final(self).wf(),
            all_redrawn(
                (Ewm {
                    drag_icon: match icon {
                        Some(surface) => Some(
                            DragIcon { surface, offset: Point { x: 0, y: 0 } },
                        ),
                        None => None,
                    },
                    ..*old(self)
                }),
                *final(self),
            ),
    {
        self.drag_icon = match icon {
            Some(surface) => Some(DragIcon { surface, offset: Point { x: 0, y: 0 } }),
            None => None,
        };
        self.queue_redraw_all();
    }

    /// A drag operation ended.
    pub fn dropped(&mut self)
        requires
            old(self).wf(),
        ensures
            final(self).wf(),
            all_redrawn((Ewm { drag_icon: None, ..*old(self) }), *final(self)),
    {
        self.drag_icon = None;
        self.queue_redraw_all();
    }

    /// A surface committed new state. The icon of a drag comes first, then layer surfaces, then windows, then lock
    /// surfaces.
    pub fn commit(&mut self, c: SurfaceCommit) -> (r: CommitKind)
        requires
            old(self).wf(),
            forall|i: int| #[trigger]
                placed_layer(old(self).layers@, old(self).space@, c.layer_root, i) ==> zone_ok(
                    old(self).space@,
                    old(self).layers@[i].output@,
                    c.layer.zone,
                ),
            c.window is Some ==> old(self).windows@.contains_key(c.window->0),
            is_of_icon(old(self).drag_icon, c) ==> icon_fits(old(self).drag_icon->0, c),
        ensures
            final(self).wf(),
            r == commit_kind(*old(self), c),
            committed(*old(self), *final(self), c),
    {
        match self.drag_icon {
            Some(icon) => {
                if icon.surface == c.root {
                    if c.is_root {
                        let x: i32 = icon.offset.x + c.delta.x;
                        let y: i32 = icon.offset.y + c.delta.y;
                        self.drag_icon = Some(
                            DragIcon { surface: icon.surface, offset: Point { x, y } },
                        );
                    }
                    self.queue_redraw_all();
                    return CommitKind::DragIcon;
                }
            },
            None => {},
        }
        if self.handle_layer_surface_commit(c.layer_root, &c.layer) {
            return CommitKind::Layer;
        }
        if c.synced {
            return CommitKind::Synced;
        }
        match c.window {
            Some(id) => {
                self.window_committed(id, c.is_root, c.app_id, c.title);
                CommitKind::Window(id)
            },
            None => {
                self.lock_surface_committed(c.root);
                CommitKind::Other
            },
        }
    }

    /// Where the pointer goes: to the lock surface while the session is locked.
    pub fn pointer_route(&self) -> (r: PointerRoute)
        requires
            self.wf(),
        ensures
            r == if self.lock_state is Unlocked {
                PointerRoute::Under
            } else {
                PointerRoute::Lock(self.lock_focus())
            },
    {
        if self.is_locked() {
            PointerRoute::Lock(self.lock_surface_focus())
        } else {
            PointerRoute::Under
        }
    }
}

/// The icon of a drag takes part in the frames of every output from the start of the drag to its
/// end, as the last surface, and no icon does after that.
pub proof fn law_icon_is_shown_while_dragged(started: Ewm, ended: Ewm, output: Seq<char>, k: int)
    requires
        started.drag_icon is Some,
        ended.drag_icon is None,
        0 <= k < targets_on(ended, output).len(),
    ensures
        targets_on(started, output).last() == FrameTarget::Icon(started.drag_icon->0.surface),
        !(targets_on(ended, output)[k] is Icon),
{
    assert(targets_on(started, output).last() == icon_target(started.drag_icon)[0]);
    lemma_layer_targets(ended.layers@, output);
}

proof fn lemma_layer_targets(layers: Seq<LayerInfo>, output: Seq<char>)
    ensures
        forall|k: int|
            0 <= k < layer_targets(layers, output).len() ==> (#[trigger] layer_targets(
                layers,
                output,
            )[k]) is Layer,
    decreases layers.len(),
{
    if layers.len() > 0 {
        lemma_layer_targets(layers.drop_last(), output);
    }
}

/// Nothing behind a fullscreen view is tried: the view is the last one.
pub proof fn law_fullscreen_view_is_last(
    entries: Seq<LayoutEntry>,
    out: MappedOutput,
    sizes: Map<u64, Size>,
    i: int,
)
    requires
        0 <= i < entries.len(),
        entries[i].fullscreen,
        sizes.contains_key(entries[i].id),
    ensures
        hits_of(entries, out, sizes).len() <= i + 1,
        hits_of(entries, out, sizes).len() > 0,
    decreases i,
{
    if i > 0 {
        assert(entries.skip(1)[i - 1] == entries[i]);
        law_fullscreen_view_is_last(entries.skip(1), out, sizes, i - 1);
    }
}

} // verus!
