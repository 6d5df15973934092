//! Which surface the keyboard talks to, and on which output things are.
use super::{Ewm, KeyboardInteractivity, Layer, LayerInfo, LockState};
use crate::effect::{Effect, FocusTarget};
use crate::geometry::Point;
use crate::layout::{before, is_first_entry, slot, EntryKind, LayoutEntry, Layouts, MappedOutput};
use crate::outputs::{find_containing, first_containing, one_requested};
use crate::redraw::OutputState;
use crate::text::str_eq;
use vstd::prelude::*;

verus! {

/// What is looked for among the layer surfaces.
#[derive(Clone, Copy, Debug, PartialEq, Eq, Structural)]
pub enum LayerWant {
    /// One that takes the keyboard for itself.
    Exclusive,
    /// This one.
    Surface(u64),
}

impl LayerWant {
    pub open spec fn meets(self, s: LayerInfo) -> bool {
        match self {
            LayerWant::Exclusive => s.interactivity == KeyboardInteractivity::Exclusive,
            LayerWant::Surface(id) => s.surface == id,
        }
    }
}

/// The first of the layer surfaces that is on the output and the layer and is the one wanted.
pub open spec fn first_layer(
    layers: Seq<LayerInfo>,
    output: Seq<char>,
    layer: Layer,
    want: LayerWant,
) -> Option<u64>
    decreases layers.len(),
{
    if layers.len() == 0 {
        None
    } else {
        match first_layer(layers.drop_last(), output, layer, want) {
            Some(s) => Some(s),
            None => {
                let s = layers.last();
                if s.output@ == output && s.layer == layer && want.meets(s) {
                    Some(s.surface)
                } else {
                    None
                }
            },
        }
    }
}

/// The first that is there.
pub open spec fn or_else(a: Option<u64>, b: Option<u64>) -> Option<u64> {
    if a is Some {
        a
    } else {
        b
    }
}

fn first_of(a: Option<u64>, b: Option<u64>) -> (r: Option<u64>)
    ensures
        r == or_else(a, b),
{
    if a.is_some() {
        a
    } else {
        b
    }
}

/// The layer surface that was clicked, on whatever layer of the output it is.
pub open spec fn on_demand_here(
    layers: Seq<LayerInfo>,
    output: Seq<char>,
    on_demand: Option<u64>,
) -> Option<u64> {
    match on_demand {
        Some(id) => {
            let want = LayerWant::Surface(id);
            or_else(
                first_layer(layers, output, Layer::Overlay, want),
                or_else(
                    first_layer(layers, output, Layer::Top, want),
                    or_else(
                        first_layer(layers, output, Layer::Bottom, want),
                        first_layer(layers, output, Layer::Background, want),
                    ),
                ),
            )
        },
        None => None,
    }
}

/// The layer surface of one output that has the keyboard: an exclusive one on Overlay, then on
/// Top, then the clicked one, then, if no window is focused, an exclusive one on Bottom, then on
/// Background.
pub open spec fn output_layer_focus(
    layers: Seq<LayerInfo>,
    output: Seq<char>,
    on_demand: Option<u64>,
    window_focused: bool,
) -> Option<u64> {
    let excl = LayerWant::Exclusive;
    or_else(
        first_layer(layers, output, Layer::Overlay, excl),
        or_else(
            first_layer(layers, output, Layer::Top, excl),
            or_else(
                on_demand_here(layers, output, on_demand),
                if window_focused {
                    None
                } else {
                    or_else(
                        first_layer(layers, output, Layer::Bottom, excl),
                        first_layer(layers, output, Layer::Background, excl),
                    )
                },
            ),
        ),
    )
}

/// The layer surface that has the keyboard among the first `n` outputs.
pub open spec fn layer_focus(e: Ewm, n: int) -> Option<u64>
    decreases n,
{
    if n <= 0 {
        None
    } else {
        or_else(
            layer_focus(e, n - 1),
            output_layer_focus(
                e.layers@,
                e.space.entries@[n - 1].0@,
                e.on_demand_layer,
                e.window_focused(),
            ),
        )
    }
}

fn find_layer(layers: &Vec<LayerInfo>, output: &str, layer: Layer, want: LayerWant) -> (r: Option<
    u64,
>)
    ensures
        r == first_layer(layers@, output@, layer, want),
{
    let mut found: Option<u64> = None;
    let mut i: usize = 0;
    while i < layers.len()
        invariant
            i <= layers@.len(),
            found == first_layer(layers@.subrange(0, i as int), output@, layer, want),
        decreases layers@.len() - i,
    {
        assert(layers@.subrange(0, i + 1).drop_last() =~= layers@.subrange(0, i as int));
        let s = &layers[i];
        if found.is_none() && str_eq(s.output.as_str(), output) && s.layer == layer {
            let fits = match want {
                LayerWant::Exclusive => s.interactivity == KeyboardInteractivity::Exclusive,
                LayerWant::Surface(id) => s.surface == id,
            };
            if fits {
                found = Some(s.surface);
            }
        }
        i = i + 1;
    }
    assert(layers@.subrange(0, i as int) =~= layers@);
    found
}

/// The on-demand layer surface, as far as it is still there and still takes focus on demand.
pub open spec fn live_on_demand(layers: Seq<LayerInfo>, on_demand: Option<u64>) -> Option<u64> {
    match on_demand {
        Some(id) => if exists|i: int|
            0 <= i < layers.len() && (#[trigger] layers[i]).surface == id && layers[i].interactivity
                == KeyboardInteractivity::OnDemand {
            on_demand
        } else {
            None
        },
        None => None,
    }
}

/// The surface that should have the keyboard: the lock surface while locked, else a layer surface
/// that claims it, else the focused window.
pub open spec fn wanted_focus(e: Ewm) -> FocusTarget {
    if !(e.lock_state is Unlocked) {
        match e.lock_focus() {
            Some(s) => FocusTarget::Lock(s),
            None => FocusTarget::Nobody,
        }
    } else {
        match layer_focus(e, e.space.entries@.len() as int) {
            Some(s) => FocusTarget::Layer(s),
            None => if e.windows@.contains_key(e.focused_surface_id) {
                FocusTarget::Window(e.focused_surface_id)
            } else {
                FocusTarget::Nobody
            },
        }
    }
}

/// `before` with a clicked layer surface forgotten that is gone or takes no focus any more.
pub open spec fn on_demand_cleaned(before: Ewm) -> Ewm {
    if before.lock_state is Unlocked {
        Ewm { on_demand_layer: live_on_demand(before.layers@, before.on_demand_layer), ..before }
    } else {
        before
    }
}

/// The state `after` is `before` with the keyboard moved to where it should be.
pub open spec fn focus_synced(before: Ewm, after: Ewm) -> bool {
    let clean = on_demand_cleaned(before);
    let target = wanted_focus(clean);
    if !before.keyboard_focus_dirty {
        after == before
    } else {
        &&& after == (Ewm {
            keyboard_focus_dirty: false,
            keyboard_focus: target,
            effects: after.effects,
            ..clean
        })
        &&& after.effects@ == if before.keyboard_focus == target {
            before.effects@
        } else {
            before.effects@.push(Effect::SetKeyboardFocus { target })
        }
    }
}

/// The name in an optional string.
pub open spec fn name_view(r: Option<String>) -> Option<Seq<char>> {
    match r {
        Some(n) => Some(n@),
        None => None,
    }
}

/// The first mapped output that contains the point.
pub open spec fn output_containing(s: Seq<(String, MappedOutput)>, p: Point) -> Option<Seq<char>> {
    if exists|k: int| first_containing(s, p, k) {
        Some(s[choose|k: int| first_containing(s, p, k)].0@)
    } else {
        None
    }
}

/// The output that stands for the point: the first that contains it, else the first.
pub open spec fn output_for_point(s: Seq<(String, MappedOutput)>, p: Point) -> Option<Seq<char>> {
    if output_containing(s, p) is Some {
        output_containing(s, p)
    } else if s.len() > 0 {
        Some(s[0].0@)
    } else {
        None
    }
}

/// Where input goes at a point, from the top of the stack to the bottom.
#[derive(Clone, Copy, Debug, PartialEq, Eq, Structural)]
pub enum HitStage {
    /// Layer surfaces on this layer.
    Layer(Layer),
    /// Windows that layouts place, with their popups.
    LayoutSurfaces,
    /// Emacs frames.
    Frames,
}

/// The order in which what is under a point is looked for. It matches the order of drawing:
/// a fullscreen surface covers the Top layer.
pub fn hit_order(above_top_layer: bool) -> (r: Vec<HitStage>)
    ensures
        r@ == if above_top_layer {
            seq![
                HitStage::Layer(Layer::Overlay),
                HitStage::LayoutSurfaces,
                HitStage::Frames,
                HitStage::Layer(Layer::Top),
                HitStage::Layer(Layer::Bottom),
                HitStage::Layer(Layer::Background),
            ]
        } else {
            seq![
                HitStage::Layer(Layer::Overlay),
                HitStage::Layer(Layer::Top),
                HitStage::LayoutSurfaces,
                HitStage::Frames,
                HitStage::Layer(Layer::Bottom),
                HitStage::Layer(Layer::Background),
            ]
        },
{
    let mut order: Vec<HitStage> = Vec::new();
    order.push(HitStage::Layer(Layer::Overlay));
    if !above_top_layer {
        order.push(HitStage::Layer(Layer::Top));
    }
    order.push(HitStage::LayoutSurfaces);
    order.push(HitStage::Frames);
    if above_top_layer {
        order.push(HitStage::Layer(Layer::Top));
    }
    order.push(HitStage::Layer(Layer::Bottom));
    order.push(HitStage::Layer(Layer::Background));
    assert(order@ =~= if above_top_layer {
        seq![
            HitStage::Layer(Layer::Overlay),
            HitStage::LayoutSurfaces,
            HitStage::Frames,
            HitStage::Layer(Layer::Top),
            HitStage::Layer(Layer::Bottom),
            HitStage::Layer(Layer::Background),
        ]
    } else {
        seq![
            HitStage::Layer(Layer::Overlay),
            HitStage::Layer(Layer::Top),
            HitStage::LayoutSurfaces,
            HitStage::Frames,
            HitStage::Layer(Layer::Bottom),
            HitStage::Layer(Layer::Background),
        ]
    });
    order
}

/// The layers whose surfaces can take focus by a click, topmost first. Behind a fullscreen
/// surface none can.
pub fn click_layers(above_top_layer: bool) -> (r: Vec<Layer>)
    ensures
        r@ == if above_top_layer {
            seq![Layer::Overlay]
        } else {
            seq![Layer::Overlay, Layer::Top, Layer::Bottom, Layer::Background]
        },
{
    let mut layers: Vec<Layer> = Vec::new();
    layers.push(Layer::Overlay);
    if !above_top_layer {
        layers.push(Layer::Top);
        layers.push(Layer::Bottom);
        layers.push(Layer::Background);
    }
    assert(layers@ =~= if above_top_layer {
        seq![Layer::Overlay]
    } else {
        seq![Layer::Overlay, Layer::Top, Layer::Bottom, Layer::Background]
    });
    layers
}

/// The output of the surface's selected view.
pub open spec fn focused_view_output(l: Layouts, id: u64) -> Option<Seq<char>> {
    let outs = l.outputs.entries@;
    if exists|o: int, j: int| is_first_entry(outs, id, EntryKind::Focused, o, j) {
        let (o, j) = choose|o: int, j: int| is_first_entry(outs, id, EntryKind::Focused, o, j);
        Some(outs[o].0@)
    } else {
        None
    }
}

/// The first of the outputs that show the surface, in the order in which they began to.
pub open spec fn first_shown_on(pairs: Seq<(u64, String)>, id: u64) -> Option<Seq<char>>
    decreases pairs.len(),
{
    if pairs.len() == 0 {
        None
    } else if first_shown_on(pairs.drop_last(), id) is Some {
        first_shown_on(pairs.drop_last(), id)
    } else if pairs.last().0 == id {
        Some(pairs.last().1@)
    } else {
        None
    }
}

/// The output that a surface belongs to: for one that layouts place, that of its selected view,
/// else some output that shows it; for an Emacs frame, the one that it stands on.
pub open spec fn surface_output(e: Ewm, id: u64) -> Option<Seq<char>> {
    if e.layouts.surface_outputs.shown(id) {
        let n = if focused_view_output(e.layouts, id) is Some {
            focused_view_output(e.layouts, id)
        } else {
            first_shown_on(e.layouts.surface_outputs.pairs@, id)
        };
        if n is Some && e.space@.contains_key(n->0) {
            n
        } else {
            None
        }
    } else if e.windows@.contains_key(id) && e.windows@[id].at is Some {
        output_containing(e.space.entries@, e.windows@[id].at->0)
    } else {
        None
    }
}

/// The output of the focused surface.
pub open spec fn focused_output(e: Ewm) -> Option<Seq<char>> {
    if e.focused_surface_id == 0 {
        None
    } else {
        surface_output(e, e.focused_surface_id)
    }
}

/// The output for new surfaces: under the pointer, else that of the focused surface, else the
/// first.
pub open spec fn preferred_output(e: Ewm) -> Option<Seq<char>> {
    if output_containing(e.space.entries@, e.pointer) is Some {
        output_containing(e.space.entries@, e.pointer)
    } else if focused_output(e) is Some {
        focused_output(e)
    } else if e.space.entries@.len() > 0 {
        Some(e.space.entries@[0].0@)
    } else {
        None
    }
}

/// The first Emacs frame that was made for the output.
pub open spec fn frame_for(frames: Seq<(u64, String)>, output: Seq<char>) -> Option<u64>
    decreases frames.len(),
{
    if frames.len() == 0 {
        None
    } else if frame_for(frames.drop_last(), output) is Some {
        frame_for(frames.drop_last(), output)
    } else if frames.last().1@ == output {
        Some(frames.last().0)
    } else {
        None
    }
}

/// The Emacs frame on the output of the focused surface, else any.
pub open spec fn frame_on_focused_output(e: Ewm) -> Option<u64> {
    let frames = e.emacs_surfaces.entries@;
    match focused_output(e) {
        Some(output) => if frame_for(frames, output) is Some {
            frame_for(frames, output)
        } else if frames.len() > 0 {
            Some(frames[0].0)
        } else {
            None
        },
        None => None,
    }
}

/// The outputs after the pointer moved to one that stands for its place.
pub open spec fn pointer_redraws(
    s: Seq<(String, OutputState)>,
    previous: Option<Seq<char>>,
    current: Option<Seq<char>>,
) -> Seq<(String, OutputState)> {
    let left = if previous is Some && previous != current {
        one_requested(s, previous->0)
    } else {
        s
    };
    if current is Some {
        one_requested(left, current->0)
    } else {
        left
    }
}

proof fn lemma_first_entry_unique(
    outs: Seq<(String, Vec<LayoutEntry>)>,
    id: u64,
    kind: EntryKind,
    o: int,
    j: int,
    p: int,
    k: int,
)
    requires
        is_first_entry(outs, id, kind, o, j),
        is_first_entry(outs, id, kind, p, k),
    ensures
        o == p && j == k,
{
    if before(p, k, o, j) {
        assert(slot(outs, p, k));
    }
    if before(o, j, p, k) {
        assert(slot(outs, o, j));
    }
}

impl Ewm {
    /// A window has the focus.
    pub open spec fn window_focused(&self) -> bool {
        self.focused_surface_id != 0 && self.windows@.contains_key(self.focused_surface_id)
    }

    /// Update on-demand layer shell keyboard focus.
    /// If the surface has OnDemand keyboard interactivity, set it as on-demand focus.
    /// Otherwise, clear on-demand focus.
    pub fn focus_layer_surface_if_on_demand(&mut self, surface: Option<u64>)
        requires
            old(self).wf(),
        ensures
            final(self).wf(),
            ({
                let clicked = live_on_demand(old(self).layers@, surface);
                *final(self) == (Ewm {
                    on_demand_layer: clicked,
                    keyboard_focus_dirty: old(self).keyboard_focus_dirty || old(
                        self,
                    ).on_demand_layer != clicked,
                    ..*old(self)
                })
            }),
    {
        match surface {
            Some(id) => {
                if self.takes_focus_on_demand(id) {
                    let same = match self.on_demand_layer {
                        Some(c) => c == id,
                        None => false,
                    };
                    if !same {
                        self.on_demand_layer = Some(id);
                        self.keyboard_focus_dirty = true;
                    }
                    return ;
                }
            },
            None => {},
        }
        if self.on_demand_layer.is_some() {
            self.on_demand_layer = None;
            self.keyboard_focus_dirty = true;
        }
    }

    fn takes_focus_on_demand(&self, id: u64) -> (r: bool)
        ensures
            r == (live_on_demand(self.layers@, Some(id)) is Some),
            r ==> live_on_demand(self.layers@, Some(id)) == Some(id),
    {
        let mut i: usize = 0;
        while i < self.layers.len()
            invariant
                i <= self.layers@.len(),
                forall|j: int|
                    0 <= j < i ==> !((#[trigger] self.layers@[j]).surface == id
                        && self.layers@[j].interactivity == KeyboardInteractivity::OnDemand),
            decreases self.layers@.len() - i,
        {
            if self.layers[i].surface == id && self.layers[i].interactivity
                == KeyboardInteractivity::OnDemand {
                return true;
            }
            i = i + 1;
        }
        false
    }

    /// Resolve layer shell keyboard focus.
    /// Checks for Exclusive interactivity on Overlay/Top layers first,
    /// then OnDemand focus.
    pub fn resolve_layer_keyboard_focus(&self) -> (r: Option<u64>)
        requires
            self.wf(),
        ensures
            r == layer_focus(*self, self.space.entries@.len() as int),
    {
        let window = self.focused_surface_id != 0 && self.windows.contains(self.focused_surface_id);
        let mut found: Option<u64> = None;
        let mut i: usize = 0;
        while i < self.space.entries.len()
            invariant
                i <= self.space.entries@.len(),
                window == self.window_focused(),
                found == layer_focus(*self, i as int),
            decreases self.space.entries@.len() - i,
        {
            if found.is_none() {
                found = self.layer_focus_on(self.space.entries[i].0.as_str(), window);
            }
            i = i + 1;
        }
        found
    }

    fn layer_focus_on(&self, output: &str, window: bool) -> (r: Option<u64>)
        ensures
            r == output_layer_focus(self.layers@, output@, self.on_demand_layer, window),
    {
        let excl = LayerWant::Exclusive;
        let overlay = find_layer(&self.layers, output, Layer::Overlay, excl);
        let top = find_layer(&self.layers, output, Layer::Top, excl);
        let clicked = match self.on_demand_layer {
            Some(id) => {
                let want = LayerWant::Surface(id);
                let o = find_layer(&self.layers, output, Layer::Overlay, want);
                let t = find_layer(&self.layers, output, Layer::Top, want);
                let b = find_layer(&self.layers, output, Layer::Bottom, want);
                let g = find_layer(&self.layers, output, Layer::Background, want);
                first_of(o, first_of(t, first_of(b, g)))
            },
            None => None,
        };
        let below = if window {
            None
        } else {
            first_of(
                find_layer(&self.layers, output, Layer::Bottom, excl),
                find_layer(&self.layers, output, Layer::Background, excl),
            )
        };
        first_of(overlay, first_of(top, first_of(clicked, below)))
    }

    /// The output whose lock surface gets the keyboard: the one under the pointer, else the
    /// first.
    pub open spec fn lock_output(&self) -> Option<Seq<char>> {
        let under = output_containing(self.space.entries@, self.pointer);
        if under is Some && self.output_state@.contains_key(under->0) {
            under
        } else if self.output_state.entries@.len() > 0 {
            Some(self.output_state.entries@[0].0@)
        } else {
            None
        }
    }

    /// The lock surface that gets the keyboard.
    pub open spec fn lock_focus(&self) -> Option<u64> {
        match self.lock_output() {
            Some(n) => self.output_state@[n].lock_surface,
            None => None,
        }
    }

    /// Get the lock surface for keyboard focus when locked
    pub fn lock_surface_focus(&self) -> (r: Option<u64>)
        requires
            self.wf(),
        ensures
            r == self.lock_focus(),
    {
        match self.output_under_cursor() {
            Some(name) => {
                match self.output_state.find(name.as_str()) {
                    Some(i) => {
                        return self.output_state.entries[i].1.lock_surface;
                    },
                    None => {},
                }
            },
            None => {},
        }
        if self.output_state.entries.len() > 0 {
            proof {
                self.output_state.lemma_entry(0);
            }
            self.output_state.entries[0].1.lock_surface
        } else {
            None
        }
    }

    /// Synchronize keyboard focus with the focus state: moves the keyboard to the lock surface,
    /// a layer surface or the focused window. Does nothing unless the focus state changed.
    pub fn sync_keyboard_focus(&mut self)
        requires
            old(self).wf(),
        ensures
            final(self).wf(),
            focus_synced(*old(self), *final(self)),
    {
        if !self.keyboard_focus_dirty {
            return ;
        }
        let ghost clean = on_demand_cleaned(*self);
        self.keyboard_focus_dirty = false;
        let target = if self.is_locked() {
            match self.lock_surface_focus() {
                Some(s) => FocusTarget::Lock(s),
                None => FocusTarget::Nobody,
            }
        } else {
            match self.on_demand_layer {
                Some(id) => {
                    if !self.takes_focus_on_demand(id) {
                        self.on_demand_layer = None;
                    }
                },
                None => {},
            }
            proof {
                lemma_layer_focus_same(*self, clean, self.space.entries@.len() as int);
            }
            match self.resolve_layer_keyboard_focus() {
                Some(s) => FocusTarget::Layer(s),
                None => {
                    if self.windows.contains(self.focused_surface_id) {
                        FocusTarget::Window(self.focused_surface_id)
                    } else {
                        FocusTarget::Nobody
                    }
                },
            }
        };
        if self.keyboard_focus != target {
            self.keyboard_focus = target;
            self.emit(Effect::SetKeyboardFocus { target });
        }
    }

    /// Check if the session is locked (locking or fully locked)
    pub fn is_locked(&self) -> (r: bool)
        ensures
            r == !(self.lock_state is Unlocked),
    {
        match self.lock_state {
            LockState::Unlocked => false,
            _ => true,
        }
    }

    /// Find the output at a global logical position.
    pub fn output_at(&self, pos: Point) -> (r: Option<String>)
        ensures
            name_view(r) == output_for_point(self.space.entries@, pos),
    {
        match self.output_holding(pos) {
            Some(n) => Some(n),
            None => {
                if self.space.entries.len() > 0 {
                    Some(self.space.entries[0].0.clone())
                } else {
                    None
                }
            },
        }
    }

    pub(crate) fn output_holding(&self, pos: Point) -> (r: Option<String>)
        ensures
            name_view(r) == output_containing(self.space.entries@, pos),
    {
        match find_containing(&self.space, pos) {
            Some(i) => {
                proof {
                    let s = self.space.entries@;
                    assert(first_containing(s, pos, i as int));
                    let k = choose|k: int| first_containing(s, pos, k);
                    assert(first_containing(s, pos, k));
                    assert(k == i);
                }
                Some(self.space.entries[i].0.clone())
            },
            None => None,
        }
    }

    /// Get the output under the cursor position
    pub fn output_under_cursor(&self) -> (r: Option<String>)
        ensures
            name_view(r) == output_containing(self.space.entries@, self.pointer),
    {
        self.output_holding(self.pointer)
    }

    /// Find the output for a surface
    pub fn find_surface_output(&self, surface_id: u64) -> (r: Option<String>)
        requires
            self.wf(),
        ensures
            name_view(r) == surface_output(*self, surface_id),
    {
        if self.layouts.surface_outputs.contains_surface(surface_id) {
            match self.find_layout_output(surface_id) {
                Some(name) => {
                    if self.space.contains(name.as_str()) {
                        Some(name)
                    } else {
                        None
                    }
                },
                None => None,
            }
        } else {
            match self.windows.get(surface_id) {
                Some(w) => {
                    match w.at {
                        Some(p) => self.output_holding(p),
                        None => None,
                    }
                },
                None => None,
            }
        }
    }

    /// The output of the surface's selected view, else some output whose layout shows it.
    pub(crate) fn find_layout_output(&self, id: u64) -> (r: Option<String>)
        ensures
            name_view(r) == if focused_view_output(self.layouts, id) is Some {
                focused_view_output(self.layouts, id)
            } else {
                first_shown_on(self.layouts.surface_outputs.pairs@, id)
            },
    {
        let ghost outs = self.layouts.outputs.entries@;
        let ghost kind = EntryKind::Focused;
        match self.layouts.focused_output_for_surface(id) {
            Some((n, _)) => {
                proof {
                    let (o, j) = choose|o: int, j: int|
                        is_first_entry(outs, id, kind, o, j) && n == outs[o].0;
                    let (p, k) = choose|o: int, j: int| is_first_entry(outs, id, kind, o, j);
                    lemma_first_entry_unique(outs, id, kind, o, j, p, k);
                }
                Some(n)
            },
            None => {
                proof {
                    assert(focused_view_output(self.layouts, id) is None) by {
                        if exists|o: int, j: int| is_first_entry(outs, id, kind, o, j) {
                            let (o, j) = choose|o: int, j: int|
                                is_first_entry(outs, id, kind, o, j);
                            assert(slot(outs, o, j));
                        }
                    }
                }
                self.first_output_showing(id)
            },
        }
    }

    fn first_output_showing(&self, id: u64) -> (r: Option<String>)
        ensures
            name_view(r) == first_shown_on(self.layouts.surface_outputs.pairs@, id),
    {
        let pairs = &self.layouts.surface_outputs.pairs;
        let mut found: Option<String> = None;
        let mut i: usize = 0;
        while i < pairs.len()
            invariant
                pairs == &self.layouts.surface_outputs.pairs,
                i <= pairs@.len(),
                name_view(found) == first_shown_on(pairs@.subrange(0, i as int), id),
            decreases pairs@.len() - i,
        {
            assert(pairs@.subrange(0, i + 1).drop_last() =~= pairs@.subrange(0, i as int));
            if found.is_none() && pairs[i].0 == id {
                found = Some(pairs[i].1.clone());
            }
            i = i + 1;
        }
        assert(pairs@.subrange(0, i as int) =~= pairs@);
        found
    }

    /// Get the output where the focused surface is located
    pub fn get_focused_output(&self) -> (r: Option<String>)
        requires
            self.wf(),
        ensures
            name_view(r) == focused_output(*self),
    {
        if self.focused_surface_id == 0 {
            return None;
        }
        self.find_surface_output(self.focused_surface_id)
    }

    /// Get active output for placing new non-Emacs surfaces.
    /// Priority: cursor position > focused output > first output
    pub fn active_output(&self) -> (r: Option<String>)
        requires
            self.wf(),
        ensures
            name_view(r) == preferred_output(*self),
    {
        let under = self.output_under_cursor();
        if under.is_some() {
            return under;
        }
        let focused = self.get_focused_output();
        if focused.is_some() {
            return focused;
        }
        if self.space.entries.len() > 0 {
            Some(self.space.entries[0].0.clone())
        } else {
            None
        }
    }

    /// Find the Emacs surface on the same output as the focused surface
    pub fn get_emacs_surface_for_focused_output(&self) -> (r: Option<u64>)
        requires
            self.wf(),
        ensures
            r == frame_on_focused_output(*self),
    {
        let output: String = match self.get_focused_output() {
            Some(o) => o,
            None => {
                return None;
            },
        };
        let frame = self.frame_on(output.as_str());
        if frame.is_some() {
            return frame;
        }
        if self.emacs_surfaces.entries.len() > 0 {
            Some(self.emacs_surfaces.entries[0].0)
        } else {
            None
        }
    }

    /// The first Emacs frame that was made for the output.
    pub fn frame_on(&self, output: &str) -> (r: Option<u64>)
        ensures
            r == frame_for(self.emacs_surfaces.entries@, output@),
    {
        let frames = &self.emacs_surfaces.entries;
        let mut found: Option<u64> = None;
        let mut i: usize = 0;
        while i < frames.len()
            invariant
                frames == &self.emacs_surfaces.entries,
                i <= frames@.len(),
                found == frame_for(frames@.subrange(0, i as int), output@),
            decreases frames@.len() - i,
        {
            assert(frames@.subrange(0, i + 1).drop_last() =~= frames@.subrange(0, i as int));
            if found.is_none() && str_eq(frames[i].1.as_str(), output) {
                found = Some(frames[i].0);
            }
            i = i + 1;
        }
        assert(frames@.subrange(0, i as int) =~= frames@);
        found
    }

    /// Queue a redraw for outputs overlapping the cursor.
    /// Redraws the output the pointer is currently on, plus the previous
    /// output if the pointer crossed a boundary.
    pub fn queue_redraw_for_pointer(&mut self)
        requires
            old(self).wf(),
        ensures
            final(self).wf(),
            *final(self) == (Ewm {
                output_state: final(self).output_state,
                pointer_output: final(self).pointer_output,
                ..*old(self)
            }),
            name_view(final(self).pointer_output) == output_for_point(
                old(self).space.entries@,
                old(self).pointer,
            ),
            final(self).output_state.entries@ == pointer_redraws(
                old(self).output_state.entries@,
                name_view(old(self).pointer_output),
                output_for_point(old(self).space.entries@, old(self).pointer),
            ),
    {
        let current = self.output_at(self.pointer);
        let mut previous: Option<String> = None;
        std::mem::swap(&mut previous, &mut self.pointer_output);
        match &previous {
            Some(p) => {
                let same = match &current {
                    Some(c) => str_eq(c.as_str(), p.as_str()),
                    None => false,
                };
                if !same {
                    self.queue_redraw(p.as_str());
                }
            },
            None => {},
        }
        match &current {
            Some(c) => {
                self.queue_redraw(c.as_str());
            },
            None => {},
        }
        self.pointer_output = current;
    }

    /// Whether the text input protocol is left (`true`) or entered (`false`) for the surface that
    /// gets the keyboard. It is left for Emacs frames, which have input methods of their own.
    pub fn leaves_text_input(&self, has_surface: bool, surface_id: Option<u64>) -> (r: bool)
        requires
            self.wf(),
        ensures
            r == (!has_surface || (surface_id is Some && self.emacs_surfaces@.contains_key(
                surface_id->0,
            ))),
    {
        match surface_id {
            Some(id) => !has_surface || self.emacs_surfaces.contains(id),
            None => !has_surface,
        }
    }
}

/// The layer focus does not depend on whether the keyboard is in step.
proof fn lemma_layer_focus_same(a: Ewm, b: Ewm, n: int)
    requires
        a.layers == b.layers,
        a.space == b.space,
        a.on_demand_layer == b.on_demand_layer,
        a.focused_surface_id == b.focused_surface_id,
        a.windows == b.windows,
    ensures
        layer_focus(a, n) == layer_focus(b, n),
    decreases n,
{
    if n > 0 {
        lemma_layer_focus_same(a, b, n - 1);
    }
}

/// One surface has the keyboard: once the focus is in step with the state, asking for it again
/// changes nothing, and a locked session's keyboard is with a lock surface or nowhere.
pub proof fn law_keyboard_follows_state(before: Ewm, after: Ewm, again: Ewm)
    requires
        before.keyboard_focus_dirty,
        focus_synced(before, after),
        focus_synced(after, again),
    ensures
        again == after,
        after.keyboard_focus == wanted_focus(on_demand_cleaned(before)),
        !(before.lock_state is Unlocked) ==> after.keyboard_focus is Lock
            || after.keyboard_focus == FocusTarget::Nobody,
{
}

/// A layer surface that asks for the keyboard exclusively on the Overlay layer of the first
/// output is never outranked.
pub proof fn law_exclusive_overlay_wins(e: Ewm, s: u64)
    requires
        e.space.entries@.len() > 0,
        first_layer(e.layers@, e.space.entries@[0].0@, Layer::Overlay, LayerWant::Exclusive)
            == Some(s),
    ensures
        layer_focus(e, e.space.entries@.len() as int) == Some(s),
{
    lemma_first_output_wins(e, s, e.space.entries@.len() as int);
}

proof fn lemma_first_output_wins(e: Ewm, s: u64, n: int)
    requires
        n >= 1,
        first_layer(e.layers@, e.space.entries@[0].0@, Layer::Overlay, LayerWant::Exclusive)
            == Some(s),
    ensures
        layer_focus(e, n) == Some(s),
    decreases n,
{
    assert(layer_focus(e, 0) is None);
    if n > 1 {
        lemma_first_output_wins(e, s, n - 1);
    } else {
        assert(layer_focus(e, 1) == or_else(
            layer_focus(e, 0),
            output_layer_focus(
                e.layers@,
                e.space.entries@[0].0@,
                e.on_demand_layer,
                e.window_focused(),
            ),
        ));
    }
}

} // verus!
