//! Layer surfaces: panels, backgrounds and overlays.
use super::focus::preferred_output;
use super::outputs::{area_checked, zone_ok};
use super::{Ewm, KeyboardInteractivity, Layer, LayerInfo};
use crate::effect::Effect;
use crate::geometry::Rect;
use crate::layout::MappedOutput;
use crate::outputs::one_requested;
use vstd::prelude::*;

verus! {

/// The output that a client wants its layer surface on.
#[derive(Debug)]
pub enum LayerPlace {
    /// Any output.
    Any,
    /// This one.
    Output(String),
    /// One that is not there any more.
    Gone,
}

/// The output that a new layer surface gets.
pub open spec fn layer_output(e: Ewm, place: LayerPlace) -> Option<Seq<char>> {
    match place {
        LayerPlace::Any => {
            let n = preferred_output(e);
            if n is Some && e.space@.contains_key(n->0) {
                n
            } else {
                None
            }
        },
        LayerPlace::Output(o) => Some(o@),
        LayerPlace::Gone => None,
    }
}

/// `i` is the first layer surface of this number on a mapped output.
pub open spec fn placed_layer(
    layers: Seq<LayerInfo>,
    space: Map<Seq<char>, MappedOutput>,
    surface: u64,
    i: int,
) -> bool {
    &&& 0 <= i < layers.len()
    &&& layers[i].surface == surface && space.contains_key(layers[i].output@)
    &&& forall|j: int|
        0 <= j < i ==> !((#[trigger] layers[j]).surface == surface && space.contains_key(
            layers[j].output@,
        ))
}

/// No mapped output has the layer surface.
pub open spec fn no_layer(
    layers: Seq<LayerInfo>,
    space: Map<Seq<char>, MappedOutput>,
    surface: u64,
) -> bool {
    forall|j: int|
        0 <= j < layers.len() ==> !((#[trigger] layers[j]).surface == surface
            && space.contains_key(layers[j].output@))
}

/// What a layer surface is at a commit.
#[derive(Clone, Copy, Debug, PartialEq, Eq, Structural)]
pub struct LayerCommit {
    /// The commit is of the layer surface itself, not of one of its subsurfaces.
    pub is_root: bool,
    pub initial_configure_sent: bool,
    pub has_buffer: bool,
    pub layer: Layer,
    pub interactivity: KeyboardInteractivity,
    /// The part of the output that its layer surfaces leave free now.
    pub zone: Rect,
}

/// The state `after` is `before` with a commit of the layer surface at `i` noted: it is mapped
/// once it has content, and takes focus then if it takes it on demand.
pub open spec fn layer_noted(before: Ewm, after: Ewm, i: int, c: LayerCommit) -> bool {
    let surface = before.layers@[i].surface;
    let appears = c.initial_configure_sent && c.has_buffer && before.unmapped_layers@.contains_key(
        surface,
    );
    &&& after == (Ewm {
        layers: after.layers,
        unmapped_layers: after.unmapped_layers,
        keyboard_focus_dirty: before.keyboard_focus_dirty || appears,
        on_demand_layer: if appears && c.interactivity == KeyboardInteractivity::OnDemand {
            Some(surface)
        } else {
            before.on_demand_layer
        },
        effects: after.effects,
        ..before
    })
    &&& after.layers@ == before.layers@.update(
        i,
        LayerInfo { layer: c.layer, interactivity: c.interactivity, ..before.layers@[i] },
    )
    &&& after.unmapped_layers@ == if !c.initial_configure_sent {
        before.unmapped_layers@
    } else if c.has_buffer {
        before.unmapped_layers@.remove(surface)
    } else {
        before.unmapped_layers@.insert(surface, ())
    }
    &&& after.effects@ == if c.initial_configure_sent {
        before.effects@
    } else {
        before.effects@.push(Effect::ConfigureLayer { surface })
    }
}

/// The state `after` is `before` with a redraw of the output requested.
pub open spec fn output_redrawn(before: Ewm, after: Ewm, output: Seq<char>) -> bool {
    &&& after == (Ewm { output_state: after.output_state, ..before })
    &&& after.output_state.entries@ == one_requested(before.output_state.entries@, output)
}

/// The state `after` is `before` without the layer surface at `i`.
pub open spec fn layer_dropped(before: Ewm, after: Ewm, i: int) -> bool {
    let surface = before.layers@[i].surface;
    &&& after == (Ewm {
        layers: after.layers,
        on_demand_layer: if before.on_demand_layer == Some(surface) {
            None
        } else {
            before.on_demand_layer
        },
        keyboard_focus_dirty: true,
        ..before
    })
    &&& after.layers@ == before.layers@.remove(i)
}

/// The state `after` is `before` with the free area of the output checked and the output redrawn.
pub open spec fn area_settled(before: Ewm, after: Ewm, output: String, zone: Rect) -> bool {
    exists|mid: Ewm| #[trigger]
        area_checked(before, mid, output, zone) && output_redrawn(mid, after, output@)
}

/// The state `after` follows `before` once the layer surface `root`, or a subsurface of it,
/// committed.
pub open spec fn layer_committed(before: Ewm, after: Ewm, root: u64, c: LayerCommit) -> bool {
    exists|i: int|
        {
            let output = before.layers@[i].output;
            &&& #[trigger] placed_layer(before.layers@, before.space@, root, i)
            &&& if c.is_root {
                exists|n: Ewm| #[trigger]
                    layer_noted(before, n, i, c) && area_settled(n, after, output, c.zone)
            } else {
                output_redrawn(before, after, output@)
            }
        }
}

impl Ewm {
    /// A client made a layer surface. Gives whether it got an output; else it is asked to go.
    pub fn new_layer_surface(
        &mut self,
        surface: u64,
        place: LayerPlace,
        layer: Layer,
        interactivity: KeyboardInteractivity,
    ) -> (r: bool)
        requires
            old(self).wf(),
        ensures
            final(self).wf(),
            r == (layer_output(*old(self), place) is Some),
            !r ==> *final(self) == (Ewm { effects: final(self).effects, ..*old(self) })
                && final(self).effects@ == old(self).effects@.push(Effect::CloseLayer { surface }),
            r ==> {
                &&& *final(self) == (Ewm {
                    layers: final(self).layers,
                    unmapped_layers: final(self).unmapped_layers,
                    effects: final(self).effects,
                    ..*old(self)
                })
                &&& final(self).unmapped_layers@ == old(self).unmapped_layers@.insert(surface, ())
                &&& exists|output: String|
                    {
                        &&& Some(output@) == layer_output(*old(self), place)
                        &&& final(self).layers@ == #[trigger] old(self).layers@.push(
                            LayerInfo { surface, output, layer, interactivity },
                        )
                        &&& final(self).effects@ == old(self).effects@.push(
                            Effect::SendLayerScale { output, surface },
                        )
                    }
            },
    {
        let output: Option<String> = match place {
            LayerPlace::Any => {
                match self.active_output() {
                    Some(n) => {
                        if self.space.contains(n.as_str()) {
                            Some(n)
                        } else {
                            None
                        }
                    },
                    None => None,
                }
            },
            LayerPlace::Output(o) => Some(o),
            LayerPlace::Gone => None,
        };
        match output {
            Some(output) => {
                self.unmapped_layers.insert(surface, ());
                let told = output.clone();
                self.emit(Effect::SendLayerScale { output: told, surface });
                self.layers.push(LayerInfo { surface, output, layer, interactivity });
                true
            },
            None => {
                self.emit(Effect::CloseLayer { surface });
                false
            },
        }
    }

    fn find_placed_layer(&self, surface: u64) -> (r: Option<usize>)
        requires
            self.wf(),
        ensures
            match r {
                Some(i) => placed_layer(self.layers@, self.space@, surface, i as int),
                None => no_layer(self.layers@, self.space@, surface),
            },
    {
        let mut i: usize = 0;
        while i < self.layers.len()
            invariant
                self.wf(),
                i <= self.layers@.len(),
                forall|j: int|
                    0 <= j < i ==> !((#[trigger] self.layers@[j]).surface == surface
                        && self.space@.contains_key(self.layers@[j].output@)),
            decreases self.layers@.len() - i,
        {
            if self.layers[i].surface == surface && self.space.contains(
                self.layers[i].output.as_str(),
            ) {
                return Some(i);
            }
            i = i + 1;
        }
        None
    }

    /// A layer surface is gone. `zone` is what the others of its output leave free.
    pub fn layer_destroyed(&mut self, surface: u64, zone: Rect)
        requires
            old(self).wf(),
            forall|i: int| #[trigger]
                placed_layer(old(self).layers@, old(self).space@, surface, i) ==> zone_ok(
                    old(self).space@,
                    old(self).layers@[i].output@,
                    zone,
                ),
        ensures
            final(self).wf(),
            ({
                let b = *old(self);
                let f = *final(self);
                exists|a: Ewm| #[trigger]
                    layer_unnoted(b, a, surface) && if no_layer(b.layers@, b.space@, surface) {
                        f == a
                    } else {
                        exists|i: int, d: Ewm| #[trigger]
                            placed_layer(b.layers@, b.space@, surface, i) && #[trigger] layer_dropped(
                                a,
                                d,
                                i,
                            ) && area_settled(d, f, b.layers@[i].output, zone)
                    }
            }),
    {
        let ghost b = *self;
        let _was = self.unmapped_layers.remove(surface);
        let ghost a = *self;
        assert(layer_unnoted(b, a, surface));
        match self.find_placed_layer(surface) {
            Some(i) => {
                let gone = match self.on_demand_layer {
                    Some(s) => s == surface,
                    None => false,
                };
                if gone {
                    self.on_demand_layer = None;
                }
                let info = self.layers.remove(i);
                self.keyboard_focus_dirty = true;
                let ghost d = *self;
                assert(layer_dropped(a, d, i as int));
                assert(placed_layer(b.layers@, b.space@, surface, i as int));
                assert(zone_ok(b.space@, info.output@, zone));
                self.check_working_area_change(&info.output, zone);
                let ghost m = *self;
                self.queue_redraw(info.output.as_str());
                assert(area_checked(d, m, info.output, zone));
                assert(area_settled(d, *self, b.layers@[i as int].output, zone));
            },
            None => {},
        }
    }

    /// Handle layer shell surface commit. Returns true if this was a layer surface.
    pub fn handle_layer_surface_commit(&mut self, root: u64, c: &LayerCommit) -> (r: bool)
        requires
            old(self).wf(),
            forall|i: int| #[trigger]
                placed_layer(old(self).layers@, old(self).space@, root, i) ==> zone_ok(
                    old(self).space@,
                    old(self).layers@[i].output@,
                    c.zone,
                ),
        ensures
            final(self).wf(),
            r == !no_layer(old(self).layers@, old(self).space@, root),
            !r ==> *final(self) == *old(self),
            r ==> layer_committed(*old(self), *final(self), root, *c),
    {
        let ghost b = *self;
        let i: usize = match self.find_placed_layer(root) {
            Some(i) => i,
            None => {
                return false;
            },
        };
        let output = self.layers[i].output.clone();
        if c.is_root {
            self.note_layer(i, c);
            let ghost n = *self;
            assert(zone_ok(b.space@, output@, c.zone));
            self.check_working_area_change(&output, c.zone);
            let ghost m = *self;
            self.queue_redraw(output.as_str());
            assert(area_checked(n, m, output, c.zone));
            assert(area_settled(n, *self, output, c.zone));
        } else {
            self.queue_redraw(output.as_str());
        }
        true
    }

    fn note_layer(&mut self, i: usize, c: &LayerCommit)
        requires
            old(self).wf(),
            i < old(self).layers@.len(),
        ensures
            final(self).wf(),
            layer_noted(*old(self), *final(self), i as int, *c),
    {
        let surface: u64 = self.layers[i].surface;
        let output = self.layers[i].output.clone();
        self.layers.set(
            i,
            LayerInfo { surface, output, layer: c.layer, interactivity: c.interactivity },
        );
        if c.initial_configure_sent {
            if c.has_buffer {
                let was_unmapped = self.unmapped_layers.remove(surface).is_some();
                if was_unmapped {
                    self.keyboard_focus_dirty = true;
                    if c.interactivity == KeyboardInteractivity::OnDemand {
                        self.on_demand_layer = Some(surface);
                    }
                }
            } else {
                self.unmapped_layers.insert(surface, ());
            }
        } else {
            self.emit(Effect::ConfigureLayer { surface });
        }
    }
}

/// The state `after` is `before` with the surface not among those without content.
pub open spec fn layer_unnoted(before: Ewm, after: Ewm, surface: u64) -> bool {
    &&& after == (Ewm { unmapped_layers: after.unmapped_layers, ..before })
    &&& after.unmapped_layers@ == before.unmapped_layers@.remove(surface)
}

/// How a layer surface takes the keyboard, as text for the state dump.
pub fn interactivity_name(k: KeyboardInteractivity) -> (r: &'static str)
    ensures
        r@ == match k {
            KeyboardInteractivity::Never => "none"@,
            KeyboardInteractivity::Exclusive => "exclusive"@,
            KeyboardInteractivity::OnDemand => "on_demand"@,
        },
{
    match k {
        KeyboardInteractivity::Never => "none",
        KeyboardInteractivity::Exclusive => "exclusive",
        KeyboardInteractivity::OnDemand => "on_demand",
    }
}

} // verus!
