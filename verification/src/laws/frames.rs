//! What takes part in frames, who is told of scales, and outputs without hardware.
use crate::backend::connect::{clock_replaced, output_moved, start_position};
use crate::backend::drm::DrmMode;
use crate::backend::headless::{frame_counted, virtual_added, virtual_state_made, HeadlessBackend};
use crate::effect::Effect;
use crate::event::{Event, OutputInfo};
use crate::ewm::focus::pointer_redraws;
use crate::ewm::commands::{origin_fits, origin_of};
use crate::ewm::outputs::{
    fit_effects, listed_scales, output_added, scale_effects, unlisted_scales, CurrentOutput,
};
use crate::ewm::surfaces::{dumped_layer, layer_targets, targets_on, FrameTarget, LayerSurfaceInfo};
use crate::ewm::{Ewm, Layer, LayerInfo, WindowState};
use crate::geometry::{Point, Rect, Size};
use crate::layout::{cast_outputs_of, LayoutEntry, Layouts};
use crate::redraw::OutputState;
use crate::tables::NameMap;
use vstd::prelude::*;

verus! {

/// The frames of an output go to every window, to the layer surfaces on that output, to its lock
/// surface and to the icon of a drag, and to nothing else.
pub proof fn law_frames_go_to_what_is_shown(e: Ewm, output: Seq<char>, t: FrameTarget)
    ensures
        targets_on(e, output).contains(t) <==> match t {
            FrameTarget::Window(id) => exists|i: int|
                0 <= i < e.windows.entries@.len() && (#[trigger] e.windows.entries@[i]).0 == id,
            FrameTarget::Layer(s) => exists|i: int|
                0 <= i < e.layers@.len() && (#[trigger] e.layers@[i]).surface == s
                    && e.layers@[i].output@ == output,
            FrameTarget::Lock(s) => e.output_state@.contains_key(output)
                && e.output_state@[output].lock_surface == Some(s),
            FrameTarget::Icon(s) => e.drag_icon is Some && e.drag_icon->0.surface == s,
        },
{
    let w = crate::ewm::surfaces::window_targets(e.windows.entries@);
    let l = layer_targets(e.layers@, output);
    let k = crate::ewm::surfaces::lock_target(crate::ewm::surfaces::lock_surface_on(e, output));
    let c = crate::ewm::surfaces::icon_target(e.drag_icon);
    let all = targets_on(e, output);
    assert(all =~= w + l + k + c);
    lemma_layer_targets(e.layers@, output, t);
    lemma_in_four(w, l, k, c, t);
    assert(w.contains(t) <==> (t matches FrameTarget::Window(id) && exists|i: int|
        0 <= i < e.windows.entries@.len() && (#[trigger] e.windows.entries@[i]).0 == id)) by {
        if w.contains(t) {
            let i = choose|i: int| 0 <= i < w.len() && w[i] == t;
            assert(FrameTarget::Window(e.windows.entries@[i].0) == t);
        }
        match t {
            FrameTarget::Window(id) => {
                if exists|i: int|
                    0 <= i < e.windows.entries@.len() && (#[trigger] e.windows.entries@[i]).0
                        == id {
                    let i = choose|i: int|
                        0 <= i < e.windows.entries@.len() && (#[trigger] e.windows.entries@[i]).0
                            == id;
                    assert(w[i] == t);
                }
            },
            _ => {},
        }
    }
    assert(k.contains(t) <==> (t matches FrameTarget::Lock(s) && e.output_state@.contains_key(
        output,
    ) && e.output_state@[output].lock_surface == Some(s))) by {
        if k.len() > 0 {
            assert(k[0] == k[0]);
            assert(k.contains(k[0]));
        }
    }
    assert(c.contains(t) <==> (t matches FrameTarget::Icon(s) && e.drag_icon is Some
        && e.drag_icon->0.surface == s)) by {
        if c.len() > 0 {
            assert(c.contains(c[0]));
        }
    }
}

proof fn lemma_in_four(
    a: Seq<FrameTarget>,
    b: Seq<FrameTarget>,
    c: Seq<FrameTarget>,
    d: Seq<FrameTarget>,
    t: FrameTarget,
)
    ensures
        (a + b + c + d).contains(t) <==> a.contains(t) || b.contains(t) || c.contains(t)
            || d.contains(t),
{
    let s = a + b + c + d;
    if s.contains(t) {
        let i = choose|i: int| 0 <= i < s.len() && s[i] == t;
        if i < a.len() {
            assert(a[i] == t);
        } else if i < a.len() + b.len() {
            assert(b[i - a.len()] == t);
        } else if i < a.len() + b.len() + c.len() {
            assert(c[i - a.len() - b.len()] == t);
        } else {
            assert(d[i - a.len() - b.len() - c.len()] == t);
        }
    }
    if a.contains(t) {
        let i = choose|i: int| 0 <= i < a.len() && a[i] == t;
        assert(s[i] == t);
    }
    if b.contains(t) {
        let i = choose|i: int| 0 <= i < b.len() && b[i] == t;
        assert(s[a.len() + i] == t);
    }
    if c.contains(t) {
        let i = choose|i: int| 0 <= i < c.len() && c[i] == t;
        assert(s[a.len() + b.len() + i] == t);
    }
    if d.contains(t) {
        let i = choose|i: int| 0 <= i < d.len() && d[i] == t;
        assert(s[a.len() + b.len() + c.len() + i] == t);
    }
}

proof fn lemma_layer_targets(layers: Seq<LayerInfo>, output: Seq<char>, t: FrameTarget)
    ensures
        layer_targets(layers, output).contains(t) <==> (t matches FrameTarget::Layer(s) && exists|
            i: int,
        |
            0 <= i < layers.len() && (#[trigger] layers[i]).surface == s && layers[i].output@
                == output),
    decreases layers.len(),
{
    if layers.len() > 0 {
        let head = layers.drop_last();
        lemma_layer_targets(head, output, t);
        let a = layer_targets(head, output);
        let b = layer_targets(layers, output);
        let n = layers.len() - 1;
        assert(layers[n] == layers.last());
        if a.contains(t) {
            let k = choose|k: int| 0 <= k < a.len() && a[k] == t;
            assert(b[k] == t);
            let s = t->Layer_0;
            let i = choose|i: int|
                0 <= i < head.len() && (#[trigger] head[i]).surface == s && head[i].output@
                    == output;
            assert(layers[i] == head[i]);
        }
        match t {
            FrameTarget::Layer(s) => {
                if exists|i: int|
                    0 <= i < layers.len() && (#[trigger] layers[i]).surface == s
                        && layers[i].output@ == output {
                    let i = choose|i: int|
                        0 <= i < layers.len() && (#[trigger] layers[i]).surface == s
                            && layers[i].output@ == output;
                    if i < n {
                        assert(head[i] == layers[i]);
                        assert(a.contains(t));
                    } else {
                        assert(b[a.len() as int] == t);
                    }
                }
            },
            _ => {},
        }
        if b.contains(t) && !a.contains(t) {
            let k = choose|k: int| 0 <= k < b.len() && b[k] == t;
            assert(k == a.len());
        }
    }
}

/// A dump shows each layer surface on the layer of the output, as it is, and marks the one that was
/// clicked.
pub proof fn law_layer_dump(
    layers: Seq<LayerInfo>,
    output: String,
    layer: Layer,
    on_demand: Option<u64>,
    x: LayerSurfaceInfo,
)
    ensures
        dumped_layer(layers, output, layer, on_demand).contains(x) <==> x.output == output
            && x.layer == layer && (x.on_demand_focused <==> on_demand == Some(x.surface))
            && exists|i: int|
            0 <= i < layers.len() && (#[trigger] layers[i]).surface == x.surface
                && layers[i].output@ == output@ && layers[i].layer == layer
                && layers[i].interactivity == x.interactivity,
    decreases layers.len(),
{
    if layers.len() > 0 {
        let head = layers.drop_last();
        law_layer_dump(head, output, layer, on_demand, x);
        let a = dumped_layer(head, output, layer, on_demand);
        let b = dumped_layer(layers, output, layer, on_demand);
        let n = layers.len() - 1;
        assert(layers[n] == layers.last());
        if a.contains(x) {
            let k = choose|k: int| 0 <= k < a.len() && a[k] == x;
            assert(b[k] == x);
            let i = choose|i: int|
                0 <= i < head.len() && (#[trigger] head[i]).surface == x.surface && head[i].output@
                    == output@ && head[i].layer == layer && head[i].interactivity
                    == x.interactivity;
            assert(layers[i] == head[i]);
        }
        if x.output == output && x.layer == layer && (x.on_demand_focused <==> on_demand == Some(
            x.surface,
        )) && exists|i: int|
            0 <= i < layers.len() && (#[trigger] layers[i]).surface == x.surface
                && layers[i].output@ == output@ && layers[i].layer == layer
                && layers[i].interactivity == x.interactivity {
            let i = choose|i: int|
                0 <= i < layers.len() && (#[trigger] layers[i]).surface == x.surface
                    && layers[i].output@ == output@ && layers[i].layer == layer
                    && layers[i].interactivity == x.interactivity;
            if i < n {
                assert(head[i] == layers[i]);
                assert(a.contains(x));
            } else {
                assert(b[a.len() as int] == x);
            }
        }
        if b.contains(x) && !a.contains(x) {
            let k = choose|k: int| 0 <= k < b.len() && b[k] == x;
            assert(k == a.len());
        }
    }
}

/// The windows that a layout lists are told the scale of its output, each of them and no other.
pub proof fn law_listed_windows_are_told_the_scale(
    name: String,
    entries: Seq<LayoutEntry>,
    windows: Map<u64, WindowState>,
    x: Effect,
)
    ensures
        listed_scales(name, entries, windows).contains(x) <==> exists|i: int|
            0 <= i < entries.len() && windows.contains_key((#[trigger] entries[i]).id) && x == (
            Effect::SendScale { output: name, id: entries[i].id }),
    decreases entries.len(),
{
    if entries.len() > 0 {
        let head = entries.drop_last();
        law_listed_windows_are_told_the_scale(name, head, windows, x);
        let a = listed_scales(name, head, windows);
        let b = listed_scales(name, entries, windows);
        let n = entries.len() - 1;
        assert(entries[n] == entries.last());
        if a.contains(x) {
            let k = choose|k: int| 0 <= k < a.len() && a[k] == x;
            assert(b[k] == x);
            let i = choose|i: int|
                0 <= i < head.len() && windows.contains_key((#[trigger] head[i]).id) && x == (
                Effect::SendScale { output: name, id: head[i].id });
            assert(entries[i] == head[i]);
        }
        if exists|i: int|
            0 <= i < entries.len() && windows.contains_key((#[trigger] entries[i]).id) && x == (
            Effect::SendScale { output: name, id: entries[i].id }) {
            let i = choose|i: int|
                0 <= i < entries.len() && windows.contains_key((#[trigger] entries[i]).id) && x == (
                Effect::SendScale { output: name, id: entries[i].id });
            if i < n {
                assert(head[i] == entries[i]);
                assert(a.contains(x));
            } else {
                assert(b[a.len() as int] == x);
            }
        }
        if b.contains(x) && !a.contains(x) {
            let k = choose|k: int| 0 <= k < b.len() && b[k] == x;
            assert(k == a.len());
        }
    }
}

/// Of the windows that no layout lists, those whose place the output holds are told its scale.
pub proof fn law_unlisted_windows_are_told_the_scale(
    name: String,
    windows: Seq<(u64, WindowState)>,
    layouts: Layouts,
    geo: Rect,
    x: Effect,
)
    ensures
        unlisted_scales(name, windows, layouts, geo).contains(x) <==> exists|i: int|
            0 <= i < windows.len() && (#[trigger] windows[i]).1.at is Some && geo.has_point(
                windows[i].1.at->0,
            ) && !layouts.surface_outputs.shown(windows[i].0) && x == (Effect::SendScale {
                output: name,
                id: windows[i].0,
            }),
    decreases windows.len(),
{
    if windows.len() > 0 {
        let head = windows.drop_last();
        law_unlisted_windows_are_told_the_scale(name, head, layouts, geo, x);
        let a = unlisted_scales(name, head, layouts, geo);
        let b = unlisted_scales(name, windows, layouts, geo);
        let n = windows.len() - 1;
        assert(windows[n] == windows.last());
        if a.contains(x) {
            let k = choose|k: int| 0 <= k < a.len() && a[k] == x;
            assert(b[k] == x);
            let i = choose|i: int|
                0 <= i < head.len() && (#[trigger] head[i]).1.at is Some && geo.has_point(
                    head[i].1.at->0,
                ) && !layouts.surface_outputs.shown(head[i].0) && x == (Effect::SendScale {
                    output: name,
                    id: head[i].0,
                });
            assert(windows[i] == head[i]);
        }
        if exists|i: int|
            0 <= i < windows.len() && (#[trigger] windows[i]).1.at is Some && geo.has_point(
                windows[i].1.at->0,
            ) && !layouts.surface_outputs.shown(windows[i].0) && x == (Effect::SendScale {
                output: name,
                id: windows[i].0,
            }) {
            let i = choose|i: int|
                0 <= i < windows.len() && (#[trigger] windows[i]).1.at is Some && geo.has_point(
                    windows[i].1.at->0,
                ) && !layouts.surface_outputs.shown(windows[i].0) && x == (Effect::SendScale {
                    output: name,
                    id: windows[i].0,
                });
            if i < n {
                assert(head[i] == windows[i]);
                assert(a.contains(x));
            } else {
                assert(b[a.len() as int] == x);
            }
        }
        if b.contains(x) && !a.contains(x) {
            let k = choose|k: int| 0 <= k < b.len() && b[k] == x;
            assert(k == a.len());
        }
    }
}

/// The output that the pointer is on is redrawn, and so is the one that it came from; no other is.
pub proof fn law_pointer_redraws_its_outputs(
    s: Seq<(String, OutputState)>,
    previous: Option<Seq<char>>,
    current: Option<Seq<char>>,
    i: int,
)
    requires
        0 <= i < s.len(),
    ensures
        ({
            let r = pointer_redraws(s, previous, current);
            let here = current is Some && current->0 == s[i].0@;
            let left = previous is Some && previous->0 == s[i].0@;
            &&& r.len() == s.len()
            &&& r[i].0 == s[i].0
            &&& here || left ==> r[i].1.redraw_state == s[i].1.redraw_state.requested()
            &&& !here && !left ==> r[i] == s[i]
        }),
{
    crate::redraw::law_request_is_idempotent(s[i].1.redraw_state);
}

/// A window is cast from the output of its primary view.
pub proof fn law_windows_are_cast_from_their_primary_view(
    outs: Seq<(String, Vec<LayoutEntry>)>,
    m: Map<u64, String>,
    o: int,
    j: int,
)
    requires
        cast_outputs_of(outs, m),
        0 <= o < outs.len(),
        0 <= j < outs[o].1@.len(),
        outs[o].1@[j].primary,
        forall|p: int, k: int|
            0 <= p < outs.len() && 0 <= k < outs[p].1@.len() && (#[trigger] outs[p].1@[k]).primary
                && outs[p].1@[k].id == outs[o].1@[j].id ==> p == o,
    ensures
        m.contains_key(outs[o].1@[j].id),
        m[outs[o].1@[j].id] == outs[o].0,
{
    let id = outs[o].1@[j].id;
    assert(crate::layout::slot(outs, o, j));
    assert(m.contains_key(id));
    let (p, k) = choose|p: int, k: int| #[trigger]
        crate::layout::slot(outs, p, k) && outs[p].1@[k].id == id && outs[p].1@[k].primary && m[id]
            == outs[p].0;
    assert(outs[p].1@[k].primary);
}

/// A virtual output stands where its configuration says, else to the right of everything, with all
/// of it free, and is told to Emacs with its one mode.
pub proof fn law_virtual_outputs_are_placed(
    e0: Ewm,
    e1: Ewm,
    name: String,
    width: i32,
    height: i32,
    logical: Size,
)
    requires
        e0.wf(),
        e1.wf(),
        virtual_added(e0, e1, name, width, height, logical),
    ensures
        ({
            let known = e0.output_config@.contains_key(name@);
            let conf = e0.output_config@[name@];
            let m = e1.space@[name@];
            &&& e1.space@.contains_key(name@)
            &&& known && conf.position is Some ==> m.geo.loc.x == (conf.position->0).0
                && m.geo.loc.y == (conf.position->0).1
            &&& !known || conf.position is None ==> m.geo.loc.x == e0.output_size.w && m.geo.loc.y
                == 0
            &&& m.geo.size == logical && m.size == logical
            &&& m.zone.loc.x == 0 && m.zone.loc.y == 0 && m.zone.size == logical
            &&& m.mode_size == Some(Size { w: width, h: height })
            &&& e1.output_state@.contains_key(name@)
            &&& e1.output_state@[name@].redraw_state.is_due()
            &&& e1.effects@.len() == e0.effects@.len() + 2
            &&& e1.effects@[e0.effects@.len() as int] matches Effect::Event(
                Event::OutputDetected(info),
            )
            &&& info.name == name
            &&& info.x == m.geo.loc.x && info.y == m.geo.loc.y
            &&& info.modes@.len() == 1
            &&& info.modes@[0].width == width && info.modes@[0].height == height
            &&& info.modes@[0].refresh == 60000 && info.modes@[0].preferred
        }),
{
    let cur = crate::backend::headless::virtual_current(e0, name@, width, height, logical);
    let at = start_position(e0, name@);
    let (a, b, info) = choose|a: Ewm, b: Ewm, info: OutputInfo|
        {
            &&& #[trigger] output_moved(
                e0,
                a,
                name,
                crate::backend::connect::mapped_at(at, cur),
            )
            &&& #[trigger] virtual_state_made(a, b, name, Size { w: width, h: height })
            &&& crate::backend::headless::tells_virtual(
                info,
                name,
                width,
                height,
                at,
                cur.scale_120,
                cur.transform,
            )
            &&& #[trigger] output_added(b, e1, info, cur)
        };
    NameMap::lemma_entries_with(
        e0.space,
        e1.space,
        name,
        crate::backend::connect::mapped_at(at, cur),
    );
    let st = choose|st: OutputState|
        {
            &&& b.output_state.entries@ == #[trigger] a.output_state.entries_with(name, st)
            &&& st.redraw_state == crate::redraw::RedrawState::Queued
        };
    NameMap::lemma_entries_with(a.output_state, e1.output_state, name, st);
    assert(b.effects == e0.effects);
    assert(e1.effects@[e0.effects@.len() as int] == Effect::Event(Event::OutputDetected(info)));
}

/// A frame without hardware brings its output to rest and is counted once, for that output alone.
pub proof fn law_frames_without_hardware(
    b0: HeadlessBackend,
    e0: Ewm,
    b1: HeadlessBackend,
    e1: Ewm,
    output: Seq<char>,
    other: Seq<char>,
)
    requires
        e0.wf(),
        e1.wf(),
        frame_counted(b0, e0, b1, e1, output),
        e0.output_state@.contains_key(output),
        other != output,
    ensures
        e1.output_state@.contains_key(output),
        e1.output_state@[output].redraw_state is Idle,
        b0.outputs@.contains_key(output) && b0.outputs@[output].render_count < usize::MAX
            ==> b1.outputs@[output].render_count == b0.outputs@[output].render_count + 1
            && b1.outputs@[output].size == b0.outputs@[output].size,
        b1.outputs@.contains_key(other) == b0.outputs@.contains_key(other),
        b0.outputs@.contains_key(other) ==> b1.outputs@[other] == b0.outputs@[other],
{
    let p = e0.output_state.position(output);
    e0.output_state.lemma_entry(p);
    assert(e1.output_state.entries@[p].0@ == output);
    e1.output_state.lemma_entry(p);
}

/// A configuration that the hardware took puts the output where it says, or leaves it where it is,
/// with the extent, free area and mode that it has now.
pub proof fn law_taken_configuration_moves_the_output(
    before: Ewm,
    moved: Ewm,
    name: String,
    position: Option<(i32, i32)>,
    cur: CurrentOutput,
)
    requires
        before.wf(),
        moved.wf(),
        before.space@.contains_key(name@),
        output_moved(
            before,
            moved,
            name,
            crate::backend::connect::mapped_at(
                crate::backend::connect::moved_to(before.space@[name@], position),
                cur,
            ),
        ),
    ensures
        moved.space@.contains_key(name@),
        position is Some ==> moved.space@[name@].geo.loc.x == (position->0).0
            && moved.space@[name@].geo.loc.y == (position->0).1,
        position is None ==> moved.space@[name@].geo.loc == before.space@[name@].geo.loc,
        moved.space@[name@].geo.size == cur.size,
        moved.space@[name@].zone == cur.zone,
        moved.space@[name@].mode_size == Some(cur.mode_size),
        moved.space@[name@].refresh == cur.refresh,
{
    NameMap::lemma_entries_with(
        before.space,
        moved.space,
        name,
        crate::backend::connect::mapped_at(
            crate::backend::connect::moved_to(before.space@[name@], position),
            cur,
        ),
    );
}

/// A new mode gives its output a clock of its own rate that has seen no frame; without a new mode
/// the clock stays.
pub proof fn law_new_mode_brings_a_new_clock(
    before: Ewm,
    after: Ewm,
    name: Seq<char>,
    mode: Option<DrmMode>,
)
    requires
        before.wf(),
        after.wf(),
        clock_replaced(before, after, name, mode),
        before.output_state@.contains_key(name),
    ensures
        mode is None ==> after == before,
        mode is Some && mode->0.interval_nanos() > 0 ==> {
            let st = after.output_state@[name];
            &&& after.output_state@.contains_key(name)
            &&& st.frame_clock.interval() == Some(mode->0.interval_nanos() as nat)
            &&& st.frame_clock.last() is None
            &&& st.redraw_state == before.output_state@[name].redraw_state
        },
{
    let p = before.output_state.position(name);
    before.output_state.lemma_entry(p);
    if mode is Some {
        assert(after.output_state.entries@[p].0@ == name);
        after.output_state.lemma_entry(p);
    }
}

/// Each frame of the output is told its place and its size, and no other window is told anything.
pub proof fn law_fitted_frames_are_told(
    order: Seq<(u64, WindowState)>,
    frames: Map<u64, String>,
    output: Seq<char>,
    at: Point,
    x: Effect,
)
    ensures
        fit_effects(order, frames, output, at).contains(x) <==> exists|i: int|
            0 <= i < order.len() && frames.contains_key((#[trigger] order[i]).0)
                && frames[order[i].0]@ == output && (x == (Effect::MapFrame { id: order[i].0, at })
                || x == (Effect::Configure { id: order[i].0 })),
    decreases order.len(),
{
    if order.len() > 0 {
        let head = order.drop_last();
        law_fitted_frames_are_told(head, frames, output, at, x);
        let a = fit_effects(head, frames, output, at);
        let b = fit_effects(order, frames, output, at);
        let n = order.len() - 1;
        let id = order.last().0;
        assert(order[n] == order.last());
        if a.contains(x) {
            let k = choose|k: int| 0 <= k < a.len() && a[k] == x;
            assert(b[k] == x);
            let i = choose|i: int|
                0 <= i < head.len() && frames.contains_key((#[trigger] head[i]).0)
                    && frames[head[i].0]@ == output && (x == (Effect::MapFrame {
                    id: head[i].0,
                    at,
                }) || x == (Effect::Configure { id: head[i].0 }));
            assert(order[i] == head[i]);
        }
        if b != a {
            assert(b[a.len() as int] == (Effect::MapFrame { id, at }));
            assert(b[a.len() as int + 1] == (Effect::Configure { id }));
        }
        if exists|i: int|
            0 <= i < order.len() && frames.contains_key((#[trigger] order[i]).0)
                && frames[order[i].0]@ == output && (x == (Effect::MapFrame { id: order[i].0, at })
                || x == (Effect::Configure { id: order[i].0 })) {
            let i = choose|i: int|
                0 <= i < order.len() && frames.contains_key((#[trigger] order[i]).0)
                    && frames[order[i].0]@ == output && (x == (Effect::MapFrame {
                    id: order[i].0,
                    at,
                }) || x == (Effect::Configure { id: order[i].0 }));
            if i < n {
                assert(head[i] == order[i]);
                assert(a.contains(x));
            }
        }
        if b.contains(x) && !a.contains(x) {
            let k = choose|k: int| 0 <= k < b.len() && b[k] == x;
            assert(k >= a.len());
        }
    }
}

/// The scale of an output is told to its windows first and to its layer surfaces and the dragged
/// icon last.
pub proof fn law_scale_is_told_to_layers_last(e: Ewm, name: String)
    ensures
        scale_effects(e, name).len() > 0,
        scale_effects(e, name).last() == (Effect::SendScaleToLayers { output: name }),
        forall|k: int|
            0 <= k < scale_effects(e, name).len() - 1 ==> {
                let x = #[trigger] scale_effects(e, name)[k];
                listed_scales(
                    name,
                    crate::ewm::layouts::layout_of(e, name@),
                    e.windows@,
                ).contains(x) || unlisted_scales(
                    name,
                    e.windows.entries@,
                    e.layouts,
                    if e.space@.contains_key(name@) {
                        e.space@[name@].geo
                    } else {
                        Rect { loc: Point { x: 0, y: 0 }, size: Size { w: 0, h: 0 } }
                    },
                ).contains(x)
            },
{
    let a = listed_scales(name, crate::ewm::layouts::layout_of(e, name@), e.windows@);
    let geo = if e.space@.contains_key(name@) {
        e.space@[name@].geo
    } else {
        Rect { loc: Point { x: 0, y: 0 }, size: Size { w: 0, h: 0 } }
    };
    let b = unlisted_scales(name, e.windows.entries@, e.layouts, geo);
    let s = scale_effects(e, name);
    assert forall|k: int| 0 <= k < s.len() - 1 implies a.contains(#[trigger] s[k]) || b.contains(
        s[k],
    ) by {
        if k < a.len() {
            assert(a[k] == s[k]);
        } else {
            assert(b[k - a.len()] == s[k]);
        }
    }
}

/// The corner that Emacs is told of an output is that of its free area, in the global space.
pub proof fn law_told_corner(e: Ewm, i: int)
    requires
        0 <= i < e.space.entries@.len(),
        origin_fits(e, i),
    ensures
        ({
            let n = e.space.entries@[i].0@;
            let at = e.space.entries@[i].1.geo.loc;
            let o = origin_of(e, i);
            &&& e.working_areas@.contains_key(n) ==> o.0 == at.x + e.working_areas@[n].loc.x && o.1
                == at.y + e.working_areas@[n].loc.y
            &&& !e.working_areas@.contains_key(n) ==> o.0 == at.x && o.1 == at.y
        }),
{
}

/// A mode is usable if its timing is there and a refresh takes less than a second.
pub proof fn law_usable_modes(m: DrmMode)
    ensures
        crate::backend::connect::mode_usable(m) ==> m.htotal > 0 && m.vtotal > 0
            && m.interval_nanos() < 1_000_000_000,
        m.htotal == 0 || m.vtotal == 0 ==> !crate::backend::connect::mode_usable(m),
        m.htotal > 0 && m.vtotal > 0 && m.clock == 0 ==> crate::backend::connect::mode_usable(m),
{
}

} // verus!
