//! Layer surfaces and popups.
use crate::effect::Effect;
use crate::ewm::focus::preferred_output;
use crate::ewm::layers::{
    layer_committed, layer_dropped, layer_noted, layer_output, output_redrawn, placed_layer,
    LayerCommit, LayerPlace,
};
use crate::ewm::popups::{
    has_popup_room, moved_by, padded, popup_entry, popup_room, window_popup_output, without_resize,
    Positioner,
};
use crate::ewm::surfaces::{commit_kind, committed, CommitKind, SurfaceCommit};
use crate::ewm::{Ewm, KeyboardInteractivity};
use crate::geometry::{Point, Rect};
use crate::layout::{before as stands_before, is_first_entry, slot, EntryKind, LayoutEntry};
use vstd::prelude::*;

verus! {

/// A layer surface goes to the output that its client names; where it names none, to the preferred
/// output, if that is mapped; to none where the named one is gone.
pub proof fn law_layer_surface_gets_its_output(e: Ewm, name: String)
    ensures
        layer_output(e, LayerPlace::Output(name)) == Some(name@),
        layer_output(e, LayerPlace::Gone) is None,
        preferred_output(e) is Some && e.space@.contains_key(preferred_output(e)->0)
            ==> layer_output(e, LayerPlace::Any) == preferred_output(e),
        preferred_output(e) is None ==> layer_output(e, LayerPlace::Any) is None,
{
}

/// A commit of a layer surface is noted in its own entry, where its layer and its way with the
/// keyboard change. It is sent its configuration exactly if it had none. Once it has content it
/// counts as mapped; at that moment the keyboard is looked at again, and a surface that takes focus
/// on demand gets it.
pub proof fn law_layer_commit_is_noted(before: Ewm, after: Ewm, i: int, c: LayerCommit, j: int)
    requires
        layer_noted(before, after, i, c),
        0 <= i < before.layers@.len(),
        0 <= j < before.layers@.len(),
    ensures
        ({
            let s = before.layers@[i].surface;
            let was_hidden = before.unmapped_layers@.contains_key(s);
            &&& after.layers@.len() == before.layers@.len()
            &&& j != i ==> after.layers@[j] == before.layers@[j]
            &&& after.layers@[i].surface == s
            &&& after.layers@[i].output == before.layers@[i].output
            &&& after.layers@[i].layer == c.layer
            &&& after.layers@[i].interactivity == c.interactivity
            &&& !c.initial_configure_sent ==> after.effects@ == before.effects@.push(
                Effect::ConfigureLayer { surface: s },
            ) && after.unmapped_layers@ == before.unmapped_layers@ && after.on_demand_layer
                == before.on_demand_layer
            &&& c.initial_configure_sent ==> after.effects@ == before.effects@
            &&& c.initial_configure_sent && c.has_buffer
                ==> !after.unmapped_layers@.contains_key(s)
            &&& c.initial_configure_sent && !c.has_buffer ==> after.unmapped_layers@.contains_key(
                s,
            ) && after.on_demand_layer == before.on_demand_layer
            &&& c.initial_configure_sent && c.has_buffer && was_hidden
                ==> after.keyboard_focus_dirty
            &&& c.initial_configure_sent && c.has_buffer && was_hidden && c.interactivity
                == KeyboardInteractivity::OnDemand ==> after.on_demand_layer == Some(s)
            &&& !was_hidden || c.interactivity != KeyboardInteractivity::OnDemand
                ==> after.on_demand_layer == before.on_demand_layer
        }),
{
}

/// A commit of a part of a layer surface redraws the output of the surface and does nothing else.
pub proof fn law_parts_of_layer_surfaces_are_redrawn(
    before: Ewm,
    after: Ewm,
    root: u64,
    c: LayerCommit,
    i: int,
    k: int,
)
    requires
        before.wf(),
        layer_committed(before, after, root, c),
        !c.is_root,
        placed_layer(before.layers@, before.space@, root, i),
        0 <= k < before.output_state.entries@.len(),
    ensures
        after.layers == before.layers,
        after.effects == before.effects,
        before.output_state.entries@[k].0@ == before.layers@[i].output@
            ==> after.output_state.entries@[k].1.redraw_state.is_pending(),
        before.output_state.entries@[k].0@ != before.layers@[i].output@
            ==> after.output_state.entries@[k] == before.output_state.entries@[k],
{
    let q = choose|q: int|
        {
            let output = before.layers@[q].output;
            &&& #[trigger] placed_layer(before.layers@, before.space@, root, q)
            &&& output_redrawn(before, after, output@)
        };
    assert(q == i);
    crate::redraw::law_request_is_idempotent(before.output_state.entries@[k].1.redraw_state);
}

/// A layer surface that goes takes its claim to the keyboard with it and no other surface.
pub proof fn law_dropped_layer_surface_is_gone(before: Ewm, after: Ewm, i: int, j: int)
    requires
        layer_dropped(before, after, i),
        0 <= i < before.layers@.len(),
        0 <= j < before.layers@.len(),
    ensures
        after.layers@.len() == before.layers@.len() - 1,
        j < i ==> after.layers@[j] == before.layers@[j],
        j > i ==> after.layers@[j - 1] == before.layers@[j],
        after.on_demand_layer != Some(before.layers@[i].surface),
        before.on_demand_layer != Some(before.layers@[i].surface) ==> after.on_demand_layer
            == before.on_demand_layer,
        after.keyboard_focus_dirty,
{
}

/// A commit belongs to the icon of a drag, else to a layer surface on a mapped output, else it
/// waits for its parent, else it belongs to its window, in this order.
pub proof fn law_commits_are_sorted(e: Ewm, c: SurfaceCommit)
    ensures
        ({
            let icon = e.drag_icon is Some && e.drag_icon->0.surface == c.root;
            let layer = exists|j: int|
                0 <= j < e.layers@.len() && (#[trigger] e.layers@[j]).surface == c.layer_root
                    && e.space@.contains_key(e.layers@[j].output@);
            &&& icon <==> commit_kind(e, c) == CommitKind::DragIcon
            &&& !icon && layer <==> commit_kind(e, c) == CommitKind::Layer
            &&& !icon && !layer && c.synced <==> commit_kind(e, c) == CommitKind::Synced
            &&& !icon && !layer && !c.synced && c.window is Some ==> commit_kind(e, c)
                == CommitKind::Window(c.window->0)
            &&& !icon && !layer && !c.synced && c.window is None ==> commit_kind(e, c)
                == CommitKind::Other
        }),
{
}

/// The icon of a drag moves by as much as its own content did, and not with its parts.
pub proof fn law_drag_icon_moves_with_its_content(before: Ewm, after: Ewm, c: SurfaceCommit)
    requires
        committed(before, after, c),
        before.drag_icon is Some,
        before.drag_icon->0.surface == c.root,
        i32::MIN <= before.drag_icon->0.offset.x + c.delta.x <= i32::MAX,
        i32::MIN <= before.drag_icon->0.offset.y + c.delta.y <= i32::MAX,
    ensures
        after.drag_icon is Some,
        after.drag_icon->0.surface == before.drag_icon->0.surface,
        c.is_root ==> after.drag_icon->0.offset.x == before.drag_icon->0.offset.x + c.delta.x
            && after.drag_icon->0.offset.y == before.drag_icon->0.offset.y + c.delta.y,
        !c.is_root ==> after.drag_icon->0.offset == before.drag_icon->0.offset,
{
}

/// Room for a popup is cut by eight pixels on each side, along each axis that is longer than that;
/// shorter axes stay.
pub proof fn law_popups_keep_their_distance(target: Rect)
    requires
        target.loc.x + 8 <= i32::MAX,
        target.loc.y + 8 <= i32::MAX,
    ensures
        ({
            let p = padded(target);
            &&& target.size.w > 16 ==> p.loc.x == target.loc.x + 8 && p.size.w == target.size.w - 16
            &&& target.size.w <= 16 ==> p.loc.x == target.loc.x && p.size.w == target.size.w
            &&& target.size.h > 16 ==> p.loc.y == target.loc.y + 8 && p.size.h == target.size.h - 16
            &&& target.size.h <= 16 ==> p.loc.y == target.loc.y && p.size.h == target.size.h
        }),
{
}

/// A popup is not resized on the first try; everything else about it is as its client asked.
pub proof fn law_first_try_does_not_resize(p: Positioner)
    ensures
        ({
            let q = without_resize(p);
            &&& !q.adjustments.resize_x && !q.adjustments.resize_y
            &&& q.adjustments.slide_x == p.adjustments.slide_x
            &&& q.adjustments.slide_y == p.adjustments.slide_y
            &&& q.adjustments.flip_x == p.adjustments.flip_x
            &&& q.adjustments.flip_y == p.adjustments.flip_y
            &&& q.size == p.size && q.anchor_rect == p.anchor_rect && q.anchor == p.anchor
                && q.gravity == p.gravity && q.offset == p.offset
        }),
{
}

/// The popups of a window have the room of its first selected view, or of its primary view without
/// one: the whole output for a fullscreen view, else the width of the view over the full height of
/// the output, as seen from the view's corner.
pub proof fn law_popups_have_the_room_of_the_view(e: Ewm, id: u64, r: Option<Rect>, o: int, j: int)
    requires
        has_popup_room(e, id, r),
        0 <= o < e.layouts.outputs.entries@.len(),
        0 <= j < e.layouts.outputs.entries@[o].1@.len(),
        e.layouts.outputs.entries@[o].1@[j].id == id,
        e.layouts.outputs.entries@[o].1@[j].focused,
        forall|p: int, k: int| #[trigger]
            slot(e.layouts.outputs.entries@, p, k) && e.layouts.outputs.entries@[p].1@[k].id == id
                && e.layouts.outputs.entries@[p].1@[k].focused ==> o < p || (o == p && j <= k),
    ensures
        ({
            let v = e.layouts.outputs.entries@[o].1@[j];
            let n = e.layouts.outputs.entries@[o].0@;
            &&& r is Some <==> e.space@.contains_key(n)
            &&& r is Some && v.fullscreen ==> r->0.loc.x == 0 && r->0.loc.y == 0 && r->0.size
                == e.space@[n].geo.size
            &&& r is Some && !v.fullscreen && v.y > i32::MIN ==> r->0.loc.x == 0 && r->0.loc.y
                == -v.y && r->0.size.w == v.w as i32 && r->0.size.h == e.space@[n].geo.size.h
        }),
{
    let outs = e.layouts.outputs.entries@;
    let kind = EntryKind::Focused;
    assert(slot(outs, o, j));
    assert(is_first_entry(outs, id, kind, o, j));
    let x = choose|x: Option<(String, LayoutEntry)>|
        {
            &&& #[trigger] popup_entry(e.layouts, id, x)
            &&& r == match x {
                Some((name, entry)) => if e.space@.contains_key(name@) {
                    Some(popup_room(entry, e.space@[name@]))
                } else {
                    None
                },
                None => None,
            }
        };
    assert(!crate::layout::no_entry(outs, id, kind));
    let (p, k) = choose|p: int, k: int| #[trigger]
        is_first_entry(outs, id, kind, p, k) && (x->0).0 == outs[p].0 && (x->0).1 == outs[p].1@[k];
    if stands_before(p, k, o, j) {
        assert(slot(outs, p, k));
    }
    if stands_before(o, j, p, k) {
        assert(slot(outs, o, j));
    }
}

/// Moving a rectangle back moves its corner alone.
pub proof fn law_moving_back(r: Rect, d: Point)
    requires
        i32::MIN <= r.loc.x - d.x <= i32::MAX,
        i32::MIN <= r.loc.y - d.y <= i32::MAX,
    ensures
        moved_by(r, d).loc.x + d.x == r.loc.x,
        moved_by(r, d).loc.y + d.y == r.loc.y,
        moved_by(r, d).size == r.size,
{
}

/// A popup of a window is on the mapped output of the window's first selected view, and on none if
/// that output is not mapped.
pub proof fn law_popups_follow_the_selected_view(e: Ewm, id: u64, o: int, j: int)
    requires
        is_first_entry(e.layouts.outputs.entries@, id, EntryKind::Focused, o, j),
    ensures
        window_popup_output(e, id) == if e.space@.contains_key(e.layouts.outputs.entries@[o].0@) {
            Some(e.layouts.outputs.entries@[o].0@)
        } else {
            None
        },
        e.layouts.outputs.entries@[o].1@[j].id == id,
        e.layouts.outputs.entries@[o].1@[j].focused,
{
    let outs = e.layouts.outputs.entries@;
    let kind = EntryKind::Focused;
    let (p, k) = choose|p: int, k: int| is_first_entry(outs, id, kind, p, k);
    assert(is_first_entry(outs, id, kind, p, k));
    if stands_before(p, k, o, j) {
        assert(slot(outs, p, k));
    }
    if stands_before(o, j, p, k) {
        assert(slot(outs, o, j));
    }
}

} // verus!
