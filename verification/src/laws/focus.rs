//! Who has the keyboard, and which output counts.
use crate::effect::{Effect, FocusTarget};
use crate::ewm::focus::{
    first_layer, first_shown_on, focus_synced, focused_output, frame_for, frame_on_focused_output,
    layer_focus, on_demand_cleaned, on_demand_here, output_containing, output_for_point,
    output_layer_focus, preferred_output, surface_output, LayerWant,
};
use crate::ewm::{Ewm, KeyboardInteractivity, Layer, LayerInfo};
use crate::geometry::Point;
use crate::layout::{
    before as stands_before, entry_is, is_first_entry, slot, EntryKind, MappedOutput,
};
use crate::outputs::first_containing;
use vstd::prelude::*;

verus! {

/// How strongly a layer surface claims the keyboard, the strongest claim first. An exclusive one
/// on Overlay comes before one on Top, then comes the one that was clicked; exclusive ones on
/// Bottom and Background claim it only while no window is focused. The last number is no claim.
pub open spec fn claim(e: Ewm, on_demand: Option<u64>, l: LayerInfo) -> int {
    let exclusive = l.interactivity == KeyboardInteractivity::Exclusive;
    let no_window = e.focused_surface_id == 0 || !e.windows@.contains_key(e.focused_surface_id);
    if exclusive && l.layer == Layer::Overlay {
        0
    } else if exclusive && l.layer == Layer::Top {
        1
    } else if on_demand == Some(l.surface) {
        2
    } else if exclusive && l.layer == Layer::Bottom && no_window {
        3
    } else if exclusive && l.layer == Layer::Background && no_window {
        4
    } else {
        5
    }
}

/// The layer surface `j` is on the output and the layer and is the one wanted.
spec fn stands(
    layers: Seq<LayerInfo>,
    output: Seq<char>,
    layer: Layer,
    want: LayerWant,
    j: int,
) -> bool {
    layers[j].output@ == output && layers[j].layer == layer && want.meets(layers[j])
}

/// A layer surface that is found is the first on the output and the layer that is wanted, and none
/// is found only if there is none. Gives its place.
proof fn lemma_first_layer(
    layers: Seq<LayerInfo>,
    output: Seq<char>,
    layer: Layer,
    want: LayerWant,
) -> (i: int)
    ensures
        first_layer(layers, output, layer, want) is Some ==> 0 <= i < layers.len()
            && layers[i].surface == first_layer(layers, output, layer, want)->0 && stands(
            layers,
            output,
            layer,
            want,
            i,
        ) && forall|j: int| 0 <= j < i ==> !#[trigger] stands(layers, output, layer, want, j),
        first_layer(layers, output, layer, want) is None ==> forall|j: int|
            0 <= j < layers.len() ==> !#[trigger] stands(layers, output, layer, want, j),
    decreases layers.len(),
{
    if layers.len() == 0 {
        0
    } else {
        let head = layers.drop_last();
        let i = lemma_first_layer(head, output, layer, want);
        assert forall|j: int| 0 <= j < head.len() implies #[trigger] stands(
            layers,
            output,
            layer,
            want,
            j,
        ) == stands(head, output, layer, want, j) by {}
        if first_layer(head, output, layer, want) is Some {
            assert(stands(layers, output, layer, want, i));
            i
        } else {
            layers.len() - 1
        }
    }
}

/// No layer surface on the output claims the keyboard.
pub open spec fn unclaimed(e: Ewm, on_demand: Option<u64>, output: Seq<char>) -> bool {
    forall|j: int|
        0 <= j < e.layers@.len() && (#[trigger] e.layers@[j]).output@ == output ==> claim(
            e,
            on_demand,
            e.layers@[j],
        ) == 5
}

/// The layer surface `i` is on the output and claims the keyboard, and none there claims it more
/// strongly, or as strongly and stands before.
pub open spec fn strongest_on(e: Ewm, on_demand: Option<u64>, output: Seq<char>, i: int) -> bool {
    &&& 0 <= i < e.layers@.len()
    &&& e.layers@[i].output@ == output
    &&& claim(e, on_demand, e.layers@[i]) < 5
    &&& forall|j: int|
        0 <= j < e.layers@.len() && (#[trigger] e.layers@[j]).output@ == output ==> {
            let mine = claim(e, on_demand, e.layers@[i]);
            let theirs = claim(e, on_demand, e.layers@[j]);
            mine < theirs || (mine == theirs && (mine == 2 || i <= j))
        }
}

/// On one output the strongest claim wins, and nobody gets the keyboard only if nobody claims it.
proof fn lemma_output_claims(e: Ewm, output: Seq<char>) -> (i: int)
    ensures
        ({
            let r = output_layer_focus(e.layers@, output, e.on_demand_layer, e.window_focused());
            &&& r is Some ==> strongest_on(e, e.on_demand_layer, output, i)
                && e.layers@[i].surface == r->0
            &&& r is None ==> unclaimed(e, e.on_demand_layer, output)
        }),
{
    let ls = e.layers@;
    let c = e.on_demand_layer;
    let x = LayerWant::Exclusive;
    let a = lemma_first_layer(ls, output, Layer::Overlay, x);
    let b = lemma_first_layer(ls, output, Layer::Top, x);
    if first_layer(ls, output, Layer::Overlay, x) is Some {
        assert forall|j: int| 0 <= j < ls.len() && (#[trigger] ls[j]).output@ == output implies {
            claim(e, c, ls[a]) < claim(e, c, ls[j]) || (claim(e, c, ls[a]) == claim(e, c, ls[j])
                && a <= j)
        } by {
            assert(j < a ==> !stands(ls, output, Layer::Overlay, x, j));
        }
        return a;
    }
    assert forall|j: int| 0 <= j < ls.len() && (#[trigger] ls[j]).output@ == output implies claim(
        e,
        c,
        ls[j],
    ) > 0 by {
        assert(!stands(ls, output, Layer::Overlay, x, j));
    }
    if first_layer(ls, output, Layer::Top, x) is Some {
        assert forall|j: int| 0 <= j < ls.len() && (#[trigger] ls[j]).output@ == output implies {
            claim(e, c, ls[b]) < claim(e, c, ls[j]) || (claim(e, c, ls[b]) == claim(e, c, ls[j])
                && b <= j)
        } by {
            assert(j < b ==> !stands(ls, output, Layer::Top, x, j));
            assert(claim(e, c, ls[j]) > 0);
        }
        return b;
    }
    assert forall|j: int| 0 <= j < ls.len() && (#[trigger] ls[j]).output@ == output implies claim(
        e,
        c,
        ls[j],
    ) > 1 by {
        assert(!stands(ls, output, Layer::Top, x, j));
        assert(claim(e, c, ls[j]) > 0);
    }
    if c is Some {
        let w = LayerWant::Surface(c->0);
        let p = lemma_first_layer(ls, output, Layer::Overlay, w);
        let q = lemma_first_layer(ls, output, Layer::Top, w);
        let r = lemma_first_layer(ls, output, Layer::Bottom, w);
        let s = lemma_first_layer(ls, output, Layer::Background, w);
        let i = if first_layer(ls, output, Layer::Overlay, w) is Some {
            p
        } else if first_layer(ls, output, Layer::Top, w) is Some {
            q
        } else if first_layer(ls, output, Layer::Bottom, w) is Some {
            r
        } else {
            s
        };
        if on_demand_here(ls, output, c) is Some {
            assert(ls[i].surface == c->0 && ls[i].output@ == output);
            assert(claim(e, c, ls[i]) > 1);
            assert(claim(e, c, ls[i]) == 2);
            return i;
        }
        assert forall|j: int| 0 <= j < ls.len() && (#[trigger] ls[j]).output@
            == output implies claim(e, c, ls[j]) > 2 by {
            assert(!stands(ls, output, Layer::Overlay, w, j));
            assert(!stands(ls, output, Layer::Top, w, j));
            assert(!stands(ls, output, Layer::Bottom, w, j));
            assert(!stands(ls, output, Layer::Background, w, j));
            assert(claim(e, c, ls[j]) > 1);
        }
    }
    assert forall|j: int| 0 <= j < ls.len() && (#[trigger] ls[j]).output@ == output implies claim(
        e,
        c,
        ls[j],
    ) > 2 by {
        assert(claim(e, c, ls[j]) > 1);
    }
    if e.window_focused() {
        return 0;
    }
    let m = lemma_first_layer(ls, output, Layer::Bottom, x);
    let n = lemma_first_layer(ls, output, Layer::Background, x);
    if first_layer(ls, output, Layer::Bottom, x) is Some {
        assert(claim(e, c, ls[m]) > 2);
        assert forall|j: int| 0 <= j < ls.len() && (#[trigger] ls[j]).output@ == output implies {
            claim(e, c, ls[m]) < claim(e, c, ls[j]) || (claim(e, c, ls[m]) == claim(e, c, ls[j])
                && m <= j)
        } by {
            assert(j < m ==> !stands(ls, output, Layer::Bottom, x, j));
            assert(claim(e, c, ls[j]) > 2);
        }
        return m;
    }
    assert forall|j: int| 0 <= j < ls.len() && (#[trigger] ls[j]).output@ == output implies claim(
        e,
        c,
        ls[j],
    ) > 3 by {
        assert(!stands(ls, output, Layer::Bottom, x, j));
        assert(claim(e, c, ls[j]) > 2);
    }
    if first_layer(ls, output, Layer::Background, x) is Some {
        assert(claim(e, c, ls[n]) > 3);
        assert forall|j: int| 0 <= j < ls.len() && (#[trigger] ls[j]).output@ == output implies {
            claim(e, c, ls[n]) < claim(e, c, ls[j]) || (claim(e, c, ls[n]) == claim(e, c, ls[j])
                && n <= j)
        } by {
            assert(j < n ==> !stands(ls, output, Layer::Background, x, j));
            assert(claim(e, c, ls[j]) > 3);
        }
        return n;
    }
    assert forall|j: int| 0 <= j < ls.len() && (#[trigger] ls[j]).output@ == output implies claim(
        e,
        c,
        ls[j],
    ) == 5 by {
        assert(!stands(ls, output, Layer::Background, x, j));
        assert(claim(e, c, ls[j]) > 3);
    }
    0
}

/// The strongest claim on the first output that has one wins. Gives its output and its place.
proof fn lemma_claims(e: Ewm, n: int) -> (r: (int, int))
    requires
        0 <= n <= e.space.entries@.len(),
    ensures
        layer_focus(e, n) is Some ==> 0 <= r.0 < n && strongest_on(
            e,
            e.on_demand_layer,
            e.space.entries@[r.0].0@,
            r.1,
        ) && e.layers@[r.1].surface == layer_focus(e, n)->0 && forall|p: int|
            0 <= p < r.0 ==> unclaimed(e, e.on_demand_layer, (#[trigger] e.space.entries@[p]).0@),
        layer_focus(e, n) is None ==> forall|p: int|
            0 <= p < n ==> unclaimed(e, e.on_demand_layer, (#[trigger] e.space.entries@[p]).0@),
    decreases n,
{
    if n == 0 {
        (0, 0)
    } else {
        let r = lemma_claims(e, n - 1);
        let i = lemma_output_claims(e, e.space.entries@[n - 1].0@);
        if layer_focus(e, n - 1) is Some {
            r
        } else {
            (n - 1, i)
        }
    }
}

/// Claims depend on the layer surfaces, the focused window and the click alone.
proof fn lemma_same_claims(a: Ewm, b: Ewm, c: Option<u64>, output: Seq<char>, i: int)
    requires
        a.layers == b.layers,
        a.focused_surface_id == b.focused_surface_id,
        a.windows == b.windows,
    ensures
        strongest_on(a, c, output, i) == strongest_on(b, c, output, i),
        unclaimed(a, c, output) == unclaimed(b, c, output),
{
    assert forall|j: int| 0 <= j < a.layers@.len() implies claim(a, c, #[trigger] a.layers@[j])
        == claim(b, c, b.layers@[j]) by {}
}

/// In an unlocked session the keyboard goes to the layer surface with the strongest claim on the
/// first mapped output where one has a claim, the first of equals. Only if none has a claim does
/// the focused window get it, and nobody if there is no such window. A click that is out of date
/// claims nothing.
pub proof fn law_strongest_claim_gets_the_keyboard(before: Ewm, after: Ewm)
    requires
        before.keyboard_focus_dirty,
        before.lock_state is Unlocked,
        focus_synced(before, after),
    ensures
        after.on_demand_layer is Some <==> before.on_demand_layer is Some && exists|i: int|
            0 <= i < before.layers@.len() && (#[trigger] before.layers@[i]).surface
                == before.on_demand_layer->0 && before.layers@[i].interactivity
                == KeyboardInteractivity::OnDemand,
        after.on_demand_layer is Some ==> after.on_demand_layer == before.on_demand_layer,
        after.keyboard_focus matches FocusTarget::Layer(s) ==> exists|o: int, i: int|
            0 <= o < before.space.entries@.len() && #[trigger] strongest_on(
                before,
                after.on_demand_layer,
                before.space.entries@[o].0@,
                i,
            ) && before.layers@[i].surface == s && forall|p: int|
                0 <= p < o ==> unclaimed(
                    before,
                    after.on_demand_layer,
                    (#[trigger] before.space.entries@[p]).0@,
                ),
        !(after.keyboard_focus is Layer) ==> {
            &&& forall|p: int|
                0 <= p < before.space.entries@.len() ==> unclaimed(
                    before,
                    after.on_demand_layer,
                    (#[trigger] before.space.entries@[p]).0@,
                )
            &&& after.keyboard_focus == if before.windows@.contains_key(
                before.focused_surface_id,
            ) {
                FocusTarget::Window(before.focused_surface_id)
            } else {
                FocusTarget::Nobody
            }
        },
{
    let clean = on_demand_cleaned(before);
    let c = after.on_demand_layer;
    let n = clean.space.entries@.len() as int;
    let r = lemma_claims(clean, n);
    lemma_same_claims(clean, before, c, before.space.entries@[r.0].0@, r.1);
    assert forall|p: int| 0 <= p < n && unclaimed(
        clean,
        c,
        (#[trigger] before.space.entries@[p]).0@,
    ) implies unclaimed(before, c, before.space.entries@[p].0@) by {
        lemma_same_claims(clean, before, c, before.space.entries@[p].0@, 0);
    }
}

/// A layer surface that was clicked and takes focus on demand has the keyboard after a sync,
/// whatever window is focused, if it stands on a mapped output and no layer surface on Overlay or
/// Top of a mapped output is exclusive. (While no window is focused, an exclusive one on Bottom or
/// Background of an earlier output is asked first.)
pub proof fn law_clicked_layer_surface_gets_the_keyboard(before: Ewm, after: Ewm, i: int, o: int)
    requires
        before.keyboard_focus_dirty,
        before.lock_state is Unlocked,
        focus_synced(before, after),
        0 <= i < before.layers@.len(),
        0 <= o < before.space.entries@.len(),
        before.on_demand_layer == Some(before.layers@[i].surface),
        before.layers@[i].interactivity == KeyboardInteractivity::OnDemand,
        before.layers@[i].output@ == before.space.entries@[o].0@,
        forall|j: int, p: int|
            0 <= j < before.layers@.len() && 0 <= p < before.space.entries@.len() && (
            #[trigger] before.layers@[j]).output@ == (#[trigger] before.space.entries@[p]).0@
                && before.layers@[j].interactivity == KeyboardInteractivity::Exclusive ==> {
                &&& before.layers@[j].layer == Layer::Bottom || before.layers@[j].layer
                    == Layer::Background
                &&& p < o ==> before.focused_surface_id != 0 && before.windows@.contains_key(
                    before.focused_surface_id,
                )
            },
    ensures
        after.keyboard_focus == FocusTarget::Layer(before.layers@[i].surface),
{
    law_strongest_claim_gets_the_keyboard(before, after);
    let ls = before.layers@;
    let outs = before.space.entries@;
    let c = after.on_demand_layer;
    assert(c == before.on_demand_layer) by {
        assert(ls[i].surface == before.on_demand_layer->0);
    }
    assert(claim(before, c, ls[i]) == 2);
    if after.keyboard_focus is Layer {
        let s = after.keyboard_focus->Layer_0;
        let (q, k) = choose|q: int, k: int|
            0 <= q < outs.len() && #[trigger] strongest_on(before, c, outs[q].0@, k)
                && ls[k].surface == s && forall|p: int|
                0 <= p < q ==> unclaimed(before, c, (#[trigger] outs[p]).0@);
        if q > o {
            assert(unclaimed(before, c, outs[o].0@));
        } else if q == o {
            assert(claim(before, c, ls[k]) <= claim(before, c, ls[i]));
            assert(ls[k].output@ == outs[q].0@);
        } else {
            assert(ls[k].output@ == outs[q].0@);
        }
    } else {
        assert(unclaimed(before, c, outs[o].0@));
    }
}

/// While the session is locked the keyboard goes to the lock surface of the output under the
/// pointer, else to that of the first output, and to nobody if that output has none.
pub proof fn law_locked_keyboard_goes_to_the_lock_surface(before: Ewm, after: Ewm, k: int)
    requires
        before.wf(),
        before.keyboard_focus_dirty,
        !(before.lock_state is Unlocked),
        focus_synced(before, after),
    ensures
        0 <= k < before.space.entries@.len() && before.space.entries@[k].1.geo.has_point(
            before.pointer,
        ) && (forall|j: int|
            0 <= j < k ==> !(#[trigger] before.space.entries@[j]).1.geo.has_point(before.pointer))
            && before.output_state@.contains_key(before.space.entries@[k].0@)
            ==> after.keyboard_focus == match before.output_state@[before.space.entries@[k].0@].lock_surface {
            Some(s) => FocusTarget::Lock(s),
            None => FocusTarget::Nobody,
        },
        (forall|j: int|
            0 <= j < before.space.entries@.len() ==> !(
            #[trigger] before.space.entries@[j]).1.geo.has_point(before.pointer))
            ==> after.keyboard_focus == if before.output_state.entries@.len() == 0 {
            FocusTarget::Nobody
        } else {
            match before.output_state.entries@[0].1.lock_surface {
                Some(s) => FocusTarget::Lock(s),
                None => FocusTarget::Nobody,
            }
        },
{
    let s = before.space.entries@;
    law_output_at_a_point(s, before.pointer, k);
    if before.output_state.entries@.len() > 0 {
        before.output_state.lemma_entry(0);
    }
}

/// A sync tells the seat exactly if the keyboard moves, and changes nothing but the focus.
pub proof fn law_sync_tells_of_a_move(before: Ewm, after: Ewm)
    requires
        focus_synced(before, after),
    ensures
        !after.keyboard_focus_dirty,
        !before.keyboard_focus_dirty ==> after == before,
        after.keyboard_focus == before.keyboard_focus ==> after.effects@ == before.effects@,
        after.keyboard_focus != before.keyboard_focus ==> after.effects@ == before.effects@.push(
            Effect::SetKeyboardFocus { target: after.keyboard_focus },
        ),
        after.focused_surface_id == before.focused_surface_id,
        after.lock_state == before.lock_state,
        after.windows == before.windows,
        after.layers == before.layers,
{
}

/// The output that holds a point is the first mapped one that does; where none does, the first of
/// all stands for the point.
pub proof fn law_output_at_a_point(s: Seq<(String, MappedOutput)>, p: Point, k: int)
    ensures
        0 <= k < s.len() && s[k].1.geo.has_point(p) && (forall|j: int|
            0 <= j < k ==> !(#[trigger] s[j]).1.geo.has_point(p)) ==> output_containing(s, p)
            == Some(s[k].0@) && output_for_point(s, p) == Some(s[k].0@),
        (forall|j: int| 0 <= j < s.len() ==> !(#[trigger] s[j]).1.geo.has_point(p))
            ==> output_containing(s, p) is None,
        (forall|j: int| 0 <= j < s.len() ==> !(#[trigger] s[j]).1.geo.has_point(p)) && s.len() > 0
            ==> output_for_point(s, p) == Some(s[0].0@),
        s.len() == 0 ==> output_for_point(s, p) is None,
{
    if 0 <= k < s.len() && s[k].1.geo.has_point(p) && (forall|j: int|
        0 <= j < k ==> !(#[trigger] s[j]).1.geo.has_point(p)) {
        assert(first_containing(s, p, k));
        let q = choose|q: int| first_containing(s, p, q);
        assert(first_containing(s, p, q));
        assert(q == k);
    }
    if forall|j: int| 0 <= j < s.len() ==> !(#[trigger] s[j]).1.geo.has_point(p) {
        if exists|q: int| first_containing(s, p, q) {
            let q = choose|q: int| first_containing(s, p, q);
            assert(s[q].1.geo.has_point(p));
        }
    }
}

/// New surfaces go to the output under the pointer; where there is none, to that of the focused
/// surface; where there is none either, to the first.
pub proof fn law_new_surfaces_go_where_the_pointer_is(e: Ewm, k: int)
    ensures
        0 <= k < e.space.entries@.len() && e.space.entries@[k].1.geo.has_point(e.pointer) && (
        forall|j: int|
            0 <= j < k ==> !(#[trigger] e.space.entries@[j]).1.geo.has_point(e.pointer))
            ==> preferred_output(e) == Some(e.space.entries@[k].0@),
        (forall|j: int|
            0 <= j < e.space.entries@.len() ==> !(#[trigger] e.space.entries@[j]).1.geo.has_point(
                e.pointer,
            )) ==> {
            let of_focused = if e.focused_surface_id == 0 {
                None
            } else {
                surface_output(e, e.focused_surface_id)
            };
            &&& of_focused is Some ==> preferred_output(e) == of_focused
            &&& of_focused is None && e.space.entries@.len() > 0 ==> preferred_output(e) == Some(
                e.space.entries@[0].0@,
            )
            &&& of_focused is None && e.space.entries@.len() == 0 ==> preferred_output(e) is None
        },
{
    law_output_at_a_point(e.space.entries@, e.pointer, k);
}

/// The entry `k` of the output `p` is a view of the surface.
pub open spec fn is_view(e: Ewm, id: u64, p: int, k: int) -> bool {
    let outs = e.layouts.outputs.entries@;
    0 <= p < outs.len() && 0 <= k < outs[p].1@.len() && outs[p].1@[k].id == id
}

/// A surface with a selected view belongs to the output of the first such view, if that output is
/// mapped, and to none otherwise.
pub proof fn law_surface_belongs_to_its_selected_view(e: Ewm, id: u64, o: int, j: int)
    requires
        e.wf(),
        is_view(e, id, o, j),
        e.layouts.outputs.entries@[o].1@[j].focused,
        forall|p: int, k: int| #[trigger]
            is_view(e, id, p, k) && e.layouts.outputs.entries@[p].1@[k].focused ==> o < p || (o == p
                && j <= k),
    ensures
        surface_output(e, id) == if e.space@.contains_key(e.layouts.outputs.entries@[o].0@) {
            Some(e.layouts.outputs.entries@[o].0@)
        } else {
            None
        },
{
    lemma_shown(e, id);
    let outs = e.layouts.outputs.entries@;
    let kind = EntryKind::Focused;
    assert(outs[o].1@[j].id == id);
    assert(slot(outs, o, j));
    assert forall|p: int, k: int| #[trigger]
        slot(outs, p, k) && stands_before(p, k, o, j) implies !entry_is(outs[p].1@[k], id, kind) by {
        if entry_is(outs[p].1@[k], id, kind) {
            assert(is_view(e, id, p, k));
        }
    }
    assert(is_first_entry(outs, id, kind, o, j));
    let (p, k) = choose|p: int, k: int| is_first_entry(outs, id, kind, p, k);
    assert(is_first_entry(outs, id, kind, p, k));
    if stands_before(p, k, o, j) {
        assert(slot(outs, p, k));
    }
    if stands_before(o, j, p, k) {
        assert(slot(outs, o, j));
    }
}

/// A surface with views belongs to a mapped output whose layout shows it, or to none.
pub proof fn law_surface_belongs_where_it_is_shown(e: Ewm, id: u64)
    requires
        e.wf(),
        e.layouts.surface_outputs.shown(id),
        surface_output(e, id) is Some,
    ensures
        e.space@.contains_key(surface_output(e, id)->0),
        e.layouts.outputs@.contains_key(surface_output(e, id)->0),
        crate::layout::lists(e.layouts.outputs@[surface_output(e, id)->0]@, id),
{
    let outs = e.layouts.outputs.entries@;
    let kind = EntryKind::Focused;
    let n = surface_output(e, id)->0;
    if exists|p: int, k: int| is_first_entry(outs, id, kind, p, k) {
        let (p, k) = choose|p: int, k: int| is_first_entry(outs, id, kind, p, k);
        e.layouts.outputs.lemma_entry(p);
        assert(e.layouts.outputs@[n]@[k].id == id);
    } else {
        lemma_first_shown(e.layouts.surface_outputs.pairs@, id);
        assert(e.layouts.surface_outputs.has(id, n));
        assert(e.layouts.shows(id, n));
    }
}

/// A window that no layout shows belongs to the output that holds its place.
pub proof fn law_unlisted_window_belongs_to_its_place(e: Ewm, id: u64)
    requires
        e.wf(),
        forall|p: int, k: int| !#[trigger] is_view(e, id, p, k),
    ensures
        e.windows@.contains_key(id) && e.windows@[id].at is Some ==> surface_output(e, id)
            == output_containing(e.space.entries@, e.windows@[id].at->0),
        !(e.windows@.contains_key(id) && e.windows@[id].at is Some) ==> surface_output(
            e,
            id,
        ) is None,
{
    lemma_shown(e, id);
    let outs = e.layouts.outputs.entries@;
    if exists|p: int, k: int|
        0 <= p < outs.len() && 0 <= k < outs[p].1@.len() && (#[trigger] outs[p].1@[k]).id == id {
        let (p, k) = choose|p: int, k: int|
            0 <= p < outs.len() && 0 <= k < outs[p].1@.len() && (#[trigger] outs[p].1@[k]).id == id;
        assert(is_view(e, id, p, k));
    }
}

/// A surface is shown exactly if some layout has an entry of it.
proof fn lemma_shown(e: Ewm, id: u64)
    requires
        e.wf(),
    ensures
        ({
            let outs = e.layouts.outputs.entries@;
            e.layouts.surface_outputs.shown(id) <==> exists|p: int, k: int|
                0 <= p < outs.len() && 0 <= k < outs[p].1@.len() && (
                #[trigger] outs[p].1@[k]).id == id
        }),
{
    let outs = e.layouts.outputs.entries@;
    if e.layouts.surface_outputs.shown(id) {
        let n = choose|n: Seq<char>| e.layouts.surface_outputs.has(id, n);
        assert(e.layouts.shows(id, n));
        let p = e.layouts.outputs.position(n);
        e.layouts.outputs.lemma_entry(p);
        let k = choose|k: int|
            0 <= k < e.layouts.outputs@[n]@.len() && #[trigger] e.layouts.outputs@[n]@[k].id == id;
        assert(outs[p].1@[k].id == id);
    }
    if exists|p: int, k: int|
        0 <= p < outs.len() && 0 <= k < outs[p].1@.len() && (#[trigger] outs[p].1@[k]).id == id {
        let (p, k) = choose|p: int, k: int|
            0 <= p < outs.len() && 0 <= k < outs[p].1@.len() && (#[trigger] outs[p].1@[k]).id == id;
        e.layouts.outputs.lemma_entry(p);
        let n = outs[p].0@;
        assert(e.layouts.outputs@[n]@[k].id == id);
        assert(e.layouts.shows(id, n));
        assert(e.layouts.surface_outputs.has(id, n));
    }
}

proof fn lemma_first_shown(pairs: Seq<(u64, String)>, id: u64)
    ensures
        match first_shown_on(pairs, id) {
            Some(n) => exists|i: int|
                0 <= i < pairs.len() && (#[trigger] pairs[i]).0 == id && pairs[i].1@ == n,
            None => forall|i: int| 0 <= i < pairs.len() ==> (#[trigger] pairs[i]).0 != id,
        },
    decreases pairs.len(),
{
    if pairs.len() > 0 {
        let head = pairs.drop_last();
        lemma_first_shown(head, id);
        match first_shown_on(head, id) {
            Some(n) => {
                let i = choose|i: int|
                    0 <= i < head.len() && (#[trigger] head[i]).0 == id && head[i].1@ == n;
                assert(pairs[i] == head[i]);
            },
            None => {
                assert(pairs[pairs.len() - 1] == pairs.last());
                assert forall|i: int| 0 <= i < head.len() implies (#[trigger] pairs[i]).0
                    != id by {
                    assert(head[i] == pairs[i]);
                }
            },
        }
    }
}

/// The Emacs frame that stands in for the focused surface is the first that was made for its
/// output, else the first of all; without a focused output there is none.
pub proof fn law_frame_of_the_focused_output(e: Ewm, i: int)
    requires
        e.focused_surface_id != 0,
        surface_output(e, e.focused_surface_id) is Some,
    ensures
        ({
            let frames = e.emacs_surfaces.entries@;
            let out = surface_output(e, e.focused_surface_id)->0;
            &&& 0 <= i < frames.len() && frames[i].1@ == out && (forall|j: int|
                0 <= j < i ==> (#[trigger] frames[j]).1@ != out) ==> frame_on_focused_output(e)
                == Some(frames[i].0)
            &&& (forall|j: int| 0 <= j < frames.len() ==> (#[trigger] frames[j]).1@ != out)
                && frames.len() > 0 ==> frame_on_focused_output(e) == Some(frames[0].0)
            &&& frames.len() == 0 ==> frame_on_focused_output(e) is None
        }),
{
    lemma_frame_for(e.emacs_surfaces.entries@, surface_output(e, e.focused_surface_id)->0, i);
    assert(focused_output(e) == surface_output(e, e.focused_surface_id));
}

pub(crate) proof fn lemma_frame_for(frames: Seq<(u64, String)>, out: Seq<char>, i: int)
    ensures
        0 <= i < frames.len() && frames[i].1@ == out && (forall|j: int|
            0 <= j < i ==> (#[trigger] frames[j]).1@ != out) ==> frame_for(frames, out) == Some(
            frames[i].0,
        ),
        (forall|j: int| 0 <= j < frames.len() ==> (#[trigger] frames[j]).1@ != out) ==> frame_for(
            frames,
            out,
        ) is None,
    decreases frames.len(),
{
    if frames.len() > 0 {
        let head = frames.drop_last();
        lemma_frame_for(head, out, i);
        let n = frames.len() - 1;
        assert(frames[n] == frames.last());
        assert((forall|j: int| 0 <= j < n ==> (#[trigger] frames[j]).1@ != out) ==> frame_for(
            head,
            out,
        ) is None) by {
            if forall|j: int| 0 <= j < n ==> (#[trigger] frames[j]).1@ != out {
                assert forall|j: int| 0 <= j < head.len() implies (#[trigger] head[j]).1@
                    != out by {
                    assert(frames[j] == head[j]);
                }
            }
        }
        if 0 <= i < n {
            assert(head[i] == frames[i]);
            if forall|j: int| 0 <= j < i ==> (#[trigger] frames[j]).1@ != out {
                assert forall|j: int| 0 <= j < i implies (#[trigger] head[j]).1@ != out by {
                    assert(frames[j] == head[j]);
                }
            }
        }
    }
}

/// Without a focused surface, or an output that it belongs to, no frame stands in for it.
pub proof fn law_no_focus_no_frame(e: Ewm)
    requires
        e.focused_surface_id == 0 || surface_output(e, e.focused_surface_id) is None,
    ensures
        focused_output(e) is None,
        frame_on_focused_output(e) is None,
{
}

} // verus!
