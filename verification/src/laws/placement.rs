//! Where windows stand in the global space, and what is found at a point.
use crate::ewm::surfaces::{hits_of, topmost_at, window_hit, LayoutHit, PointerMapping};
use crate::geometry::{Point, Rect, Size};
use crate::layout::{
    before as stands_before, entry_covers, entry_found, entry_origin, is_first_entry, slot,
    window_position, EntryKind, LayoutEntry, Layouts, MappedOutput,
};
use vstd::prelude::*;

verus! {

/// A rectangle holds the points from its corner on, its right and bottom edges excluded. Where an
/// edge would lie beyond the largest coordinate, the largest coordinate is the edge.
pub proof fn law_rectangle_holds_its_points(r: Rect, p: Point)
    ensures
        r.loc.x + r.size.w <= i32::MAX && r.loc.y + r.size.h <= i32::MAX && r.size.w >= 0
            && r.size.h >= 0 ==> (r.has_point(p) <==> r.loc.x <= p.x < r.loc.x + r.size.w
            && r.loc.y <= p.y < r.loc.y + r.size.h),
        r.has_point(p) ==> r.loc.x <= p.x < r.loc.x + r.size.w && r.loc.y <= p.y < r.loc.y
            + r.size.h,
        r.loc.x + r.size.w > i32::MAX && r.loc.y + r.size.h > i32::MAX ==> (r.has_point(p) <==>
            r.loc.x <= p.x < i32::MAX && r.loc.y <= p.y < i32::MAX),
{
}

/// A rectangle that lies in another has all its points in it.
pub proof fn law_rectangle_inside_another(outer: Rect, inner: Rect, p: Point)
    requires
        outer.has_rect(inner),
        inner.has_point(p),
    ensures
        outer.has_point(p),
{
}

/// A view that is not fullscreen stands where the output, the free area's corner and the entry
/// put it together: moving any of them moves the window by just as much, and with all of them at
/// the origin it stands there.
pub proof fn law_windows_move_with_their_entry(
    e: LayoutEntry,
    moved: LayoutEntry,
    out: MappedOutput,
    other: MappedOutput,
    window: Size,
)
    requires
        !e.fullscreen,
        !moved.fullscreen,
    ensures
        ({
            let at = window_position(e, out, window);
            let then = window_position(moved, other, window);
            &&& then.0 - at.0 == (moved.x - e.x) + (other.zone.loc.x - out.zone.loc.x) + (
            other.geo.loc.x - out.geo.loc.x)
            &&& then.1 - at.1 == (moved.y - e.y) + (other.zone.loc.y - out.zone.loc.y) + (
            other.geo.loc.y - out.geo.loc.y)
            &&& e.x == 0 && out.zone.loc.x == 0 && out.geo.loc.x == 0 ==> at.0 == 0
            &&& e.y == 0 && out.zone.loc.y == 0 && out.geo.loc.y == 0 ==> at.1 == 0
        }),
{
}

/// A fullscreen view stands on its output whatever place its entry names and whatever the free
/// area is: at the output's corner, or centered with margins that differ by a pixel at most if it
/// is the primary view of a window smaller than the output.
pub proof fn law_fullscreen_windows_ignore_their_entry(
    e: LayoutEntry,
    out: MappedOutput,
    window: Size,
)
    requires
        e.fullscreen,
        0 <= window.w,
        0 <= window.h,
    ensures
        ({
            let (x, y) = window_position(e, out, window);
            let left = x - out.geo.loc.x;
            let right = out.geo.size.w - window.w - left;
            let top = y - out.geo.loc.y;
            let bottom = out.geo.size.h - window.h - top;
            &&& !e.primary ==> left == 0 && top == 0
            &&& e.primary && window.w <= out.geo.size.w ==> left <= right <= left + 1
            &&& e.primary && window.w > out.geo.size.w ==> left == 0
            &&& e.primary && window.h <= out.geo.size.h ==> top <= bottom <= top + 1
            &&& e.primary && window.h > out.geo.size.h ==> top == 0
        }),
{
}

/// A view that is not fullscreen covers just the points of the window-sized rectangle at its
/// place; a fullscreen one covers all.
pub proof fn law_views_cover_their_extent(e: LayoutEntry, out: MappedOutput, p: Point)
    ensures
        e.fullscreen ==> entry_covers(e, out, p),
        !e.fullscreen ==> (entry_covers(e, out, p) <==> 0 <= p.x - (out.geo.loc.x + out.zone.loc.x
            + e.x) < e.w && 0 <= p.y - (out.geo.loc.y + out.zone.loc.y + e.y) < e.h),
        entry_origin(e, out).0 == if e.fullscreen {
            out.geo.loc.x as int
        } else {
            out.geo.loc.x + out.zone.loc.x + e.x
        },
        entry_origin(e, out).1 == if e.fullscreen {
            out.geo.loc.y as int
        } else {
            out.geo.loc.y + out.zone.loc.y + e.y
        },
{
}

/// The view of `e` is tried as `h` says.
pub open spec fn tried_as(
    h: LayoutHit,
    e: LayoutEntry,
    out: MappedOutput,
    window: Size,
) -> bool {
    &&& h.id == e.id
    &&& e.fullscreen ==> h.x == out.geo.loc.x && h.y == out.geo.loc.y
    &&& !e.fullscreen ==> h.x == out.geo.loc.x + out.zone.loc.x + e.x && h.y == out.geo.loc.y
        + out.zone.loc.y + e.y
    &&& match h.mapping {
        PointerMapping::Direct => !e.fullscreen && (e.primary || e.w == 0 || e.h == 0),
        PointerMapping::Offset { x, y } => {
            &&& e.fullscreen && e.primary
            &&& window.w >= out.geo.size.w ==> x == 0
            &&& window.h >= out.geo.size.h ==> y == 0
            &&& window.w < out.geo.size.w ==> 2 * x <= out.geo.size.w - window.w <= 2 * x + 1
            &&& window.h < out.geo.size.h ==> 2 * y <= out.geo.size.h - window.h <= 2 * y + 1
        },
        PointerMapping::FillOutput { window: w, output } => e.fullscreen && !e.primary && w
            == window && output == out.geo.size,
        PointerMapping::FillEntry { window: w, width, height } => !e.fullscreen && !e.primary
            && e.w > 0 && e.h > 0 && w == window && width == e.w && height == e.h,
    }
}

/// The views are tried from the topmost down: each one is that of an entry, in the entries' order,
/// whose window exists; nothing below a fullscreen one is tried, and nothing else is left out.
pub proof fn law_views_are_tried_in_order(
    entries: Seq<LayoutEntry>,
    out: MappedOutput,
    sizes: Map<u64, Size>,
)
    requires
        forall|id: u64| #[trigger]
            sizes.contains_key(id) ==> sizes[id].w >= 0 && sizes[id].h >= 0,
    ensures
        exists|at: Seq<int>|
            {
                let hits = hits_of(entries, out, sizes);
                &&& #[trigger] at.len() == hits.len()
                &&& forall|k: int, m: int| 0 <= k < m < at.len() ==> at[k] < at[m]
                &&& forall|k: int|
                    0 <= k < at.len() ==> 0 <= #[trigger] at[k] < entries.len()
                        && sizes.contains_key(entries[at[k]].id) && tried_as(
                        hits[k],
                        entries[at[k]],
                        out,
                        sizes[entries[at[k]].id],
                    )
                &&& forall|j: int|
                    0 <= j < entries.len() ==> (at.contains(j) <==> sizes.contains_key(
                        (#[trigger] entries[j]).id,
                    ) && forall|i: int|
                        0 <= i < j ==> !((#[trigger] entries[i]).fullscreen && sizes.contains_key(
                            entries[i].id,
                        )))
            },
{
    let at = tried(entries, sizes);
    lemma_tried(entries, out, sizes);
    assert(at.len() == hits_of(entries, out, sizes).len());
}

/// The places of the entries whose views are tried.
spec fn tried(entries: Seq<LayoutEntry>, sizes: Map<u64, Size>) -> Seq<int>
    decreases entries.len(),
{
    if entries.len() == 0 {
        Seq::empty()
    } else {
        let rest = tried(entries.skip(1), sizes).map_values(|i: int| i + 1);
        if !sizes.contains_key(entries[0].id) {
            rest
        } else if entries[0].fullscreen {
            seq![0int]
        } else {
            seq![0int] + rest
        }
    }
}

proof fn lemma_tried(entries: Seq<LayoutEntry>, out: MappedOutput, sizes: Map<u64, Size>)
    requires
        forall|id: u64| #[trigger]
            sizes.contains_key(id) ==> sizes[id].w >= 0 && sizes[id].h >= 0,
    ensures
        tried(entries, sizes).len() == hits_of(entries, out, sizes).len(),
        forall|k: int, m: int|
            0 <= k < m < tried(entries, sizes).len() ==> tried(entries, sizes)[k] < tried(
                entries,
                sizes,
            )[m],
        forall|k: int|
            0 <= k < tried(entries, sizes).len() ==> 0 <= #[trigger] tried(entries, sizes)[k]
                < entries.len() && sizes.contains_key(entries[tried(entries, sizes)[k]].id)
                && tried_as(
                hits_of(entries, out, sizes)[k],
                entries[tried(entries, sizes)[k]],
                out,
                sizes[entries[tried(entries, sizes)[k]].id],
            ),
        forall|j: int|
            0 <= j < entries.len() ==> (tried(entries, sizes).contains(j) <==> sizes.contains_key(
                (#[trigger] entries[j]).id,
            ) && forall|i: int|
                0 <= i < j ==> !((#[trigger] entries[i]).fullscreen && sizes.contains_key(
                    entries[i].id,
                ))),
    decreases entries.len(),
{
    if entries.len() > 0 {
        let tail = entries.skip(1);
        lemma_tried(tail, out, sizes);
        let sub = tried(tail, sizes);
        let rest = sub.map_values(|i: int| i + 1);
        let at = tried(entries, sizes);
        let hits = hits_of(entries, out, sizes);
        let off: int = if sizes.contains_key(entries[0].id) {
            1
        } else {
            0
        };
        let cut = sizes.contains_key(entries[0].id) && entries[0].fullscreen;
        assert forall|k: int| 0 <= k < at.len() implies 0 <= #[trigger] at[k] < entries.len()
            && sizes.contains_key(entries[at[k]].id) && tried_as(
            hits[k],
            entries[at[k]],
            out,
            sizes[entries[at[k]].id],
        ) by {
            if k >= off {
                assert(at[k] == sub[k - off] + 1);
                assert(tail[sub[k - off]] == entries[at[k]]);
                assert(hits[k] == hits_of(tail, out, sizes)[k - off]);
            }
        }
        assert forall|k: int, m: int| 0 <= k < m < at.len() implies at[k] < at[m] by {
            assert(at[m] == sub[m - off] + 1);
            if k >= off {
                assert(at[k] == sub[k - off] + 1);
            }
        }
        assert forall|j: int| 0 <= j < entries.len() implies (at.contains(j)
            <==> sizes.contains_key((#[trigger] entries[j]).id) && forall|i: int|
            0 <= i < j ==> !((#[trigger] entries[i]).fullscreen && sizes.contains_key(
                entries[i].id,
            ))) by {
            if j == 0 {
                if off == 1 {
                    assert(at[0] == 0);
                }
                if at.contains(0) {
                    let k = choose|k: int| 0 <= k < at.len() && at[k] == 0;
                    if off == 0 {
                        assert(at[k] == sub[k] + 1);
                        assert(0 <= sub[k]);
                    }
                }
            } else {
                assert(tail[j - 1] == entries[j]);
                assert((forall|i: int|
                    0 <= i < j ==> !((#[trigger] entries[i]).fullscreen && sizes.contains_key(
                        entries[i].id,
                    ))) ==> forall|i: int|
                    0 <= i < j - 1 ==> !((#[trigger] tail[i]).fullscreen && sizes.contains_key(
                        tail[i].id,
                    ))) by {
                    assert forall|i: int| 0 <= i < j - 1 implies #[trigger] tail[i]
                        == entries[i + 1] by {}
                }
                if !cut && (forall|i: int|
                    0 <= i < j - 1 ==> !((#[trigger] tail[i]).fullscreen && sizes.contains_key(
                        tail[i].id,
                    ))) {
                    assert forall|i: int| 0 <= i < j implies !((#[trigger] entries[i]).fullscreen
                        && sizes.contains_key(entries[i].id)) by {
                        if i > 0 {
                            assert(tail[i - 1] == entries[i]);
                        }
                    }
                }
                if at.contains(j) {
                    let k = choose|k: int| 0 <= k < at.len() && at[k] == j;
                    assert(k >= off);
                    assert(sub[k - off] == j - 1);
                    assert(sub.contains(j - 1));
                }
                if !cut && sub.contains(j - 1) {
                    let k = choose|k: int| 0 <= k < sub.len() && sub[k] == j - 1;
                    assert(at[k + off] == j);
                }
                if cut {
                    assert(entries[0].fullscreen);
                }
            }
        }
    }
}

/// Each view that is tried stands where its entry puts it.
pub(crate) proof fn lemma_views(
    entries: Seq<LayoutEntry>,
    out: MappedOutput,
    sizes: Map<u64, Size>,
)
    requires
        forall|id: u64| #[trigger]
            sizes.contains_key(id) ==> sizes[id].w >= 0 && sizes[id].h >= 0,
    ensures
        forall|k: int|
            0 <= k < hits_of(entries, out, sizes).len() ==> exists|j: int|
                0 <= j < entries.len() && k <= j && (#[trigger] entries[j]).id == (
                #[trigger] hits_of(entries, out, sizes)[k]).id && (if entries[j].fullscreen {
                    hits_of(entries, out, sizes)[k].x == out.geo.loc.x && hits_of(
                        entries,
                        out,
                        sizes,
                    )[k].y == out.geo.loc.y
                } else {
                    hits_of(entries, out, sizes)[k].x == out.geo.loc.x + out.zone.loc.x
                        + entries[j].x && hits_of(entries, out, sizes)[k].y == out.geo.loc.y
                        + out.zone.loc.y + entries[j].y
                }),
{
    lemma_tried(entries, out, sizes);
    let at = tried(entries, sizes);
    let hits = hits_of(entries, out, sizes);
    assert forall|k: int| 0 <= k < hits.len() implies exists|j: int|
        0 <= j < entries.len() && k <= j && (#[trigger] entries[j]).id == (#[trigger] hits[k]).id
            && (if entries[j].fullscreen {
            hits[k].x == out.geo.loc.x && hits[k].y == out.geo.loc.y
        } else {
            hits[k].x == out.geo.loc.x + out.zone.loc.x + entries[j].x && hits[k].y
                == out.geo.loc.y + out.zone.loc.y + entries[j].y
        }) by {
        lemma_climbs(at, k);
        assert(tried_as(hits[k], entries[at[k]], out, sizes[entries[at[k]].id]));
    }
}

/// Increasing numbers that start at zero or more are not less than their places.
proof fn lemma_climbs(at: Seq<int>, k: int)
    requires
        0 <= k < at.len(),
        forall|k: int, m: int| 0 <= k < m < at.len() ==> at[k] < at[m],
        forall|k: int| 0 <= k < at.len() ==> 0 <= #[trigger] at[k],
    ensures
        k <= at[k],
    decreases k,
{
    if k > 0 {
        lemma_climbs(at, k - 1);
    }
}

/// The window at a point is that of the first entry whose view covers the point: every entry where
/// it is fullscreen, else within its own rectangle. There is none only if no view covers it.
pub proof fn law_topmost_view_is_hit(
    entries: Seq<LayoutEntry>,
    out: MappedOutput,
    p: Point,
    r: Option<u64>,
    j: int,
)
    requires
        window_hit(entries, out, p, r),
    ensures
        0 <= j < entries.len() && covers(entries[j], out, p) && (forall|k: int|
            0 <= k < j ==> !covers(#[trigger] entries[k], out, p)) ==> r == Some(entries[j].id),
        (forall|k: int| 0 <= k < entries.len() ==> !covers(#[trigger] entries[k], out, p))
            ==> r is None,
{
    assert forall|k: int| 0 <= k < entries.len() implies covers(#[trigger] entries[k], out, p)
        == entry_covers(entries[k], out, p) by {}
    if 0 <= j < entries.len() && covers(entries[j], out, p) && (forall|k: int|
        0 <= k < j ==> !covers(#[trigger] entries[k], out, p)) {
        assert(topmost_at(entries, out, p, j));
        if r is Some {
            let q = choose|q: int| #[trigger]
                topmost_at(entries, out, p, q) && entries[q].id == r->0;
            assert(covers(entries[q], out, p));
            assert(q == j);
        }
    }
    if r is Some {
        let q = choose|q: int| #[trigger] topmost_at(entries, out, p, q) && entries[q].id == r->0;
        assert(covers(entries[q], out, p));
    }
}

/// The view of the entry covers the point.
pub open spec fn covers(e: LayoutEntry, out: MappedOutput, p: Point) -> bool {
    e.fullscreen || (0 <= p.x - out.geo.loc.x - out.zone.loc.x - e.x < e.w && 0 <= p.y
        - out.geo.loc.y - out.zone.loc.y - e.y < e.h)
}

/// Looking for the selected or the primary view of a surface finds the first one, output by output,
/// and nothing only if there is none.
pub proof fn law_views_are_found(
    outs: Seq<(String, Vec<LayoutEntry>)>,
    id: u64,
    kind: EntryKind,
    r: Option<(String, LayoutEntry)>,
    o: int,
    j: int,
)
    requires
        entry_found(outs, id, kind, r),
    ensures
        slot(outs, o, j) && is_kind(outs[o].1@[j], id, kind) && (forall|p: int, k: int| #[trigger]
            slot(outs, p, k) && is_kind(outs[p].1@[k], id, kind) ==> o < p || (o == p && j <= k))
            ==> r == Some((outs[o].0, outs[o].1@[j])),
        (forall|p: int, k: int| #[trigger]
            slot(outs, p, k) ==> !is_kind(outs[p].1@[k], id, kind)) ==> r is None,
        slot(outs, o, j) <==> 0 <= o < outs.len() && 0 <= j < outs[o].1@.len(),
{
    if r is Some {
        let (p, k) = choose|p: int, k: int| #[trigger]
            is_first_entry(outs, id, kind, p, k) && (r->0).0 == outs[p].0 && (r->0).1
                == outs[p].1@[k];
        assert(slot(outs, p, k));
        assert(is_kind(outs[p].1@[k], id, kind));
        if slot(outs, o, j) && is_kind(outs[o].1@[j], id, kind) && (forall|p: int, k: int|
            #[trigger] slot(outs, p, k) && is_kind(outs[p].1@[k], id, kind) ==> o < p || (o == p
                && j <= k)) {
            if stands_before(o, j, p, k) {
                assert(!crate::layout::entry_is(outs[o].1@[j], id, kind));
            }
            assert(o == p && j == k);
        }
    } else if slot(outs, o, j) {
        assert(!crate::layout::entry_is(outs[o].1@[j], id, kind));
    }
}

/// The entry is of the surface and is selected, or primary, as asked for.
pub open spec fn is_kind(e: LayoutEntry, id: u64, kind: EntryKind) -> bool {
    &&& e.id == id
    &&& kind is Focused ==> e.focused
    &&& kind is Primary ==> e.primary
}

/// Windows are drawn above the Top layer of an output exactly while some entry of its layout is
/// fullscreen.
pub proof fn law_fullscreen_rises_above_panels(l: Layouts, name: Seq<char>)
    ensures
        l.has_fullscreen(name) <==> l.outputs@.contains_key(name) && exists|j: int|
            0 <= j < l.outputs@[name]@.len() && (#[trigger] l.outputs@[name]@[j]).fullscreen,
{
}

} // verus!
