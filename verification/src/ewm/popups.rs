//! Where popups may go.
use super::focus::{
    first_shown_on, focused_view_output, name_view, output_containing,
};
use super::Ewm;
use crate::geometry::{Point, Rect, Size};
use crate::layout::{
    entry_found, is_first_entry, slot, EntryKind, LayoutEntry, Layouts, MappedOutput,
};
use vstd::prelude::*;

verus! {

/// The space that is left free around a popup where there is room.
pub const PADDING: i32 = 8;

/// `len` with padding on both sides taken off, where it is long enough.
pub open spec fn padded_axis(loc: int, len: int) -> (int, int) {
    if 2 * PADDING < len {
        (loc + PADDING, len - 2 * PADDING)
    } else {
        (loc, len)
    }
}

/// The target with padding taken off on each axis that is long enough.
pub fn padded_target(target: Rect) -> (r: Rect)
    requires
        2 * PADDING < target.size.w ==> target.loc.x + PADDING <= i32::MAX,
        2 * PADDING < target.size.h ==> target.loc.y + PADDING <= i32::MAX,
    ensures
        r == padded(target),
{
    let mut r = target;
    if PADDING * 2 < r.size.w {
        r.loc.x = r.loc.x + PADDING;
        r.size.w = r.size.w - PADDING * 2;
    }
    if PADDING * 2 < r.size.h {
        r.loc.y = r.loc.y + PADDING;
        r.size.h = r.size.h - PADDING * 2;
    }
    r
}

/// The target with padding taken off.
pub open spec fn padded(target: Rect) -> Rect {
    let x = padded_axis(target.loc.x as int, target.size.w as int);
    let y = padded_axis(target.loc.y as int, target.size.h as int);
    Rect {
        loc: Point { x: x.0 as i32, y: y.0 as i32 },
        size: Size { w: x.1 as i32, h: y.1 as i32 },
    }
}

/// Edges of a rectangle: of an anchor, or of a direction.
#[derive(Clone, Copy, Debug, PartialEq, Eq, Structural)]
pub enum Edges {
    Neither,
    Top,
    Bottom,
    Left,
    Right,
    TopLeft,
    BottomLeft,
    TopRight,
    BottomRight,
}

/// What may be done to a popup that does not fit.
#[derive(Clone, Copy, Debug, PartialEq, Eq, Structural)]
pub struct Adjustments {
    pub slide_x: bool,
    pub slide_y: bool,
    pub flip_x: bool,
    pub flip_y: bool,
    pub resize_x: bool,
    pub resize_y: bool,
}

/// How a client wants its popup to be placed.
#[derive(Clone, Copy, Debug, PartialEq, Eq, Structural)]
pub struct Positioner {
    /// The size of the popup.
    pub size: Size,
    /// The rectangle in its parent that it is placed at.
    pub anchor_rect: Rect,
    pub anchor: Edges,
    pub gravity: Edges,
    pub adjustments: Adjustments,
    pub offset: Point,
}

/// The positioner without leave to resize the popup.
pub open spec fn without_resize(p: Positioner) -> Positioner {
    Positioner {
        adjustments: Adjustments { resize_x: false, resize_y: false, ..p.adjustments },
        ..p
    }
}

/// `r` is where a popup goes: within the padded target without resizing if that fits, else within
/// the target. `place` finds the place within a target.
pub open spec fn placed_with_padding<F: Fn(Positioner, Rect) -> Rect>(
    place: F,
    p: Positioner,
    target: Rect,
    r: Rect,
) -> bool {
    if padded(target) == target {
        call_ensures(place, (p, target), r)
    } else {
        exists|g: Rect| #[trigger]
            call_ensures(place, (without_resize(p), padded(target)), g) && if padded(
                target,
            ).has_rect(g) {
                r == g
            } else {
                call_ensures(place, (p, target), r)
            }
    }
}

/// Unconstrain a popup with 8px padding, falling back to no padding if it
/// doesn't fit. `place` finds the popup's place within a target as the protocol has it.
pub fn unconstrain_with_padding<F: Fn(Positioner, Rect) -> Rect>(
    positioner: &Positioner,
    target: Rect,
    place: &F,
) -> (r: Rect)
    requires
        2 * PADDING < target.size.w ==> target.loc.x + PADDING <= i32::MAX,
        2 * PADDING < target.size.h ==> target.loc.y + PADDING <= i32::MAX,
        call_requires(*place, (*positioner, target)),
        call_requires(*place, (without_resize(*positioner), padded(target))),
    ensures
        placed_with_padding(*place, *positioner, target, r),
{
    let within = padded_target(target);
    if within == target {
        return place(*positioner, target);
    }
    // Try padded without resize adjustments first.
    let mut no_resize = *positioner;
    no_resize.adjustments.resize_x = false;
    no_resize.adjustments.resize_y = false;
    let geo = place(no_resize, within);
    if within.contains_rect(geo) {
        return geo;
    }
    // Padded didn't fit: fall back to the full target.
    place(*positioner, target)
}

/// The selected view of the surface, else the largest.
pub open spec fn popup_entry(l: Layouts, id: u64, x: Option<(String, LayoutEntry)>) -> bool {
    let outs = l.outputs.entries@;
    if entry_found(outs, id, EntryKind::Focused, None) {
        entry_found(outs, id, EntryKind::Primary, x)
    } else {
        x is Some && entry_found(outs, id, EntryKind::Focused, x)
    }
}

/// The room for a popup of a window with this entry: the whole output where it is fullscreen,
/// else as wide as the entry and as high as the output.
pub open spec fn popup_room(e: LayoutEntry, out: MappedOutput) -> Rect {
    if e.fullscreen {
        Rect { loc: Point { x: 0, y: 0 }, size: out.geo.size }
    } else {
        Rect {
            loc: Point { x: 0, y: (-e.y) as i32 },
            size: Size { w: e.w as i32, h: out.geo.size.h },
        }
    }
}

/// `r` is the room for popups of the surface: by its selected view, else its largest. There is
/// none without such a view on a mapped output.
pub open spec fn has_popup_room(e: Ewm, id: u64, r: Option<Rect>) -> bool {
    exists|x: Option<(String, LayoutEntry)>|
        {
            &&& #[trigger] popup_entry(e.layouts, id, x)
            &&& r == match x {
                Some((name, entry)) => if e.space@.contains_key(name@) {
                    Some(popup_room(entry, e.space@[name@]))
                } else {
                    None
                },
                None => None,
            }
        }
}

/// The rectangle, moved back by a distance.
pub open spec fn moved_by(r: Rect, d: Point) -> Rect {
    Rect {
        loc: Point { x: (r.loc.x - d.x) as i32, y: (r.loc.y - d.y) as i32 },
        size: r.size,
    }
}

/// The vertical places of a surface's entries can be negated.
pub open spec fn places_negatable(l: Layouts, id: u64) -> bool {
    forall|o: int, j: int| #[trigger]
        slot(l.outputs.entries@, o, j) && l.outputs.entries@[o].1@[j].id == id
            ==> l.outputs.entries@[o].1@[j].y > i32::MIN
}

/// The output of a popup's window: as that of a surface, but a frame without a place counts as
/// being at the origin.
pub open spec fn window_popup_output(e: Ewm, id: u64) -> Option<Seq<char>> {
    let n = if focused_view_output(e.layouts, id) is Some {
        focused_view_output(e.layouts, id)
    } else {
        first_shown_on(e.layouts.surface_outputs.pairs@, id)
    };
    if n is Some {
        if e.space@.contains_key(n->0) {
            n
        } else {
            None
        }
    } else {
        output_containing(
            e.space.entries@,
            if e.windows@[id].at is Some {
                e.windows@[id].at->0
            } else {
                Point { x: 0, y: 0 }
            },
        )
    }
}

impl Ewm {
    /// Compute the available rectangle for a popup in geometry-local coordinates.
    ///
    /// Derived from the layout entry position, so centering offsets do not affect the result.
    /// Fullscreen: full output. Normal: entry width × output height (horizontally
    /// constrained to the entry, vertically to the full output).
    pub fn popup_target_rect(&self, id: u64) -> (r: Option<Rect>)
        requires
            self.wf(),
            places_negatable(self.layouts, id),
        ensures
            has_popup_room(*self, id, r),
            r matches Some(room) ==> room.loc.x == 0 && (room.loc.y == 0 || exists|o: int, j: int|
                #[trigger] slot(self.layouts.outputs.entries@, o, j)
                    && self.layouts.outputs.entries@[o].1@[j].id == id && room.loc.y == 0
                    - self.layouts.outputs.entries@[o].1@[j].y),
    {
        let ghost outs = self.layouts.outputs.entries@;
        let focused = self.layouts.focused_output_for_surface(id);
        proof {
            if focused is Some {
                let (o, j) = choose|o: int, j: int|
                    is_first_entry(outs, id, EntryKind::Focused, o, j);
                assert(slot(outs, o, j));
                assert(!entry_found(outs, id, EntryKind::Focused, None));
            }
        }
        let found = match focused {
            Some(f) => Some(f),
            None => self.layouts.primary_output_for_surface(id),
        };
        assert(popup_entry(self.layouts, id, found));
        match found {
            Some((name, entry)) => {
                proof {
                    let kind = if focused is Some {
                        EntryKind::Focused
                    } else {
                        EntryKind::Primary
                    };
                    assert(entry_found(outs, id, kind, Some((name, entry))));
                    let (o, j) = choose|o: int, j: int|
                        is_first_entry(outs, id, kind, o, j) && name == outs[o].0 && entry
                            == outs[o].1@[j];
                    assert(slot(outs, o, j));
                }
                match self.space.get(name.as_str()) {
                    Some(m) => {
                        if entry.fullscreen {
                            Some(Rect { loc: Point { x: 0, y: 0 }, size: m.geo.size })
                        } else {
                            Some(
                                Rect {
                                    loc: Point { x: 0, y: -entry.y },
                                    size: Size {
                                        w: #[verifier::truncate]
                                        (entry.w as i32),
                                        h: m.geo.size.h,
                                    },
                                },
                            )
                        }
                    },
                    None => None,
                }
            },
            None => None,
        }
    }

    /// The room for a popup of a window, moved by the popup's parents. A window without a view has
    /// the area of all outputs.
    pub fn window_popup_target(&self, id: u64, parents: Point) -> (r: Rect)
        requires
            self.wf(),
            places_negatable(self.layouts, id),
            parents.x > i32::MIN,
            parents.y > i32::MIN,
            forall|o: int, j: int| #[trigger]
                slot(self.layouts.outputs.entries@, o, j)
                    && self.layouts.outputs.entries@[o].1@[j].id == id ==> i32::MIN <= 0
                    - self.layouts.outputs.entries@[o].1@[j].y - parents.y <= i32::MAX,
        ensures
            exists|room: Option<Rect>|
                {
                    &&& #[trigger] has_popup_room(*self, id, room)
                    &&& r == moved_by(
                        match room {
                            Some(t) => t,
                            None => Rect { loc: Point { x: 0, y: 0 }, size: self.output_size },
                        },
                        parents,
                    )
                },
    {
        let room = self.popup_target_rect(id);
        assert(has_popup_room(*self, id, room));
        let t = match room {
            Some(t) => t,
            None => Rect { loc: Point { x: 0, y: 0 }, size: self.output_size },
        };
        Rect { loc: Point { x: t.loc.x - parents.x, y: t.loc.y - parents.y }, size: t.size }
    }

    /// Find the output for a popup of a window.
    pub fn output_for_popup(&self, id: u64) -> (r: Option<String>)
        requires
            self.wf(),
            self.windows@.contains_key(id),
        ensures
            name_view(r) == window_popup_output(*self, id),
    {
        let shown = self.find_layout_output(id);
        match shown {
            Some(name) => {
                if self.space.contains(name.as_str()) {
                    Some(name)
                } else {
                    None
                }
            },
            None => {
                let at = match self.windows.get(id) {
                    Some(w) => match w.at {
                        Some(p) => p,
                        None => Point { x: 0, y: 0 },
                    },
                    None => Point { x: 0, y: 0 },
                };
                self.output_holding(at)
            },
        }
    }

    /// The room for a popup of a layer surface at `layer`, on the output of this name, relative
    /// to the surface and moved by the popup's parents.
    pub fn layer_popup_target(&self, output: &str, layer: Point, parents: Point) -> (r: Rect)
        requires
            self.wf(),
            i32::MIN <= 0 - layer.x - parents.x <= i32::MAX,
            i32::MIN <= 0 - layer.y - parents.y <= i32::MAX,
            layer.x > i32::MIN,
            layer.y > i32::MIN,
        ensures
            r.size == if self.space@.contains_key(output@) {
                self.space@[output@].geo.size
            } else {
                self.output_size
            },
            r.loc.x == 0 - layer.x - parents.x,
            r.loc.y == 0 - layer.y - parents.y,
    {
        let size = match self.space.get(output) {
            Some(m) => m.geo.size,
            None => self.output_size,
        };
        Rect { loc: Point { x: -layer.x - parents.x, y: -layer.y - parents.y }, size }
    }
}

/// Where placing is a function, the popup goes where that puts it: within the padded target without
/// resizing if it lies in there, else within the target.
pub proof fn law_padding_is_tried_first<F: Fn(Positioner, Rect) -> Rect>(
    place: F,
    f: spec_fn(Positioner, Rect) -> Rect,
    p: Positioner,
    target: Rect,
    r: Rect,
)
    requires
        forall|q: Positioner, t: Rect, g: Rect| #[trigger]
            call_ensures(place, (q, t), g) ==> g == f(q, t),
        placed_with_padding(place, p, target, r),
    ensures
        r == if padded(target) != target && padded(target).has_rect(
            f(without_resize(p), padded(target)),
        ) {
            f(without_resize(p), padded(target))
        } else {
            f(p, target)
        },
{
}

/// Padding keeps a popup's room inside its target and never turns it inside out.
pub proof fn law_padding_stays_inside(loc: int, len: int)
    requires
        len >= 0,
    ensures
        padded_axis(loc, len).0 >= loc,
        padded_axis(loc, len).0 + padded_axis(loc, len).1 <= loc + len,
        padded_axis(loc, len).1 >= 0,
        len > 0 ==> padded_axis(loc, len).1 > 0,
{
}

} // verus!
