//! Integer rectangles in logical coordinates.
use vstd::prelude::*;

verus! {

/// A position.
#[derive(Clone, Copy, Debug, PartialEq, Eq, Structural)]
pub struct Point {
    pub x: i32,
    pub y: i32,
}

/// An extent.
#[derive(Clone, Copy, Debug, PartialEq, Eq, Structural)]
pub struct Size {
    pub w: i32,
    pub h: i32,
}

/// A rectangle: its top-left corner and its extent.
#[derive(Clone, Copy, Debug, PartialEq, Eq, Structural)]
pub struct Rect {
    pub loc: Point,
    pub size: Size,
}

/// `v`, or the nearest 32-bit number.
pub open spec fn saturated(v: int) -> int {
    if v > i32::MAX {
        i32::MAX as int
    } else if v < i32::MIN {
        i32::MIN as int
    } else {
        v
    }
}

fn saturating_sum(a: i32, b: i32) -> (r: i32)
    ensures
        r == saturated(a + b),
{
    let s: i64 = a as i64 + b as i64;
    if s > i32::MAX as i64 {
        i32::MAX
    } else if s < i32::MIN as i64 {
        i32::MIN
    } else {
        s as i32
    }
}

impl Rect {
    /// The right edge, one past the last column.
    pub open spec fn right(&self) -> int {
        saturated(self.loc.x + self.size.w)
    }

    /// The bottom edge, one past the last row.
    pub open spec fn bottom(&self) -> int {
        saturated(self.loc.y + self.size.h)
    }

    /// The point lies inside; the right and bottom edges are outside.
    pub open spec fn has_point(&self, p: Point) -> bool {
        &&& self.loc.x <= p.x < self.right()
        &&& self.loc.y <= p.y < self.bottom()
    }

    /// The other rectangle lies inside, edges included.
    pub open spec fn has_rect(&self, r: Rect) -> bool {
        &&& self.loc.x <= r.loc.x
        &&& self.loc.y <= r.loc.y
        &&& r.right() <= self.right()
        &&& r.bottom() <= self.bottom()
    }

    pub fn contains(&self, p: Point) -> (r: bool)
        ensures
            r == self.has_point(p),
    {
        self.loc.x <= p.x && p.x < saturating_sum(self.loc.x, self.size.w) && self.loc.y <= p.y
            && p.y < saturating_sum(self.loc.y, self.size.h)
    }

    pub fn contains_rect(&self, o: Rect) -> (r: bool)
        ensures
            r == self.has_rect(o),
    {
        self.loc.x <= o.loc.x && self.loc.y <= o.loc.y && saturating_sum(o.loc.x, o.size.w)
            <= saturating_sum(self.loc.x, self.size.w) && saturating_sum(o.loc.y, o.size.h)
            <= saturating_sum(self.loc.y, self.size.h)
    }
}

/// How far a window of extent `window` is moved along one axis to stand centered in `output`.
pub open spec fn center_offset(window: int, output: int) -> int {
    if window < output {
        (output - window) / 2
    } else {
        0
    }
}

fn axis_offset(window: i32, output: i32) -> (r: i32)
    requires
        output - window <= i32::MAX,
    ensures
        r == center_offset(window as int, output as int),
{
    if window < output {
        (output - window) / 2
    } else {
        0
    }
}

/// Centering offset for a fullscreen surface within an output.
/// Returns (0, 0) when the surface is at least as large as the output.
pub fn fullscreen_center_offset(window_size: Size, output_size: Size) -> (r: (i32, i32))
    requires
        output_size.w - window_size.w <= i32::MAX,
        output_size.h - window_size.h <= i32::MAX,
    ensures
        r.0 == center_offset(window_size.w as int, output_size.w as int),
        r.1 == center_offset(window_size.h as int, output_size.h as int),
{
    (axis_offset(window_size.w, output_size.w), axis_offset(window_size.h, output_size.h))
}

/// A window that fits stays inside the output when it is centered, with equal margins up to
/// one pixel; a window that does not fit is not moved.
pub proof fn law_centered_window_stays_inside(window: int, output: int)
    requires
        0 <= window,
        0 <= output,
    ensures
        window <= output ==> 0 <= center_offset(window, output) && center_offset(window, output)
            + window <= output,
        window <= output ==> {
            let left = center_offset(window, output);
            let right = output - window - left;
            left <= right <= left + 1
        },
        window >= output ==> center_offset(window, output) == 0,
{
}

} // verus!
