//! Integer geometry of the virtual desktop.
//!
//! All coordinates are virtual-desktop pixels: one signed coordinate system
//! that spans every monitor of every machine.

use vstd::prelude::*;

verus! {

/// A position in the virtual desktop.
#[derive(Clone, Copy, Debug, PartialEq, Eq, Structural)]
pub struct Point {
    pub x: i32,
    pub y: i32,
}

impl Point {
    pub fn new(x: i32, y: i32) -> (p: Self)
        ensures
            p == (Point { x, y }),
    {
        Point { x, y }
    }
}

/// A width and a height in pixels.
#[derive(Clone, Copy, Debug, PartialEq, Eq, Structural)]
pub struct Size {
    pub w: i32,
    pub h: i32,
}

impl Size {
    pub fn new(w: i32, h: i32) -> (s: Self)
        ensures
            s == (Size { w, h }),
    {
        Size { w, h }
    }
}

/// An axis-aligned rectangle, given by its top-left corner and its size.
#[derive(Clone, Copy, Debug, PartialEq, Eq, Structural)]
pub struct Rect {
    pub x: i32,
    pub y: i32,
    pub w: i32,
    pub h: i32,
}

/// `v` moved to the closest value of `[lo, hi]`.
pub open spec fn clamp_int(v: int, lo: int, hi: int) -> int {
    if v < lo {
        lo
    } else if v > hi {
        hi
    } else {
        v
    }
}

impl Rect {
    /// The right and bottom edges are coordinates too: they fit in an `i32`.
    pub open spec fn in_range(self) -> bool {
        &&& i32::MIN <= self.x + self.w <= i32::MAX
        &&& i32::MIN <= self.y + self.h <= i32::MAX
    }

    /// The rectangle covers at least one pixel.
    pub open spec fn nonempty(self) -> bool {
        self.w >= 1 && self.h >= 1
    }

    /// Half-open containment: `[left, right) x [top, bottom)`.
    pub open spec fn covers(self, p: Point) -> bool {
        self.x <= p.x < self.x + self.w && self.y <= p.y < self.y + self.h
    }

    /// The pixel of this rectangle closest to `p`, axis by axis.
    pub open spec fn nearest(self, p: Point) -> Point {
        Point {
            x: clamp_int(p.x as int, self.x as int, self.x + self.w - 1) as i32,
            y: clamp_int(p.y as int, self.y as int, self.y + self.h - 1) as i32,
        }
    }

    pub fn new(x: i32, y: i32, w: i32, h: i32) -> (r: Self)
        ensures
            r == (Rect { x, y, w, h }),
    {
        Rect { x, y, w, h }
    }

    pub fn left(&self) -> (v: i32)
        ensures
            v == self.x,
    {
        self.x
    }

    pub fn top(&self) -> (v: i32)
        ensures
            v == self.y,
    {
        self.y
    }

    pub fn right(&self) -> (v: i32)
        requires
            i32::MIN <= self.x + self.w <= i32::MAX,
        ensures
            v == self.x + self.w,
    {
        self.x + self.w
    }

    pub fn bottom(&self) -> (v: i32)
        requires
            i32::MIN <= self.y + self.h <= i32::MAX,
        ensures
            v == self.y + self.h,
    {
        self.y + self.h
    }

    /// Whether `p` lies in the half-open rectangle.
    pub fn contains(&self, p: Point) -> (b: bool)
        requires
            self.in_range(),
        ensures
            b == self.covers(p),
    {
        p.x >= self.left() && p.x < self.right() && p.y >= self.top() && p.y < self.bottom()
    }

    /// The closest position to `p` that is still inside this rectangle.
    pub fn clamp(&self, p: Point) -> (q: Point)
        requires
            self.in_range(),
            self.nonempty(),
        ensures
            q == self.nearest(p),
    {
        Point {
            x: clamp_i32(p.x, self.left(), self.right() - 1),
            y: clamp_i32(p.y, self.top(), self.bottom() - 1),
        }
    }
}

/// `v` moved to the closest value of `[lo, hi]`.
pub fn clamp_i32(v: i32, lo: i32, hi: i32) -> (r: i32)
    requires
        lo <= hi,
    ensures
        r == clamp_int(v as int, lo as int, hi as int),
{
    if v < lo {
        lo
    } else if v > hi {
        hi
    } else {
        v
    }
}

/// One of the four edges of a monitor: the boundary over which control can pass
/// to another machine.
#[derive(Clone, Copy, Debug, PartialEq, Eq, Structural)]
pub enum Edge {
    Left,
    Right,
    Top,
    Bottom,
}

/// A clamped point lies inside the rectangle, and clamping moves only points
/// that lay outside.
pub proof fn law_clamp_lands_inside(r: Rect, p: Point)
    requires
        r.in_range(),
        r.nonempty(),
    ensures
        r.covers(r.nearest(p)),
        r.nearest(p) == p <==> r.covers(p),
        r.nearest(r.nearest(p)) == r.nearest(p),
{
}

/// No pixel of the rectangle is closer to `p`, on either axis, than the clamped
/// point.
pub proof fn law_clamp_is_closest(r: Rect, p: Point, q: Point)
    requires
        r.in_range(),
        r.covers(q),
    ensures
        distance(p.x as int, r.nearest(p).x as int) <= distance(p.x as int, q.x as int),
        distance(p.y as int, r.nearest(p).y as int) <= distance(p.y as int, q.y as int),
{
}

/// The absolute difference of two coordinates.
pub open spec fn distance(a: int, b: int) -> int {
    if a >= b {
        a - b
    } else {
        b - a
    }
}

} // verus!
