//! Points and axis-aligned rectangles in device pixel space.

use vstd::prelude::*;

verus! {

/// A position, or a displacement, in device pixels.
#[derive(Clone, Copy, Debug, PartialEq, Eq, Structural)]
pub struct Point {
    pub x: i32,
    pub y: i32,
}

/// An axis-aligned rectangle given by two opposite corners.
///
/// A rectangle is well formed when `min` lies neither to the right of nor
/// below `max`; a rectangle of no area stands for "nothing to redraw".
#[derive(Clone, Copy, Debug, PartialEq, Eq, Structural)]
pub struct Rectangle {
    pub min: Point,
    pub max: Point,
}

/// The direction in which a paged list is turned.
#[derive(Clone, Copy, Debug, PartialEq, Eq, Structural)]
pub enum CycleDir {
    Next,
    Previous,
}

/// How the corners of a drawn rectangle are rounded.
#[derive(Clone, Copy, Debug, PartialEq, Eq, Structural)]
pub enum CornerSpec {
    Uniform(i32),
}

/// The border drawn around a rectangle.
#[derive(Clone, Copy, Debug, PartialEq, Eq, Structural)]
pub struct BorderSpec {
    pub thickness: u16,
    pub color: u8,
}

/// Whether `v` can be held in an `i32`.
pub open spec fn fits_i32(v: int) -> bool {
    i32::MIN <= v <= i32::MAX
}

pub open spec fn min_int(a: int, b: int) -> int {
    if a <= b { a } else { b }
}

pub open spec fn max_int(a: int, b: int) -> int {
    if a >= b { a } else { b }
}

impl Point {
    pub fn new(x: i32, y: i32) -> (p: Point)
        ensures
            p == (Point { x, y }),
    {
        Point { x, y }
    }

    /// The displacement that undoes this one, where it exists.
    pub open spec fn negated(self) -> Point {
        Point { x: (-self.x) as i32, y: (-self.y) as i32 }
    }

    /// Whether this point moved by `delta` is still a point.
    pub open spec fn can_translate(self, delta: Point) -> bool {
        fits_i32(self.x + delta.x) && fits_i32(self.y + delta.y)
    }

    /// This point moved by `delta`.
    pub open spec fn translated(self, delta: Point) -> Point {
        Point { x: (self.x + delta.x) as i32, y: (self.y + delta.y) as i32 }
    }

    /// Moves this point by `delta`.
    pub fn translate(&mut self, delta: &Point)
        requires
            old(self).can_translate(*delta),
        ensures
            *final(self) == old(self).translated(*delta),
    {
        self.x = self.x + delta.x;
        self.y = self.y + delta.y;
    }

    /// Tells whether `translate` may be called with `delta`.
    pub fn translatable(&self, delta: &Point) -> (b: bool)
        ensures
            b == self.can_translate(*delta),
    {
        self.x.checked_add(delta.x).is_some() && self.y.checked_add(delta.y).is_some()
    }
}

impl Rectangle {
    pub fn new(min: Point, max: Point) -> (r: Rectangle)
        ensures
            r == (Rectangle { min, max }),
    {
        Rectangle { min, max }
    }

    /// The rectangle from `(x0, y0)` to `(x1, y1)`.
    pub fn from_coords(x0: i32, y0: i32, x1: i32, y1: i32) -> (r: Rectangle)
        ensures
            r == Rectangle::at(x0 as int, y0 as int, x1 as int, y1 as int),
    {
        Rectangle { min: Point { x: x0, y: y0 }, max: Point { x: x1, y: y1 } }
    }

    /// The rectangle from `(x0, y0)` to `(x1, y1)`, for coordinates that fit.
    pub open spec fn at(x0: int, y0: int, x1: int, y1: int) -> Rectangle {
        Rectangle {
            min: Point { x: x0 as i32, y: y0 as i32 },
            max: Point { x: x1 as i32, y: y1 as i32 },
        }
    }

    /// `min` is neither right of nor below `max`.
    pub open spec fn wf(self) -> bool {
        self.min.x <= self.max.x && self.min.y <= self.max.y
    }

    /// The closed-interval inclusion test.
    pub open spec fn includes_spec(self, pt: Point) -> bool {
        &&& self.min.x <= pt.x <= self.max.x
        &&& self.min.y <= pt.y <= self.max.y
    }

    /// Whether every point of `other` is a point of this rectangle.
    pub open spec fn covers(self, other: Rectangle) -> bool {
        &&& self.min.x <= other.min.x
        &&& self.min.y <= other.min.y
        &&& other.max.x <= self.max.x
        &&& other.max.y <= self.max.y
    }

    /// The smallest rectangle that covers both this one and `other`.
    pub open spec fn absorbed(self, other: Rectangle) -> Rectangle {
        Rectangle {
            min: Point {
                x: min_int(self.min.x as int, other.min.x as int) as i32,
                y: min_int(self.min.y as int, other.min.y as int) as i32,
            },
            max: Point {
                x: max_int(self.max.x as int, other.max.x as int) as i32,
                y: max_int(self.max.y as int, other.max.y as int) as i32,
            },
        }
    }

    pub open spec fn can_translate(self, delta: Point) -> bool {
        self.min.can_translate(delta) && self.max.can_translate(delta)
    }

    pub open spec fn translated(self, delta: Point) -> Rectangle {
        Rectangle { min: self.min.translated(delta), max: self.max.translated(delta) }
    }

    pub open spec fn width_spec(self) -> int {
        self.max.x - self.min.x
    }

    pub open spec fn height_spec(self) -> int {
        self.max.y - self.min.y
    }

    /// Tells whether `pt` lies in this rectangle, its edges included.
    pub fn includes(&self, pt: &Point) -> (b: bool)
        ensures
            b == self.includes_spec(*pt),
    {
        self.min.x <= pt.x && pt.x <= self.max.x && self.min.y <= pt.y && pt.y <= self.max.y
    }

    /// Grows this rectangle until it covers `other` as well.
    pub fn absorb(&mut self, other: &Rectangle)
        ensures
            *final(self) == old(self).absorbed(*other),
    {
        if self.min.x > other.min.x {
            self.min.x = other.min.x;
        }
        if self.min.y > other.min.y {
            self.min.y = other.min.y;
        }
        if self.max.x < other.max.x {
            self.max.x = other.max.x;
        }
        if self.max.y < other.max.y {
            self.max.y = other.max.y;
        }
    }

    /// Moves this rectangle by `delta`, without clipping.
    pub fn translate(&mut self, delta: &Point)
        requires
            old(self).can_translate(*delta),
        ensures
            *final(self) == old(self).translated(*delta),
    {
        self.min.translate(delta);
        self.max.translate(delta);
    }

    /// Tells whether `translate` may be called with `delta`.
    pub fn translatable(&self, delta: &Point) -> (b: bool)
        ensures
            b == self.can_translate(*delta),
    {
        self.min.translatable(delta) && self.max.translatable(delta)
    }

    pub fn width(&self) -> (w: u32)
        requires
            self.wf(),
        ensures
            w == self.width_spec(),
    {
        let w: i64 = self.max.x as i64 - self.min.x as i64;
        w as u32
    }

    pub fn height(&self) -> (h: u32)
        requires
            self.wf(),
        ensures
            h == self.height_spec(),
    {
        let h: i64 = self.max.y as i64 - self.min.y as i64;
        h as u32
    }
}

/// Absorbing yields the least upper bound of two rectangles: the result is
/// well formed, covers both, and is covered by every rectangle that covers
/// both.
pub proof fn lemma_absorb_is_smallest(r: Rectangle, s: Rectangle, t: Rectangle)
    requires
        r.wf(),
        s.wf(),
    ensures
        r.absorbed(s).wf(),
        r.absorbed(s).covers(r),
        r.absorbed(s).covers(s),
        t.covers(r) && t.covers(s) ==> t.covers(r.absorbed(s)),
{
}

/// A well-formed rectangle includes its four corners.
pub proof fn lemma_includes_corners(r: Rectangle)
    requires
        r.wf(),
    ensures
        r.includes_spec(r.min),
        r.includes_spec(r.max),
        r.includes_spec(Point { x: r.min.x, y: r.max.y }),
        r.includes_spec(Point { x: r.max.x, y: r.min.y }),
{
}

/// A point beyond any one edge of a rectangle is not included in it.
pub proof fn lemma_excludes_outside(r: Rectangle, pt: Point)
    requires
        pt.x < r.min.x || pt.x > r.max.x || pt.y < r.min.y || pt.y > r.max.y,
    ensures
        !r.includes_spec(pt),
{
}

/// Moving two rectangles by the same displacement and absorbing one into the
/// other gives the absorbed rectangle moved by that displacement.
pub proof fn lemma_absorb_translate(r: Rectangle, s: Rectangle, delta: Point)
    requires
        r.can_translate(delta),
        s.can_translate(delta),
    ensures
        r.absorbed(s).can_translate(delta),
        r.translated(delta).absorbed(s.translated(delta)) == r.absorbed(s).translated(delta),
{
}

/// Moving a rectangle by a displacement and back restores it.
pub proof fn lemma_translate_back(r: Rectangle, delta: Point)
    requires
        r.can_translate(delta),
        delta.x > i32::MIN,
        delta.y > i32::MIN,
    ensures
        r.translated(delta).can_translate(delta.negated()),
        r.translated(delta).translated(delta.negated()) == r,
{
}

} // verus!
