//! Integer screen geometry.
use vstd::prelude::*;

verus! {

#[derive(Clone, Copy, Debug, PartialEq, Eq, Structural)]
pub struct Point {
    pub x: i32,
    pub y: i32,
}

impl Point {
    pub fn new(x: i32, y: i32) -> (r: Self)
        ensures
            r == (Point { x, y }),
    {
        Self { x, y }
    }
}

#[derive(Clone, Copy, Debug, PartialEq, Eq, Structural)]
pub struct Size {
    pub width: i32,
    pub height: i32,
}

impl Size {
    pub fn new(width: i32, height: i32) -> (r: Self)
        ensures
            r == (Size { width, height }),
    {
        Self { width, height }
    }
}

#[derive(Clone, Copy, Debug, PartialEq, Eq, Structural)]
pub struct Rect {
    pub x: i32,
    pub y: i32,
    pub width: i32,
    pub height: i32,
}

pub open spec fn in_i32(v: int) -> bool {
    i32::MIN <= v <= i32::MAX
}

pub open spec fn imax(a: int, b: int) -> int {
    if a >= b {
        a
    } else {
        b
    }
}

pub open spec fn imin(a: int, b: int) -> int {
    if a <= b {
        a
    } else {
        b
    }
}

impl Rect {
    pub open spec fn spec_right(self) -> int {
        self.x + self.width
    }

    pub open spec fn spec_bottom(self) -> int {
        self.y + self.height
    }

    /// The right and bottom edges are representable.
    pub open spec fn edges_fit(self) -> bool {
        in_i32(self.spec_right()) && in_i32(self.spec_bottom())
    }

    pub open spec fn spec_is_empty(self) -> bool {
        self.width <= 0 || self.height <= 0
    }

    pub open spec fn spec_contains(self, p: Point) -> bool {
        p.x >= self.x && p.x < self.spec_right() && p.y >= self.y && p.y < self.spec_bottom()
    }

    /// The clip of two rectangles, as integers.
    pub open spec fn spec_intersect(self, other: Rect) -> (int, int, int, int) {
        let x1 = imax(self.x as int, other.x as int);
        let y1 = imax(self.y as int, other.y as int);
        let x2 = imin(self.spec_right(), other.spec_right());
        let y2 = imin(self.spec_bottom(), other.spec_bottom());
        (x1, y1, imax(x2 - x1, 0), imax(y2 - y1, 0))
    }

    /// The clip's extent is representable.
    pub open spec fn intersect_fits(self, other: Rect) -> bool {
        let x1 = imax(self.x as int, other.x as int);
        let y1 = imax(self.y as int, other.y as int);
        let x2 = imin(self.spec_right(), other.spec_right());
        let y2 = imin(self.spec_bottom(), other.spec_bottom());
        self.edges_fit() && other.edges_fit() && in_i32(x2 - x1) && in_i32(y2 - y1)
    }

    /// The bounding box of two rectangles, as integers.
    pub open spec fn spec_bounds(self, other: Rect) -> (int, int, int, int) {
        let x1 = imin(self.x as int, other.x as int);
        let y1 = imin(self.y as int, other.y as int);
        let x2 = imax(self.spec_right(), other.spec_right());
        let y2 = imax(self.spec_bottom(), other.spec_bottom());
        (x1, y1, x2 - x1, y2 - y1)
    }

    pub fn new(x: i32, y: i32, width: i32, height: i32) -> (r: Self)
        ensures
            r == (Rect { x, y, width, height }),
    {
        Self { x, y, width, height }
    }

    pub fn right(self) -> (r: i32)
        requires
            in_i32(self.spec_right()),
        ensures
            r == self.spec_right(),
    {
        self.x + self.width
    }

    pub fn bottom(self) -> (r: i32)
        requires
            in_i32(self.spec_bottom()),
        ensures
            r == self.spec_bottom(),
    {
        self.y + self.height
    }

    pub fn is_empty(self) -> (r: bool)
        ensures
            r == self.spec_is_empty(),
    {
        self.width <= 0 || self.height <= 0
    }

    /// Shrinks every edge by `amount`.
    pub fn inset(self, amount: i32) -> (r: Self)
        requires
            in_i32(self.x + amount),
            in_i32(self.y + amount),
            in_i32(amount * 2),
            in_i32(self.width - amount * 2),
            in_i32(self.height - amount * 2),
        ensures
            r.x == self.x + amount,
            r.y == self.y + amount,
            r.width == self.width - amount * 2,
            r.height == self.height - amount * 2,
    {
        Self::new(self.x + amount, self.y + amount, self.width - amount * 2, self.height - amount * 2)
    }

    pub fn contains(self, point: Point) -> (r: bool)
        requires
            self.edges_fit(),
        ensures
            r == self.spec_contains(point),
    {
        point.x >= self.x && point.x < self.right() && point.y >= self.y && point.y < self.bottom()
    }

    /// The clip of two rectangles; it is empty when they do not overlap.
    pub fn intersect(self, other: Self) -> (r: Self)
        requires
            self.intersect_fits(other),
        ensures
            (r.x as int, r.y as int, r.width as int, r.height as int) == self.spec_intersect(
                other,
            ),
    {
        let x1 = if self.x >= other.x { self.x } else { other.x };
        let y1 = if self.y >= other.y { self.y } else { other.y };
        let (sr, or) = (self.right(), other.right());
        let (sb, ob) = (self.bottom(), other.bottom());
        let x2 = if sr <= or { sr } else { or };
        let y2 = if sb <= ob { sb } else { ob };
        let w = x2 - x1;
        let h = y2 - y1;
        Self::new(x1, y1, if w >= 0 { w } else { 0 }, if h >= 0 { h } else { 0 })
    }

    /// The bounding box of two rectangles; an empty operand contributes nothing.
    pub fn union(self, other: Self) -> (r: Self)
        requires
            self.edges_fit(),
            other.edges_fit(),
            !self.spec_is_empty() && !other.spec_is_empty() ==> in_i32(self.spec_bounds(other).2)
                && in_i32(self.spec_bounds(other).3),
        ensures
            self.spec_is_empty() ==> r == other,
            !self.spec_is_empty() && other.spec_is_empty() ==> r == self,
            !self.spec_is_empty() && !other.spec_is_empty() ==> (
            r.x as int,
            r.y as int,
            r.width as int,
            r.height as int,
            ) == self.spec_bounds(other),
    {
        if self.is_empty() {
            return other;
        }
        if other.is_empty() {
            return self;
        }
        let x1 = if self.x <= other.x { self.x } else { other.x };
        let y1 = if self.y <= other.y { self.y } else { other.y };
        let (sr, or) = (self.right(), other.right());
        let (sb, ob) = (self.bottom(), other.bottom());
        let x2 = if sr >= or { sr } else { or };
        let y2 = if sb >= ob { sb } else { ob };
        Self::new(x1, y1, x2 - x1, y2 - y1)
    }
}

/// A point lies in the clip of two rectangles exactly when it lies in both.
pub proof fn lemma_intersect_is_conjunction(a: Rect, b: Rect, p: Point)
    requires
        a.intersect_fits(b),
    ensures
        ({
            let (x, y, w, h) = a.spec_intersect(b);
            p.x >= x && p.x < x + w && p.y >= y && p.y < y + h
        }) <==> (a.spec_contains(p) && b.spec_contains(p)),
{
}

/// Clipping is symmetric.
pub proof fn lemma_intersect_commutes(a: Rect, b: Rect)
    ensures
        a.spec_intersect(b) == b.spec_intersect(a),
{
}

/// The bounding box of two non-empty rectangles covers every point of both.
pub proof fn lemma_union_covers(a: Rect, b: Rect, p: Point)
    requires
        !a.spec_is_empty(),
        !b.spec_is_empty(),
        a.spec_contains(p) || b.spec_contains(p),
    ensures
        ({
            let (x, y, w, h) = a.spec_bounds(b);
            p.x >= x && p.x < x + w && p.y >= y && p.y < y + h
        }),
{
}

} // verus!
