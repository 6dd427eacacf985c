//! Integer rectangles in pixel space.

use vstd::prelude::*;

verus! {

/// An axis-aligned rectangle with integer coordinates.
#[derive(Copy, Clone, Debug, PartialEq, Eq, Structural)]
pub struct IRectangle {
    pub x: i32,
    pub y: i32,
    pub width: i32,
    pub height: i32,
}

/// The two rectangles share an area of positive size.
pub open spec fn overlaps(a: IRectangle, b: IRectangle) -> bool {
    &&& a.x < b.x + b.width
    &&& a.x + a.width > b.x
    &&& a.y < b.y + b.height
    &&& a.y + a.height > b.y
}

/// `inner` lies inside the `width` by `height` area whose corner is the origin.
pub open spec fn within(inner: IRectangle, width: int, height: int) -> bool {
    &&& 0 <= inner.x
    &&& 0 <= inner.y
    &&& inner.x + inner.width <= width
    &&& inner.y + inner.height <= height
}

impl IRectangle {
    pub fn new(x: i32, y: i32, width: i32, height: i32) -> (r: IRectangle)
        ensures
            r == (IRectangle { x, y, width, height }),
    {
        IRectangle { x, y, width, height }
    }

    pub fn right(&self) -> (r: i32)
        requires
            i32::MIN <= self.x + self.width <= i32::MAX,
        ensures
            r == self.x + self.width,
    {
        self.x + self.width
    }

    pub fn bottom(&self) -> (r: i32)
        requires
            i32::MIN <= self.y + self.height <= i32::MAX,
        ensures
            r == self.y + self.height,
    {
        self.y + self.height
    }

    /// Whether the two rectangles share an area of positive size.
    pub fn intersects(&self, other: &IRectangle) -> (r: bool)
        ensures
            r == overlaps(*self, *other),
    {
        let (ax, ay, aw, ah) = (self.x as i64, self.y as i64, self.width as i64, self.height as i64);
        let (bx, by, bw, bh) = (other.x as i64, other.y as i64, other.width as i64, other.height as i64);
        ax < bx + bw && ax + aw > bx && ay < by + bh && ay + ah > by
    }

    /// Whether `other` lies entirely inside this rectangle.
    pub fn contains(&self, other: &IRectangle) -> (r: bool)
        ensures
            r == (self.x <= other.x && other.x + other.width <= self.x + self.width
                && self.y <= other.y && other.y + other.height <= self.y + self.height),
    {
        let (ax, ay, aw, ah) = (self.x as i64, self.y as i64, self.width as i64, self.height as i64);
        let (bx, by, bw, bh) = (other.x as i64, other.y as i64, other.width as i64, other.height as i64);
        ax <= bx && bx + bw <= ax + aw && ay <= by && by + bh <= ay + ah
    }

    /// Whether the point lies inside this rectangle, its right and bottom edges excluded.
    pub fn contains_point(&self, px: i32, py: i32) -> (r: bool)
        ensures
            r == (self.x <= px && px < self.x + self.width && self.y <= py && py < self.y
                + self.height),
    {
        let (ax, ay, aw, ah) = (self.x as i64, self.y as i64, self.width as i64, self.height as i64);
        ax <= px as i64 && (px as i64) < ax + aw && ay <= py as i64 && (py as i64) < ay + ah
    }
}

} // verus!
