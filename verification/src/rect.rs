//! Axis-aligned integer rectangles, half open: a rectangle holds the cells
//! `(x, y)` with `x1 <= x < x2` and `y1 <= y < y2`.

use vstd::prelude::*;

verus! {

/// A rectangle by its corners: upper left included, lower right excluded.
#[derive(Clone, Copy, Debug, PartialEq, Eq, Structural)]
pub struct Rect<T> {
    pub x1: T,
    pub y1: T,
    pub x2: T,
    pub y2: T,
}

impl Rect<i32> {
    /// The left edge does not pass the right one, nor the top the bottom.
    pub open spec fn ordered(self) -> bool {
        self.x1 <= self.x2 && self.y1 <= self.y2
    }

    /// Whether the cell `(x, y)` lies in the rectangle.
    pub open spec fn holds(self, x: int, y: int) -> bool {
        self.x1 <= x < self.x2 && self.y1 <= y < self.y2
    }

    /// Whether every cell of the rectangle lies in the square `[0, side)`.
    pub open spec fn within(self, side: int) -> bool {
        0 <= self.x1 <= self.x2 <= side && 0 <= self.y1 <= self.y2 <= side
    }

    pub fn new(x1: i32, y1: i32, x2: i32, y2: i32) -> (r: Rect<i32>)
        ensures
            r == (Rect { x1, y1, x2, y2 }),
    {
        Rect { x1, y1, x2, y2 }
    }

    /// The rectangle with corner `(x1, y1)`, `w` cells wide and `h` tall.
    pub fn new_wh(x1: i32, y1: i32, w: u16, h: u16) -> (r: Rect<i32>)
        requires
            x1 + w <= i32::MAX,
            y1 + h <= i32::MAX,
        ensures
            r == (Rect { x1, y1, x2: (x1 + w) as i32, y2: (y1 + h) as i32 }),
    {
        Rect { x1, y1, x2: x1 + w as i32, y2: y1 + h as i32 }
    }

    pub fn left(&self) -> (v: i32)
        ensures
            v == self.x1,
    {
        self.x1
    }

    pub fn top(&self) -> (v: i32)
        ensures
            v == self.y1,
    {
        self.y1
    }

    pub fn right(&self) -> (v: i32)
        ensures
            v == self.x2,
    {
        self.x2
    }

    pub fn bottom(&self) -> (v: i32)
        ensures
            v == self.y2,
    {
        self.y2
    }
}

impl Rect<i64> {
    /// The left edge does not pass the right one, nor the top the bottom.
    pub open spec fn ordered(self) -> bool {
        self.x1 <= self.x2 && self.y1 <= self.y2
    }

    pub fn new(x1: i64, y1: i64, x2: i64, y2: i64) -> (r: Rect<i64>)
        ensures
            r == (Rect { x1, y1, x2, y2 }),
    {
        Rect { x1, y1, x2, y2 }
    }

    /// The rectangle with corner `(x1, y1)`, `w` cells wide and `h` tall.
    pub fn new_wh(x1: i64, y1: i64, w: i64, h: i64) -> (r: Rect<i64>)
        requires
            i64::MIN <= x1 + w <= i64::MAX,
            i64::MIN <= y1 + h <= i64::MAX,
        ensures
            r == (Rect { x1, y1, x2: (x1 + w) as i64, y2: (y1 + h) as i64 }),
    {
        Rect { x1, y1, x2: x1 + w, y2: y1 + h }
    }

    pub fn left(&self) -> (v: i64)
        ensures
            v == self.x1,
    {
        self.x1
    }

    pub fn top(&self) -> (v: i64)
        ensures
            v == self.y1,
    {
        self.y1
    }
}

} // verus!
