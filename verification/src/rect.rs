//! Regions of the screen.

use vstd::prelude::*;
use crate::screen::{clipped_size, rect_new};

verus! {

/// A rectangle of cells on the screen.
#[derive(Clone, Copy, Debug, PartialEq, Eq, Structural)]
pub struct Rect {
    /// The column of the left-most cells.
    pub x: u16,
    /// The row of the top-most cells.
    pub y: u16,
    /// The number of columns.
    pub width: u16,
    /// The number of rows.
    pub height: u16,
}

/// The sum of two screen coordinates, or the largest coordinate where the sum is larger.
pub open spec fn edge(start: u16, extent: u16) -> u16 {
    if start + extent > u16::MAX {
        u16::MAX
    } else {
        (start + extent) as u16
    }
}

impl Rect {
    /// Whether `self` lies within `outer`.
    pub open spec fn within(self, outer: Rect) -> bool {
        &&& outer.x <= self.x
        &&& outer.y <= self.y
        &&& self.x + self.width <= outer.x + outer.width
        &&& self.y + self.height <= outer.y + outer.height
    }

    /// Whether `self` lies within `outer`, and ends within the coordinates
    /// that a cell can have.
    pub open spec fn inside(self, outer: Rect) -> bool {
        &&& self.within(outer)
        &&& self.x + self.width <= u16::MAX
        &&& self.y + self.height <= u16::MAX
    }

    /// The size that a rectangle of `width` by `height` cells is given: its
    /// own where it has no more cells than a coordinate can count, else a
    /// smaller one of the same proportions.
    pub open spec fn fitted(width: u16, height: u16) -> (u16, u16) {
        if width * height <= u16::MAX {
            (width, height)
        } else {
            clipped_size(width, height)
        }
    }

    /// The rectangle at `x` and `y` of `width` by `height` cells, made
    /// smaller where it has more cells than a coordinate can count.
    pub fn new(x: u16, y: u16, width: u16, height: u16) -> (r: Rect)
        ensures
            r.x == x,
            r.y == y,
            (r.width, r.height) == Rect::fitted(width, height),
    {
        rect_new(x, y, width, height)
    }

    /// The column of the left-most cells.
    pub fn left(&self) -> (c: u16)
        ensures
            c == self.x,
    {
        self.x
    }

    /// The column after the right-most cells.
    pub fn right(&self) -> (c: u16)
        ensures
            c == edge(self.x, self.width),
    {
        self.x.saturating_add(self.width)
    }

    /// The row of the top-most cells.
    pub fn top(&self) -> (r: u16)
        ensures
            r == self.y,
    {
        self.y
    }

    /// The row after the bottom-most cells.
    pub fn bottom(&self) -> (r: u16)
        ensures
            r == edge(self.y, self.height),
    {
        self.y.saturating_add(self.height)
    }

    /// Tells whether `self` lies within `outer`, and ends within the
    /// coordinates that a cell can have.
    pub fn is_inside(&self, outer: &Rect) -> (b: bool)
        ensures
            b == self.inside(*outer),
    {
        let right: u32 = self.x as u32 + self.width as u32;
        let bottom: u32 = self.y as u32 + self.height as u32;
        outer.x <= self.x && outer.y <= self.y && right <= outer.x as u32 + outer.width as u32 && bottom
            <= outer.y as u32 + outer.height as u32 && right <= 0xffff && bottom <= 0xffff
    }
}

impl Default for Rect {
    /// The rectangle of no size at the origin.
    fn default() -> (r: Rect)
        ensures
            r == (Rect { x: 0, y: 0, width: 0, height: 0 }),
    {
        Rect { x: 0, y: 0, width: 0, height: 0 }
    }
}

} // verus!
