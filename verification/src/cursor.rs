//! Document positions.

use vstd::prelude::*;

verus! {

/// A position in a document: a line, and a column on that line.
///
/// Positions are ordered by line first and by column second.
#[derive(Clone, Copy, Debug, PartialEq, Eq, Structural, PartialOrd, Ord, Hash)]
pub struct Cursor {
    /// The line, counted from zero.
    pub y: usize,
    /// The column, counted from zero.
    pub x: usize,
}

impl Cursor {
    /// Whether `self` comes strictly before `other` in document order.
    pub open spec fn before(self, other: Cursor) -> bool {
        self.y < other.y || (self.y == other.y && self.x < other.x)
    }

    /// The position at `line` and `column`.
    pub fn new(line: usize, column: usize) -> (c: Cursor)
        ensures
            c.y == line,
            c.x == column,
    {
        Cursor { y: line, x: column }
    }

    /// Moves to `column`, keeping the line.
    pub fn set_x(&mut self, column: usize)
        ensures
            final(self).x == column,
            final(self).y == old(self).y,
    {
        self.x = column;
    }

    /// Moves to `line`, keeping the column.
    pub fn set_y(&mut self, line: usize)
        ensures
            final(self).y == line,
            final(self).x == old(self).x,
    {
        self.y = line;
    }

    /// Moves `count` lines towards the start of the document, stopping at the first line.
    pub fn up(&mut self, count: usize)
        ensures
            final(self).y == old(self).y.saturating_sub(count),
            final(self).x == old(self).x,
    {
        self.y = self.y.saturating_sub(count);
    }

    /// Moves `count` lines towards the end, stopping at the largest line number.
    pub fn down(&mut self, count: usize)
        ensures
            final(self).y == old(self).y.saturating_add(count),
            final(self).x == old(self).x,
    {
        self.y = self.y.saturating_add(count);
    }

    /// Moves `count` columns towards the start of the line, stopping at column zero.
    pub fn left(&mut self, count: usize)
        ensures
            final(self).x == old(self).x.saturating_sub(count),
            final(self).y == old(self).y,
    {
        self.x = self.x.saturating_sub(count);
    }

    /// Moves `count` columns to the right, stopping at the largest column number.
    pub fn right(&mut self, count: usize)
        ensures
            final(self).x == old(self).x.saturating_add(count),
            final(self).y == old(self).y,
    {
        self.x = self.x.saturating_add(count);
    }

    /// Tells whether `self` comes strictly before `other` in document order.
    pub fn is_before(&self, other: &Cursor) -> (b: bool)
        ensures
            b == self.before(*other),
    {
        self.y < other.y || (self.y == other.y && self.x < other.x)
    }
}

} // verus!
