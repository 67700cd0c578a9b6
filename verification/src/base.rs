//! The vocabulary of scroll requests.

use vstd::prelude::*;

verus! {

/// A direction on the screen.
#[derive(Clone, Copy, Debug, PartialEq, Eq, Structural)]
pub enum MoveDir2D {
    /// Towards the start of the text.
    Up,
    /// Towards the end of the text.
    Down,
    /// Towards the start of the lines.
    Left,
    /// Towards the end of the lines.
    Right,
}

/// The unit that a scroll moves the viewport by.
#[derive(Clone, Copy, Debug, PartialEq, Eq, Structural)]
pub enum ScrollSize {
    /// One cell.
    Cell,
    /// Half of the viewport's extent.
    HalfPage,
    /// The whole of the viewport's extent.
    Page,
}

/// Where on the screen a position is put.
#[derive(Clone, Copy, Debug, PartialEq, Eq, Structural)]
pub enum MovePosition {
    /// At the first row or column of the viewport.
    Beginning,
    /// At the middle of the viewport.
    Middle,
    /// At the last row or column of the viewport.
    End,
}

/// An axis of the screen.
#[derive(Clone, Copy, Debug, PartialEq, Eq, Structural)]
pub enum Axis {
    /// Along the rows: the columns.
    Horizontal,
    /// Along the columns: the rows.
    Vertical,
}

/// The geometry of a selection.
#[derive(Clone, Copy, Debug, PartialEq, Eq, Structural)]
pub enum TargetShape {
    /// From one character to another, across the lines between.
    CharWise,
    /// Whole lines.
    LineWise,
    /// A rectangle of columns.
    BlockWise,
}

/// How often an action is repeated.
#[derive(Clone, Copy, Debug, PartialEq, Eq, Structural)]
pub enum Count {
    /// The count that the user gave, or 1 without one.
    Contextual,
    /// One less than the count that the user gave, or 0 without one.
    MinusOne,
    /// This count, whatever the user gave.
    Exact(usize),
}

/// A request to move the viewport.
#[derive(Clone, Copy, Debug, PartialEq, Eq, Structural)]
pub enum ScrollStyle {
    /// Move the viewport in a direction, a number of units.
    Direction2D(MoveDir2D, ScrollSize, Count),
    /// Move the viewport so that the cursor shows at a place along an axis.
    CursorPos(MovePosition, Axis),
    /// Jump to a line and show it at a place in the viewport.
    LinePos(MovePosition, Count),
}

/// What the user has typed ahead of an action.
#[derive(Clone, Copy, Debug, PartialEq, Eq, Structural)]
pub struct EditContext {
    /// The count that the user gave, if any.
    pub count: Option<usize>,
}

impl EditContext {
    /// The number that `count` stands for in this context.
    pub open spec fn resolved(self, count: Count) -> usize {
        match count {
            Count::Contextual => match self.count {
                Some(n) => n,
                None => 1,
            },
            Count::MinusOne => match self.count {
                Some(n) => n.saturating_sub(1),
                None => 0,
            },
            Count::Exact(n) => n,
        }
    }

    /// Resolves `count` in this context.
    pub fn resolve(&self, count: &Count) -> (n: usize)
        ensures
            n == self.resolved(*count),
    {
        match count {
            Count::Contextual => match self.count {
                Some(n) => n,
                None => 1,
            },
            Count::MinusOne => match self.count {
                Some(n) => n.saturating_sub(1),
                None => 0,
            },
            Count::Exact(n) => *n,
        }
    }
}

impl Default for EditContext {
    /// A context in which the user gave no count.
    fn default() -> (ctx: EditContext)
        ensures
            ctx.count is None,
    {
        EditContext { count: None }
    }
}

} // verus!
