//! The viewport of a view, and how its corner and a cursor are kept together.

use vstd::prelude::*;
use crate::cursor::Cursor;

verus! {

/// The part of a document that a view shows.
#[derive(Clone, Copy, Debug)]
pub struct ViewportContext {
    /// The document position drawn in the top-left cell.
    pub corner: Cursor,
    /// The width and the height of the view, in cells.
    pub dimensions: (usize, usize),
    /// Whether long lines continue on the next row.
    pub wrap: bool,
}

impl Default for ViewportContext {
    /// A viewport of no size at the start of the document, without wrapping.
    fn default() -> (v: ViewportContext)
        ensures
            v.corner == (Cursor { y: 0, x: 0 }),
            v.dimensions == (0usize, 0usize),
            !v.wrap,
    {
        ViewportContext { corner: Cursor { y: 0, x: 0 }, dimensions: (0, 0), wrap: false }
    }
}

impl ViewportContext {
    /// Switches wrapping on or off.
    pub fn set_wrap(&mut self, wrap: bool)
        ensures
            final(self).wrap == wrap,
            final(self).corner == old(self).corner,
            final(self).dimensions == old(self).dimensions,
    {
        self.wrap = wrap;
    }

    /// The width of the view, in cells.
    pub fn get_width(&self) -> (w: usize)
        ensures
            w == self.dimensions.0,
    {
        self.dimensions.0
    }

    /// The height of the view, in cells.
    pub fn get_height(&self) -> (h: usize)
        ensures
            h == self.dimensions.1,
    {
        self.dimensions.1
    }
}

/// The number nearest to `n` that a coordinate can hold.
pub open spec fn clip(n: int) -> usize {
    if n < 0 {
        0
    } else if n > usize::MAX {
        usize::MAX
    } else {
        n as usize
    }
}

/// Whether a coordinate lies among the `extent` cells that start at `corner`.
pub open spec fn shows(corner: usize, extent: usize, coord: usize) -> bool {
    corner <= coord < corner + extent
}

/// Whether `cursor` lies in the window of `width` by `height` cells at `corner`.
pub open spec fn in_window(corner: Cursor, width: usize, height: usize, cursor: Cursor) -> bool {
    shows(corner.y, height, cursor.y) && shows(corner.x, width, cursor.x)
}

/// The corner coordinate nearest to `corner` from which `extent` cells show `cursor`.
pub open spec fn follow(cursor: usize, corner: usize, extent: usize) -> usize {
    if cursor < corner {
        cursor
    } else if cursor >= corner + extent {
        clip(cursor - extent + 1)
    } else {
        corner
    }
}

/// The corner that a view without wrapping takes to show `cursor`.
pub open spec fn corner_nowrap(cursor: Cursor, corner: Cursor, width: usize, height: usize) -> Cursor {
    Cursor { y: follow(cursor.y, corner.y, height), x: follow(cursor.x, corner.x, width) }
}

/// The corner that a wrapping view takes to show `cursor`.
///
/// Lines move as without wrapping. The column goes back to zero whenever the
/// line moves, and when the cursor stands on the corner's line to the left of
/// the corner.
pub open spec fn corner_wrap(cursor: Cursor, corner: Cursor, height: usize) -> Cursor {
    if cursor.y < corner.y || cursor.y >= corner.y + height {
        Cursor { y: follow(cursor.y, corner.y, height), x: 0 }
    } else if cursor.y == corner.y && cursor.x < corner.x {
        Cursor { y: corner.y, x: 0 }
    } else {
        corner
    }
}

/// The corner that a view takes to show `cursor`, by its wrap flag.
pub open spec fn corner_following(
    viewctx: ViewportContext,
    cursor: Cursor,
    width: usize,
    height: usize,
) -> Cursor {
    if viewctx.wrap {
        corner_wrap(cursor, viewctx.corner, height)
    } else {
        corner_nowrap(cursor, viewctx.corner, width, height)
    }
}

/// The coordinate nearest to `coord` among the `extent` cells that start at `corner`.
pub open spec fn pull(coord: usize, corner: usize, extent: usize) -> usize {
    if coord < corner {
        corner
    } else if coord >= corner + extent {
        clip(corner + extent - 1)
    } else {
        coord
    }
}

/// The position nearest to `cursor` in the window of `width` by `height` cells at `corner`.
pub open spec fn cursor_pulled(cursor: Cursor, corner: Cursor, width: usize, height: usize) -> Cursor {
    Cursor { y: pull(cursor.y, corner.y, height), x: pull(cursor.x, corner.x, width) }
}

/// Moves the corner of a view without wrapping so that `cursor` shows.
pub fn shift_corner_nowrap(cursor: &Cursor, corner: &mut Cursor, width: usize, height: usize)
    ensures
        *final(corner) == corner_nowrap(*cursor, *old(corner), width, height),
{
    if cursor.y < corner.y {
        corner.set_y(cursor.y);
    } else if cursor.y - corner.y >= height {
        corner.set_y((cursor.y - height).saturating_add(1));
    }

    if cursor.x < corner.x {
        corner.set_x(cursor.x);
    } else if cursor.x - corner.x >= width {
        corner.set_x((cursor.x - width).saturating_add(1));
    }
}

/// Moves the corner of a wrapping view so that the line of `cursor` shows.
pub fn shift_corner_wrap(cursor: &Cursor, corner: &mut Cursor, height: usize)
    ensures
        *final(corner) == corner_wrap(*cursor, *old(corner), height),
{
    if cursor.y < corner.y {
        corner.set_y(cursor.y);
        corner.set_x(0);
    } else if cursor.y - corner.y >= height {
        corner.set_y((cursor.y - height).saturating_add(1));
        corner.set_x(0);
    } else if cursor.y == corner.y && cursor.x < corner.x {
        corner.set_x(0);
    }
}

/// Moves the corner of `viewctx` so that `cursor` shows in `width` by `height` cells.
pub fn shift_corner(viewctx: &mut ViewportContext, cursor: &Cursor, width: usize, height: usize)
    ensures
        final(viewctx).corner == corner_following(*old(viewctx), *cursor, width, height),
        final(viewctx).dimensions == old(viewctx).dimensions,
        final(viewctx).wrap == old(viewctx).wrap,
{
    if viewctx.wrap {
        shift_corner_wrap(cursor, &mut viewctx.corner, height);
    } else {
        shift_corner_nowrap(cursor, &mut viewctx.corner, width, height);
    }
}

/// Moves `cursor` back into the window of `width` by `height` cells at `corner`.
pub fn shift_cursor(cursor: &mut Cursor, corner: &Cursor, width: usize, height: usize)
    ensures
        *final(cursor) == cursor_pulled(*old(cursor), *corner, width, height),
{
    if cursor.y < corner.y {
        cursor.set_y(corner.y);
    } else if cursor.y - corner.y >= height {
        cursor.set_y(corner.y.saturating_add(height).saturating_sub(1));
    }

    if cursor.x < corner.x {
        cursor.set_x(corner.x);
    } else if cursor.x - corner.x >= width {
        cursor.set_x(corner.x.saturating_add(width).saturating_sub(1));
    }
}

/// A corner moved by `shift_corner_nowrap` shows the cursor, along each axis
/// on which the view has at least one cell.
pub proof fn lemma_corner_nowrap_shows_cursor(cursor: Cursor, corner: Cursor, width: usize, height: usize)
    ensures
        height > 0 ==> shows(corner_nowrap(cursor, corner, width, height).y, height, cursor.y),
        width > 0 ==> shows(corner_nowrap(cursor, corner, width, height).x, width, cursor.x),
        width > 0 && height > 0 ==> in_window(
            corner_nowrap(cursor, corner, width, height),
            width,
            height,
            cursor,
        ),
{
}

/// A corner moved by `shift_corner_wrap` has the cursor's line among its
/// `height` lines, and lies at or before the cursor.
pub proof fn lemma_corner_wrap_reaches_cursor(cursor: Cursor, corner: Cursor, height: usize)
    requires
        height > 0,
    ensures
        shows(corner_wrap(cursor, corner, height).y, height, cursor.y),
        !cursor.before(corner_wrap(cursor, corner, height)),
{
}

/// A cursor moved by `shift_cursor` lies in the window, where the window
/// has at least one cell.
pub proof fn lemma_cursor_pulled_in_window(cursor: Cursor, corner: Cursor, width: usize, height: usize)
    requires
        width > 0,
        height > 0,
    ensures
        in_window(corner, width, height, cursor_pulled(cursor, corner, width, height)),
{
}

/// Moving the corner after a cursor that already shows changes nothing.
pub proof fn lemma_corner_nowrap_keeps_visible(cursor: Cursor, corner: Cursor, width: usize, height: usize)
    requires
        in_window(corner, width, height, cursor),
    ensures
        corner_nowrap(cursor, corner, width, height) == corner,
{
}

} // verus!
