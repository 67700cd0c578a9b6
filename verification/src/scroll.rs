//! What a scroll request does to the corner of a viewport and to the cursor
//! that leads it.
//!
//! Each request is described here as a function from the viewport, the
//! lines of the text and the cursor to the new corner and the new cursor.

use vstd::prelude::*;
use crate::base::{Axis, EditContext, MoveDir2D, MovePosition, ScrollSize, ScrollStyle};
use crate::buffer::{clamped, holdable, legal, valid_lines};
use crate::cursor::Cursor;
use crate::viewport::{
    clip,
    corner_following,
    cursor_pulled,
    in_window,
    shows,
    ViewportContext,
};

verus! {

/// The number of cells that `count` units of `size` are, in a view of `extent` cells.
pub open spec fn scroll_amount(size: ScrollSize, count: usize, extent: usize) -> usize {
    match size {
        ScrollSize::Cell => count,
        ScrollSize::HalfPage => clip(count * extent) / 2,
        ScrollSize::Page => clip(count * extent),
    }
}

/// The corner of `viewctx`, moved by `rows` or `cols` cells in direction `dir`.
///
/// A wrapping view does not move sideways.
pub open spec fn corner_scrolled(viewctx: ViewportContext, dir: MoveDir2D, rows: usize, cols: usize) -> Cursor {
    let corner = viewctx.corner;
    match dir {
        MoveDir2D::Up => Cursor { y: clip(corner.y - rows), x: corner.x },
        MoveDir2D::Down => Cursor { y: clip(corner.y + rows), x: corner.x },
        MoveDir2D::Left => if viewctx.wrap {
            corner
        } else {
            Cursor { y: corner.y, x: clip(corner.x - cols) }
        },
        MoveDir2D::Right => if viewctx.wrap {
            corner
        } else {
            Cursor { y: corner.y, x: clip(corner.x + cols) }
        },
    }
}

/// The corner after the first step of a directional scroll by `count` units of `size`.
pub open spec fn dirscroll_start(viewctx: ViewportContext, dir: MoveDir2D, size: ScrollSize, count: usize) -> Cursor {
    corner_scrolled(
        viewctx,
        dir,
        scroll_amount(size, count, viewctx.dimensions.1),
        scroll_amount(size, count, viewctx.dimensions.0),
    )
}

/// The leader after a directional scroll: pulled into the moved window,
/// then made legal in the text.
pub open spec fn dirscroll_cursor(
    viewctx: ViewportContext,
    lines: Seq<Seq<char>>,
    leader: Cursor,
    dir: MoveDir2D,
    size: ScrollSize,
    count: usize,
) -> Cursor {
    clamped(
        lines,
        cursor_pulled(
            leader,
            dirscroll_start(viewctx, dir, size, count),
            viewctx.dimensions.0,
            viewctx.dimensions.1,
        ),
    )
}

/// The corner after a directional scroll: moved, then moved again to
/// follow the leader that the scroll leaves.
pub open spec fn dirscroll_corner(
    viewctx: ViewportContext,
    lines: Seq<Seq<char>>,
    leader: Cursor,
    dir: MoveDir2D,
    size: ScrollSize,
    count: usize,
) -> Cursor {
    corner_following(
        ViewportContext {
            corner: dirscroll_start(viewctx, dir, size, count),
            dimensions: viewctx.dimensions,
            wrap: viewctx.wrap,
        },
        dirscroll_cursor(viewctx, lines, leader, dir, size, count),
        viewctx.dimensions.0,
        viewctx.dimensions.1,
    )
}

/// The corner coordinate from which `extent` cells show `coord` at `pos`:
/// `coord` itself for the beginning; for the middle and the end the
/// coordinate behind `coord`, less one half of `extent` or all of it. Each
/// of the two steps stops at the bounds of a coordinate.
pub open spec fn anchor(pos: MovePosition, coord: usize, extent: usize) -> usize {
    match pos {
        MovePosition::Beginning => coord,
        MovePosition::Middle => clip(clip(coord + 1) - extent / 2),
        MovePosition::End => clip(clip(coord + 1) - extent),
    }
}

/// The corner after a request to show `cursor` at `pos` along `axis`.
///
/// The corner first follows the cursor. Then its coordinate along `axis`
/// is anchored. A wrapping view ignores a request along the horizontal axis.
pub open spec fn cursorpos_corner(viewctx: ViewportContext, cursor: Cursor, pos: MovePosition, axis: Axis) -> Cursor {
    let followed = corner_following(viewctx, cursor, viewctx.dimensions.0, viewctx.dimensions.1);
    match axis {
        Axis::Horizontal => if viewctx.wrap {
            viewctx.corner
        } else {
            Cursor { y: followed.y, x: anchor(pos, cursor.x, viewctx.dimensions.0) }
        },
        Axis::Vertical => Cursor { y: anchor(pos, cursor.y, viewctx.dimensions.1), x: followed.x },
    }
}

/// The index of line number `count`, counted from one, in a text of `lines`
/// lines; the last line where `count` is larger, the first where it is zero.
pub open spec fn target_line(count: usize, lines: nat) -> usize {
    let n = if count <= lines {
        count as int
    } else {
        lines as int
    };
    clip(n - 1)
}

/// The corner after a jump to `line`, shown at `pos`.
pub open spec fn linepos_corner(viewctx: ViewportContext, line: usize, pos: MovePosition) -> Cursor {
    Cursor { y: anchor(pos, line, viewctx.dimensions.1), x: viewctx.corner.x }
}

/// The corner that a scroll request leaves.
pub open spec fn scroll_corner(
    viewctx: ViewportContext,
    lines: Seq<Seq<char>>,
    leader: Cursor,
    style: ScrollStyle,
    ctx: EditContext,
) -> Cursor {
    match style {
        ScrollStyle::Direction2D(dir, size, count) => dirscroll_corner(
            viewctx,
            lines,
            leader,
            dir,
            size,
            ctx.resolved(count),
        ),
        ScrollStyle::CursorPos(pos, axis) => cursorpos_corner(viewctx, leader, pos, axis),
        ScrollStyle::LinePos(pos, count) => linepos_corner(
            viewctx,
            target_line(ctx.resolved(count), lines.len()),
            pos,
        ),
    }
}

/// The leader that a scroll request leaves.
pub open spec fn scroll_cursor(
    viewctx: ViewportContext,
    lines: Seq<Seq<char>>,
    leader: Cursor,
    style: ScrollStyle,
    ctx: EditContext,
) -> Cursor {
    match style {
        ScrollStyle::Direction2D(dir, size, count) => dirscroll_cursor(
            viewctx,
            lines,
            leader,
            dir,
            size,
            ctx.resolved(count),
        ),
        ScrollStyle::CursorPos(_, _) => leader,
        ScrollStyle::LinePos(_, count) => Cursor { y: target_line(ctx.resolved(count), lines.len()), x: 0 },
    }
}

/// Computes `scroll_amount`.
pub fn scroll_cells(size: ScrollSize, count: usize, extent: usize) -> (n: usize)
    ensures
        n == scroll_amount(size, count, extent),
{
    match size {
        ScrollSize::Cell => count,
        ScrollSize::HalfPage => match count.checked_mul(extent) {
            Some(cells) => cells / 2,
            None => usize::MAX / 2,
        },
        ScrollSize::Page => match count.checked_mul(extent) {
            Some(cells) => cells,
            None => usize::MAX,
        },
    }
}

/// Computes `anchor`.
pub fn anchor_at(pos: MovePosition, coord: usize, extent: usize) -> (c: usize)
    ensures
        c == anchor(pos, coord, extent),
{
    match pos {
        MovePosition::Beginning => coord,
        MovePosition::Middle => coord.saturating_add(1).saturating_sub(extent / 2),
        MovePosition::End => coord.saturating_add(1).saturating_sub(extent),
    }
}

/// Computes `target_line`.
pub fn line_index(count: usize, lines: usize) -> (line: usize)
    ensures
        line == target_line(count, lines as nat),
{
    let n: usize = if count <= lines { count } else { lines };
    n.saturating_sub(1)
}

/// Whether a view of `extent` cells can show a coordinate at `pos`: it
/// has a cell, and for the middle it has two.
pub open spec fn can_anchor(pos: MovePosition, extent: usize) -> bool {
    match pos {
        MovePosition::Middle => extent >= 2,
        _ => extent >= 1,
    }
}

/// An anchored corner coordinate shows the coordinate it was anchored to,
/// and is no larger.
pub proof fn lemma_anchor_shows(pos: MovePosition, coord: usize, extent: usize)
    requires
        can_anchor(pos, extent),
        coord < usize::MAX,
    ensures
        shows(anchor(pos, coord, extent), extent, coord),
        anchor(pos, coord, extent) <= coord,
{
}

/// Whether a view can show the leader where request `style` asks for it.
///
/// A scroll in a direction always can. To show the cursor at a place, the
/// cursor has to be legal and the view needs the cells for that place
/// along the axis; a wrapping view is not asked along the horizontal axis.
/// A jump needs the rows for the place.
pub open spec fn can_show(viewctx: ViewportContext, lines: Seq<Seq<char>>, leader: Cursor, style: ScrollStyle) -> bool {
    match style {
        ScrollStyle::Direction2D(_, _, _) => true,
        ScrollStyle::CursorPos(pos, axis) => legal(lines, leader) && match axis {
            Axis::Horizontal => !viewctx.wrap && can_anchor(pos, viewctx.dimensions.0),
            Axis::Vertical => can_anchor(pos, viewctx.dimensions.1),
        },
        ScrollStyle::LinePos(pos, _) => can_anchor(pos, viewctx.dimensions.1),
    }
}

/// A scroll request leaves a legal leader: a scroll in a direction and a
/// jump make it legal, and a request to show the cursor at a place leaves
/// it as it was.
pub proof fn lemma_scroll_leaves_legal_cursor(
    viewctx: ViewportContext,
    lines: Seq<Seq<char>>,
    leader: Cursor,
    style: ScrollStyle,
    ctx: EditContext,
)
    requires
        valid_lines(lines),
        lines.len() <= usize::MAX,
        style is CursorPos ==> legal(lines, leader),
    ensures
        legal(lines, scroll_cursor(viewctx, lines, leader, style, ctx)),
{
}

/// After a scroll request that the view can show, the leader is legal,
/// and its line is one of the lines that the view reaches from its
/// corner: the corner's line is a line of the text. This holds with
/// wrapping and without, in a view that has at least one row.
pub proof fn lemma_scroll_reaches_cursor(
    viewctx: ViewportContext,
    lines: Seq<Seq<char>>,
    leader: Cursor,
    style: ScrollStyle,
    ctx: EditContext,
)
    requires
        valid_lines(lines),
        lines.len() <= usize::MAX,
        viewctx.dimensions.1 > 0,
        can_show(viewctx, lines, leader, style),
    ensures
        legal(lines, scroll_cursor(viewctx, lines, leader, style, ctx)),
        shows(
            scroll_corner(viewctx, lines, leader, style, ctx).y,
            viewctx.dimensions.1,
            scroll_cursor(viewctx, lines, leader, style, ctx).y,
        ),
        scroll_corner(viewctx, lines, leader, style, ctx).y < lines.len(),
{
}

/// After a scroll request that the view can show, in a view without
/// wrapping that has at least one cell, the leader lies in the window,
/// and the corner's column is a column of the leader's line. A jump leaves
/// the corner's column alone, so that it has to be the first column.
pub proof fn lemma_scroll_shows_cursor(
    viewctx: ViewportContext,
    lines: Seq<Seq<char>>,
    leader: Cursor,
    style: ScrollStyle,
    ctx: EditContext,
)
    requires
        valid_lines(lines),
        holdable(lines),
        !viewctx.wrap,
        viewctx.dimensions.0 > 0,
        viewctx.dimensions.1 > 0,
        can_show(viewctx, lines, leader, style),
        style is LinePos ==> viewctx.corner.x == 0,
    ensures
        in_window(
            scroll_corner(viewctx, lines, leader, style, ctx),
            viewctx.dimensions.0,
            viewctx.dimensions.1,
            scroll_cursor(viewctx, lines, leader, style, ctx),
        ),
        legal(
            lines,
            Cursor {
                y: scroll_cursor(viewctx, lines, leader, style, ctx).y,
                x: scroll_corner(viewctx, lines, leader, style, ctx).x,
            },
        ),
{
}

/// A request to show the cursor at a place fixes the corner's coordinate
/// along the axis from the cursor and the size of the view alone: two
/// viewports of one size give the same coordinate, wherever their corners
/// were. A wrapping view is not asked along the horizontal axis.
pub proof fn lemma_cursorpos_ignores_corner(
    first: ViewportContext,
    second: ViewportContext,
    cursor: Cursor,
    pos: MovePosition,
    axis: Axis,
)
    requires
        first.dimensions == second.dimensions,
        first.wrap == second.wrap,
    ensures
        axis == Axis::Vertical ==> cursorpos_corner(first, cursor, pos, axis).y == cursorpos_corner(
            second,
            cursor,
            pos,
            axis,
        ).y,
        axis == Axis::Horizontal && !first.wrap ==> cursorpos_corner(first, cursor, pos, axis).x
            == cursorpos_corner(second, cursor, pos, axis).x,
{
}

/// Showing the cursor at a place twice leaves the corner where the first
/// request put it, in a view without wrapping that has at least one cell.
pub proof fn lemma_cursorpos_twice(viewctx: ViewportContext, cursor: Cursor, pos: MovePosition, axis: Axis)
    requires
        !viewctx.wrap,
        viewctx.dimensions.0 > 0,
        viewctx.dimensions.1 > 0,
    ensures
        cursorpos_corner(
            ViewportContext {
                corner: cursorpos_corner(viewctx, cursor, pos, axis),
                dimensions: viewctx.dimensions,
                wrap: viewctx.wrap,
            },
            cursor,
            pos,
            axis,
        ) == cursorpos_corner(viewctx, cursor, pos, axis),
{
}

} // verus!
