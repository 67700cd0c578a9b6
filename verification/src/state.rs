//! The state of one view on a buffer.

use vstd::prelude::*;
use crate::base::{Axis, Count, EditContext, MoveDir2D, MovePosition, ScrollSize, ScrollStyle};
use crate::buffer::{text_of, terminated, valid_lines, EditBuffer};
use crate::cursor::Cursor;
use crate::layout::{rows_of_line, rows_of_lines};
use crate::rect::Rect;
use crate::scroll::{
    anchor_at,
    cursorpos_corner,
    dirscroll_corner,
    dirscroll_cursor,
    line_index,
    linepos_corner,
    scroll_cells,
    scroll_corner,
    scroll_cursor,
    target_line,
};
use crate::viewport::{shift_corner, shift_cursor, ViewportContext};

verus! {

/// The state of one view: the cursor group that it shows, its viewport,
/// and where on the screen it was last drawn.
///
/// The buffer that the view shows is handed to each operation. A view
/// made on a buffer is used with that buffer: its group is one of the
/// buffer's.
#[derive(Clone, Copy, Debug)]
pub struct TextBoxState {
    /// The cursor group of this view in its buffer.
    pub group_id: usize,
    /// The part of the text that the view shows.
    pub viewctx: ViewportContext,
    /// The region of the screen that the text was last drawn in.
    pub term_area: Rect,
    /// The cell of the screen that the leader was last drawn in.
    pub term_cursor: (u16, u16),
}

/// The number of rows that a view needs to show all of `lines`, but no
/// more than `max`. A wrapping view without columns needs none.
pub open spec fn rows_needed(viewctx: ViewportContext, lines: Seq<Seq<char>>, max: usize) -> usize {
    if viewctx.wrap {
        if viewctx.dimensions.0 == 0 {
            0
        } else if rows_of_lines(lines, viewctx.dimensions.0) <= max {
            rows_of_lines(lines, viewctx.dimensions.0) as usize
        } else {
            max
        }
    } else if lines.len() <= max {
        lines.len() as usize
    } else {
        max
    }
}

/// The rows of the first lines of a text are no more than the rows of all of it.
proof fn lemma_rows_grow(lines: Seq<Seq<char>>, width: usize, n: int)
    requires
        0 <= n <= lines.len(),
    ensures
        rows_of_lines(lines.take(n), width) <= rows_of_lines(lines, width),
    decreases lines.len(),
{
    if n == lines.len() {
        assert(lines.take(n) =~= lines);
    } else {
        lemma_rows_grow(lines.drop_last(), width, n);
        assert(lines.drop_last().take(n) =~= lines.take(n));
    }
}

impl TextBoxState {
    /// Whether `other` differs from `self` in the corner of its viewport at most.
    pub open spec fn same_but_corner(&self, other: &TextBoxState) -> bool {
        &&& self.group_id == other.group_id
        &&& self.viewctx.dimensions == other.viewctx.dimensions
        &&& self.viewctx.wrap == other.viewctx.wrap
        &&& self.term_area == other.term_area
        &&& self.term_cursor == other.term_cursor
    }

    /// Whether `other` differs from `self` in the corner of its viewport
    /// and in the cell of the cursor at most.
    pub open spec fn same_but_corner_and_cell(&self, other: &TextBoxState) -> bool {
        &&& self.group_id == other.group_id
        &&& self.viewctx.dimensions == other.viewctx.dimensions
        &&& self.viewctx.wrap == other.viewctx.wrap
        &&& self.term_area == other.term_area
    }

    /// A view on `buffer`, with a cursor group of its own: at the start of
    /// the text, wrapping, and not drawn yet.
    pub fn new(buffer: &mut EditBuffer) -> (state: TextBoxState)
        ensures
            state.group_id == old(buffer).group_count(),
            state.viewctx.corner == (Cursor { y: 0, x: 0 }),
            state.viewctx.dimensions == (0usize, 0usize),
            state.viewctx.wrap,
            state.term_area == (Rect { x: 0, y: 0, width: 0, height: 0 }),
            state.term_cursor == (0u16, 0u16),
            final(buffer).has_group(state.group_id),
            final(buffer).leader(state.group_id) == (Cursor { y: 0, x: 0 }),
            final(buffer).followers(state.group_id).len() == 0,
            final(buffer).selections(state.group_id).len() == 0,
            final(buffer).same_text(old(buffer)),
            final(buffer).group_count() == old(buffer).group_count() + 1,
            forall|g: usize| old(buffer).has_group(g) ==> final(buffer).same_group(old(buffer), g),
    {
        let group_id = buffer.create_group();
        let mut viewctx = ViewportContext::default();

        viewctx.set_wrap(true);

        TextBoxState { group_id, viewctx, term_area: Rect::default(), term_cursor: (0, 0) }
    }

    /// The text of `buffer`.
    pub fn get_text(&self, buffer: &EditBuffer) -> (s: String)
        ensures
            s@ == text_of(buffer.lines()),
    {
        buffer.get_text()
    }

    /// Replaces the text of `buffer`; see `EditBuffer::set_text`.
    pub fn set_text(&self, buffer: &mut EditBuffer, text: &str)
        ensures
            valid_lines(final(buffer).lines()),
            text_of(final(buffer).lines()) == terminated(text@),
            final(buffer).groups_at_start(),
            final(buffer).group_count() == old(buffer).group_count(),
    {
        buffer.set_text(text)
    }

    /// Empties the text of `buffer` and returns what was there; see
    /// `EditBuffer::reset_text`.
    pub fn reset_text(&self, buffer: &mut EditBuffer) -> (s: String)
        ensures
            s@ == text_of(old(buffer).lines()),
            final(buffer).lines() == seq![Seq::<char>::empty()],
            final(buffer).groups_at_start(),
            final(buffer).group_count() == old(buffer).group_count(),
    {
        buffer.reset_text()
    }

    /// Switches wrapping on or off.
    pub fn set_wrap(&mut self, wrap: bool)
        ensures
            final(self).viewctx.wrap == wrap,
            final(self).viewctx.corner == old(self).viewctx.corner,
            final(self).same_but_wrap(old(self)),
    {
        self.viewctx.set_wrap(wrap);
    }

    /// Whether `other` differs from `self` in the wrap flag and the corner at most.
    pub open spec fn same_but_wrap(&self, other: &TextBoxState) -> bool {
        &&& self.group_id == other.group_id
        &&& self.viewctx.dimensions == other.viewctx.dimensions
        &&& self.term_area == other.term_area
        &&& self.term_cursor == other.term_cursor
    }

    /// Records the region of the screen that the text is drawn in, and
    /// gives the viewport its size.
    pub fn set_term_info(&mut self, area: Rect)
        ensures
            final(self).viewctx.dimensions == (area.width as usize, area.height as usize),
            final(self).term_area == area,
            final(self).group_id == old(self).group_id,
            final(self).viewctx.corner == old(self).viewctx.corner,
            final(self).viewctx.wrap == old(self).viewctx.wrap,
            final(self).term_cursor == old(self).term_cursor,
    {
        self.viewctx.dimensions = (area.width as usize, area.height as usize);
        self.term_area = area;
    }

    /// The leader of this view's cursor group.
    pub fn get_cursor(&self, buffer: &EditBuffer) -> (c: Cursor)
        requires
            buffer.has_group(self.group_id),
        ensures
            c == buffer.leader(self.group_id),
    {
        buffer.get_leader(self.group_id)
    }

    /// The number of lines of `buffer`.
    pub fn get_lines(&self, buffer: &EditBuffer) -> (n: usize)
        ensures
            n == buffer.lines().len(),
            n >= 1,
    {
        buffer.get_lines()
    }

    /// The number of rows that this view needs to show all of the text of
    /// `buffer`, but no more than `max`.
    pub fn has_lines(&self, buffer: &EditBuffer, max: usize) -> (n: usize)
        ensures
            n == rows_needed(self.viewctx, buffer.lines(), max),
    {
        let lines: usize = buffer.get_lines();
        if self.viewctx.wrap {
            let width: usize = self.viewctx.get_width();
            let mut count: usize = 0;

            if width == 0 {
                return count;
            }
            let mut i: usize = 0;
            assert(buffer.lines().take(0) =~= Seq::<Seq<char>>::empty());
            while i < lines
                invariant
                    i <= lines,
                    lines == buffer.lines().len(),
                    width > 0,
                    width == self.viewctx.dimensions.0,
                    self.viewctx.wrap,
                    count == rows_of_lines(buffer.lines().take(i as int), width),
                    i > 0 ==> count < max,
                decreases lines - i,
            {
                let len: usize = buffer.line(i).len();
                let extra: usize = len.saturating_sub(1) / width;
                proof {
                    let next = buffer.lines().take(i + 1);
                    assert(next.drop_last() =~= buffer.lines().take(i as int));
                    assert(next.last() == buffer.lines()[i as int]);
                    assert(rows_of_line(len as nat, width) == 1 + extra);
                    lemma_rows_grow(buffer.lines(), width, i + 1);
                }
                count = count.saturating_add(1).saturating_add(extra);

                if count >= max {
                    return max;
                }
                i += 1;
            }
            assert(buffer.lines().take(lines as int) =~= buffer.lines());

            count
        } else if lines <= max {
            lines
        } else {
            max
        }
    }

    /// Moves the viewport by `count` units of `size` in direction `dir`,
    /// and the leader with it where it would leave the window.
    ///
    /// The corner moves first. The leader is pulled into the moved window
    /// and made legal in the text. The corner then follows the leader, so
    /// that a scroll past the text stops where the text does.
    pub fn dirscroll(
        &mut self,
        buffer: &mut EditBuffer,
        dir: MoveDir2D,
        size: ScrollSize,
        count: &Count,
        ctx: &EditContext,
    )
        requires
            old(buffer).has_group(old(self).group_id),
        ensures
            final(self).viewctx.corner == dirscroll_corner(
                old(self).viewctx,
                old(buffer).lines(),
                old(buffer).leader(old(self).group_id),
                dir,
                size,
                ctx.resolved(*count),
            ),
            final(buffer).leader(old(self).group_id) == dirscroll_cursor(
                old(self).viewctx,
                old(buffer).lines(),
                old(buffer).leader(old(self).group_id),
                dir,
                size,
                ctx.resolved(*count),
            ),
            final(self).same_but_corner(old(self)),
            final(buffer).same_but_leader(old(buffer), old(self).group_id),
    {
        let count: usize = ctx.resolve(count);

        let height: usize = self.viewctx.dimensions.1;
        let rows: usize = scroll_cells(size, count, height);

        let width: usize = self.viewctx.dimensions.0;
        let cols: usize = scroll_cells(size, count, width);

        match dir {
            MoveDir2D::Up => self.viewctx.corner.up(rows),
            MoveDir2D::Down => self.viewctx.corner.down(rows),
            MoveDir2D::Left => if !self.viewctx.wrap {
                self.viewctx.corner.left(cols)
            },
            MoveDir2D::Right => if !self.viewctx.wrap {
                self.viewctx.corner.right(cols)
            },
        }

        let mut cursor = buffer.get_leader(self.group_id);
        shift_cursor(&mut cursor, &self.viewctx.corner, width, height);
        buffer.clamp(&mut cursor);
        shift_corner(&mut self.viewctx, &cursor, width, height);
        buffer.set_leader(self.group_id, cursor);
    }

    /// Moves the viewport so that the leader shows at `pos` along `axis`.
    /// The leader stays where it is. A wrapping view ignores a request
    /// along the horizontal axis.
    pub fn cursorpos(&mut self, buffer: &EditBuffer, pos: MovePosition, axis: Axis)
        requires
            buffer.has_group(old(self).group_id),
        ensures
            final(self).viewctx.corner == cursorpos_corner(
                old(self).viewctx,
                buffer.leader(old(self).group_id),
                pos,
                axis,
            ),
            final(self).same_but_corner(old(self)),
    {
        if axis == Axis::Horizontal && self.viewctx.wrap {
            return ;
        }
        let width: usize = self.viewctx.dimensions.0;
        let height: usize = self.viewctx.dimensions.1;
        let cursor = buffer.get_leader(self.group_id);
        shift_corner(&mut self.viewctx, &cursor, width, height);

        match axis {
            Axis::Horizontal => {
                self.viewctx.corner.set_x(anchor_at(pos, cursor.x, width));
            },
            Axis::Vertical => {
                self.viewctx.corner.set_y(anchor_at(pos, cursor.y, height));
            },
        }
    }

    /// Jumps to line number `count`, counted from one, or to the last line
    /// where the text has fewer: the leader goes to the start of that
    /// line, and the viewport shows the line at `pos`.
    pub fn linepos(&mut self, buffer: &mut EditBuffer, pos: MovePosition, count: &Count, ctx: &EditContext)
        requires
            old(buffer).has_group(old(self).group_id),
        ensures
            final(buffer).leader(old(self).group_id) == (Cursor {
                y: target_line(ctx.resolved(*count), old(buffer).lines().len()),
                x: 0,
            }),
            final(self).viewctx.corner == linepos_corner(
                old(self).viewctx,
                target_line(ctx.resolved(*count), old(buffer).lines().len()),
                pos,
            ),
            final(self).same_but_corner(old(self)),
            final(buffer).same_but_leader(old(buffer), old(self).group_id),
    {
        let max: usize = buffer.get_lines();
        let line: usize = line_index(ctx.resolve(count), max);

        let height: usize = self.viewctx.dimensions.1;

        buffer.set_leader(self.group_id, Cursor::new(line, 0));

        self.viewctx.corner.set_y(anchor_at(pos, line, height));
    }

    /// Carries out a scroll request: see `dirscroll`, `cursorpos` and `linepos`.
    pub fn scroll(&mut self, buffer: &mut EditBuffer, style: &ScrollStyle, ctx: &EditContext)
        requires
            old(buffer).has_group(old(self).group_id),
        ensures
            final(self).viewctx.corner == scroll_corner(
                old(self).viewctx,
                old(buffer).lines(),
                old(buffer).leader(old(self).group_id),
                *style,
                *ctx,
            ),
            final(buffer).leader(old(self).group_id) == scroll_cursor(
                old(self).viewctx,
                old(buffer).lines(),
                old(buffer).leader(old(self).group_id),
                *style,
                *ctx,
            ),
            final(self).same_but_corner(old(self)),
            final(buffer).same_but_leader(old(buffer), old(self).group_id),
    {
        match style {
            ScrollStyle::Direction2D(dir, size, count) => {
                self.dirscroll(buffer, *dir, *size, count, ctx);
            },
            ScrollStyle::CursorPos(pos, axis) => {
                self.cursorpos(buffer, *pos, *axis);
            },
            ScrollStyle::LinePos(pos, count) => {
                self.linepos(buffer, *pos, count, ctx);
            },
        }
    }

    /// The cell of the screen that the leader was last drawn in.
    pub fn get_term_cursor(&self) -> (cell: (u16, u16))
        ensures
            cell == self.term_cursor,
    {
        self.term_cursor
    }

    /// Closes the view. A view holds nothing that has to be saved, so
    /// this always succeeds.
    pub fn close(&mut self) -> (closed: bool)
        ensures
            closed,
            *final(self) == *old(self),
    {
        true
    }

    /// A second view on `buffer`: it shares the text, has a cursor group of
    /// its own at the start of the text and the same viewport, and is not
    /// drawn yet.
    pub fn dup(&self, buffer: &mut EditBuffer) -> (state: TextBoxState)
        ensures
            state.group_id == old(buffer).group_count(),
            state.viewctx == self.viewctx,
            state.term_area == (Rect { x: 0, y: 0, width: 0, height: 0 }),
            state.term_cursor == (0u16, 0u16),
            final(buffer).has_group(state.group_id),
            final(buffer).leader(state.group_id) == (Cursor { y: 0, x: 0 }),
            final(buffer).followers(state.group_id).len() == 0,
            final(buffer).selections(state.group_id).len() == 0,
            final(buffer).same_text(old(buffer)),
            final(buffer).group_count() == old(buffer).group_count() + 1,
            forall|g: usize| old(buffer).has_group(g) ==> final(buffer).same_group(old(buffer), g),
    {
        let group_id = buffer.create_group();

        TextBoxState { group_id, viewctx: self.viewctx, term_area: Rect::default(), term_cursor: (0, 0) }
    }
}

} // verus!
