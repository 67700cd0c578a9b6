//! What drawing a view does: to the view, and to the screen.
//!
//! The functions here describe a drawing. The rows of the text come from
//! the layout. The view takes the size of the region that it is drawn in,
//! its corner follows the cursor, and it records the cell in which the
//! cursor shows. On the screen, the text of each row is written, and the
//! cells in which a follower or a selection shows are shown in reverse.

use vstd::prelude::*;
use tui::buffer::Buffer;
use crate::base::{EditContext, ScrollStyle};
use crate::buffer::{holdable, legal, valid_lines, Selection};
use crate::cursor::Cursor;
use crate::highlight::{covers, in_row, span_of};
use crate::layout::{
    has_cursor,
    lemma_wrap_corner_in_text,
    lemma_wrap_rows_fit,
    lemma_wrap_rows_hold_cursor,
    nowrap_rows,
    reachable,
    segment_text,
    wrap_corner,
    wrap_rows,
    Segment,
};
use crate::rect::Rect;
use crate::screen::{cell_in, screen_area, screen_reversed, screen_symbols, symbols_written};
use crate::scroll::{lemma_scroll_leaves_legal_cursor, scroll_corner, scroll_cursor};
use crate::state::TextBoxState;
use crate::viewport::{
    corner_nowrap,
    corner_wrap,
    lemma_corner_nowrap_shows_cursor,
    lemma_corner_wrap_reaches_cursor,
    ViewportContext,
};

verus! {

/// The screen coordinate nearest to `n`.
pub open spec fn clip16(n: int) -> u16 {
    if n < 0 {
        0
    } else if n > u16::MAX {
        u16::MAX
    } else {
        n as u16
    }
}

/// The width of the gutter that a prompt of `bytes` bytes takes.
pub open spec fn gutter_width(bytes: usize) -> u16 {
    clip16(bytes as int)
}

/// The region that is left for the text when a gutter of `gutter` columns
/// is taken off the left of `inner`.
pub open spec fn text_region(inner: Rect, gutter: u16) -> Rect {
    Rect {
        x: clip16(inner.x + gutter),
        y: inner.y,
        width: clip16(inner.width - gutter),
        height: inner.height,
    }
}

/// The corner of a viewport after its text was drawn in `area`: it
/// follows the cursor, and a wrapping view then moves it to the first of
/// its rows.
pub open spec fn drawn_corner(viewctx: ViewportContext, lines: Seq<Seq<char>>, cursor: Cursor, area: Rect) -> Cursor {
    let width = area.width as usize;
    let height = area.height as usize;
    if viewctx.wrap {
        wrap_corner(lines, cursor, corner_wrap(cursor, viewctx.corner, height), width, height)
    } else {
        corner_nowrap(cursor, viewctx.corner, width, height)
    }
}

/// The rows that a viewport shows when its text is drawn in `area`.
pub open spec fn drawn_rows(viewctx: ViewportContext, lines: Seq<Seq<char>>, cursor: Cursor, area: Rect) -> Seq<
    Segment,
> {
    let width = area.width as usize;
    let height = area.height as usize;
    if viewctx.wrap {
        wrap_rows(lines, cursor, corner_wrap(cursor, viewctx.corner, height), width, height)
    } else {
        nowrap_rows(lines, cursor, corner_nowrap(cursor, viewctx.corner, width, height), width, height)
    }
}

/// The cell in which the cursor shows on row number `row` of `area`, where
/// that row shows `seg`.
pub open spec fn cell_of(cursor: Cursor, area: Rect, seg: Segment, row: int) -> (u16, u16) {
    (clip16(area.x + cursor.x.saturating_sub(seg.start)), clip16(area.y + row))
}

/// The cell of the screen in which the cursor shows when `rows` are drawn
/// in `area`: its cell on the last row that holds it, or `before` where
/// no row does.
pub open spec fn cursor_cell(rows: Seq<Segment>, cursor: Cursor, area: Rect, before: (u16, u16)) -> (u16, u16)
    decreases rows.len(),
{
    if rows.len() == 0 {
        before
    } else if rows.last().cursor_line {
        cell_of(cursor, area, rows.last(), rows.len() - 1)
    } else {
        cursor_cell(rows.drop_last(), cursor, area, before)
    }
}

/// The state of a view after its text was drawn in `area`.
pub open spec fn drawn_state(state: TextBoxState, lines: Seq<Seq<char>>, cursor: Cursor, area: Rect) -> TextBoxState {
    TextBoxState {
        group_id: state.group_id,
        viewctx: ViewportContext {
            corner: drawn_corner(state.viewctx, lines, cursor, area),
            dimensions: (area.width as usize, area.height as usize),
            wrap: state.viewctx.wrap,
        },
        term_area: area,
        term_cursor: cursor_cell(drawn_rows(state.viewctx, lines, cursor, area), cursor, area, state.term_cursor),
    }
}

/// The state of a view after it was drawn in `inner` behind a prompt of
/// `bytes` bytes: as it was where the prompt leaves no cell for the text,
/// else as drawing the text in the rest of `inner` leaves it.
pub open spec fn rendered_state(
    state: TextBoxState,
    lines: Seq<Seq<char>>,
    cursor: Cursor,
    bytes: usize,
    inner: Rect,
) -> TextBoxState {
    let gutter = gutter_width(bytes);
    if inner.width <= gutter || inner.height == 0 {
        state
    } else {
        drawn_state(state, lines, cursor, text_region(inner, gutter))
    }
}

/// The cell in which a follower shows on a row that is drawn from the
/// cell at column `x` and row `y` on, and shows the columns of `line` from
/// `start` up to, and without, `end`; none where the follower does not
/// stand in the row.
pub open spec fn follower_patch(follower: Cursor, line: usize, start: usize, end: usize, x: u16, y: u16) -> Option<
    Rect,
> {
    if in_row(follower, line, start, end) {
        Some(Rect { x: clip16(x + follower.x - start), y, width: 1, height: 1 })
    } else {
        None
    }
}

/// The cells in which a selection shows on such a row; none where the
/// selection does not reach over the line, or highlights no column of the row.
pub open spec fn selection_patch(sel: Selection, line: usize, start: usize, end: usize, x: u16, y: u16) -> Option<
    Rect,
> {
    if covers(sel, line) {
        match span_of(sel, line, start, end) {
            Some(span) => Some(
                Rect {
                    x: clip16(x + span.first - start),
                    y,
                    width: clip16(span.last - span.first + 1),
                    height: 1,
                },
            ),
            None => None,
        }
    } else {
        None
    }
}

/// The cells in which each of `followers` shows on such a row.
pub open spec fn follower_patches(followers: Seq<Cursor>, line: usize, start: usize, end: usize, x: u16, y: u16) -> Seq<
    Option<Rect>,
> {
    Seq::new(followers.len(), |j: int| follower_patch(followers[j], line, start, end, x, y))
}

/// The cells in which each of `selections` shows on such a row.
pub open spec fn selection_patches(
    selections: Seq<Selection>,
    line: usize,
    start: usize,
    end: usize,
    x: u16,
    y: u16,
) -> Seq<Option<Rect>> {
    Seq::new(selections.len(), |j: int| selection_patch(selections[j], line, start, end, x, y))
}

/// Whether `cell` is one of the cells of `patch`.
pub open spec fn lights(patch: Option<Rect>, cell: (u16, u16)) -> bool {
    patch matches Some(area) && cell_in(area, cell)
}

/// Whether `cell` is a cell of one of `patches`.
pub open spec fn lit_in(patches: Seq<Option<Rect>>, cell: (u16, u16)) -> bool {
    exists|j: int| 0 <= j < patches.len() && #[trigger] lights(patches[j], cell)
}

/// Whether a follower or a selection shows in `cell`, on the row that
/// shows `seg` from the cell at column `x` and row `y` on.
pub open spec fn row_lit(
    selections: Seq<Selection>,
    followers: Seq<Cursor>,
    seg: Segment,
    x: u16,
    y: u16,
    cell: (u16, u16),
) -> bool {
    lit_in(follower_patches(followers, seg.line, seg.start, seg.end, x, y), cell) || lit_in(
        selection_patches(selections, seg.line, seg.start, seg.end, x, y),
        cell,
    )
}

/// Whether a follower or a selection shows in `cell`, on row number `i` of
/// the rows `rows`, which are drawn in `area` one below the other.
pub open spec fn row_lit_at(
    rows: Seq<Segment>,
    selections: Seq<Selection>,
    followers: Seq<Cursor>,
    area: Rect,
    i: int,
    cell: (u16, u16),
) -> bool {
    row_lit(selections, followers, rows[i], area.x, clip16(area.y + i), cell)
}

/// Whether a follower or a selection shows in `cell`, when `rows` are
/// drawn in `area` one below the other.
pub open spec fn rows_lit(
    rows: Seq<Segment>,
    selections: Seq<Selection>,
    followers: Seq<Cursor>,
    area: Rect,
    cell: (u16, u16),
) -> bool {
    exists|i: int| 0 <= i < rows.len() && #[trigger] row_lit_at(rows, selections, followers, area, i, cell)
}

/// What drawing `rows` in `area`, itself a part of `inner`, does to the
/// cells that are shown in reverse. Each cell in which a follower or a
/// selection shows is shown in reverse afterwards. No other cell comes to
/// be. A cell outside of `inner` stays as it was.
pub open spec fn reversed_by(
    before: Buffer,
    after: Buffer,
    rows: Seq<Segment>,
    selections: Seq<Selection>,
    followers: Seq<Cursor>,
    area: Rect,
    inner: Rect,
) -> bool {
    &&& forall|cell: (u16, u16)|
        rows_lit(rows, selections, followers, area, cell) ==> #[trigger] screen_reversed(after).contains(cell)
    &&& forall|cell: (u16, u16)| #[trigger]
        screen_reversed(after).contains(cell) ==> screen_reversed(before).contains(cell) || rows_lit(
            rows,
            selections,
            followers,
            area,
            cell,
        )
    &&& forall|cell: (u16, u16)|
        screen_reversed(before).contains(cell) && !cell_in(inner, cell) ==> #[trigger] screen_reversed(
            after,
        ).contains(cell)
}

/// The characters that the cells of a screen hold after the first `n` of
/// `texts` were written into the rows of `area`, one below the other from
/// its top, where the cells held `before` and the screen stands for
/// `bounds`. A row without characters is not written.
pub open spec fn rows_written(
    before: Seq<Seq<char>>,
    bounds: (u16, u16, u16, u16),
    texts: Seq<Seq<char>>,
    area: Rect,
    n: int,
) -> Seq<Seq<char>>
    decreases n,
{
    if n <= 0 {
        before
    } else {
        let above = rows_written(before, bounds, texts, area, n - 1);
        if texts[n - 1].len() > 0 {
            symbols_written(above, bounds, area.x, clip16(area.y + n - 1), texts[n - 1], area.width as usize)
        } else {
            above
        }
    }
}

/// The characters of each of the rows at `segments`.
pub open spec fn row_texts(lines: Seq<Seq<char>>, segments: Seq<Segment>) -> Seq<Seq<char>> {
    Seq::new(segments.len(), |i: int| segment_text(lines, segments[i]))
}

/// What drawing a view in `inner`, behind `prompt`, which has `bytes`
/// bytes, does to the screen: nothing where the prompt leaves no cell for
/// the text. Else the prompt is written into the first row of `inner`,
/// the rows of the text are written behind the gutter, and the cells in
/// reverse are what `reversed_by` says.
pub open spec fn rendered_screen(
    before: Buffer,
    after: Buffer,
    state: TextBoxState,
    lines: Seq<Seq<char>>,
    cursor: Cursor,
    selections: Seq<Selection>,
    followers: Seq<Cursor>,
    prompt: Seq<char>,
    bytes: usize,
    inner: Rect,
) -> bool {
    let gutter = gutter_width(bytes);
    let area = text_region(inner, gutter);
    let rows = drawn_rows(state.viewctx, lines, cursor, area);
    if inner.width <= gutter || inner.height == 0 {
        after == before
    } else {
        &&& reversed_by(before, after, rows, selections, followers, area, inner)
        &&& screen_symbols(after) == rows_written(
            symbols_written(screen_symbols(before), screen_area(before), inner.x, inner.y, prompt, gutter as usize),
            screen_area(before),
            row_texts(lines, rows),
            area,
            rows.len() as int,
        )
    }
}

/// The rows that a view shows, in a region with at least one cell, hold
/// the cursor, wherever the corner was: with wrapping and without. The
/// cursor has to stand on a line of the text, on a character of the line
/// or behind its last one.
pub proof fn lemma_drawn_rows_hold_cursor(viewctx: ViewportContext, lines: Seq<Seq<char>>, cursor: Cursor, area: Rect)
    requires
        area.width > 0,
        area.height > 0,
        reachable(lines, cursor),
    ensures
        has_cursor(drawn_rows(viewctx, lines, cursor, area)),
        drawn_rows(viewctx, lines, cursor, area).len() <= area.height,
{
    let width = area.width as usize;
    let height = area.height as usize;
    let rows = drawn_rows(viewctx, lines, cursor, area);
    if viewctx.wrap {
        lemma_corner_wrap_reaches_cursor(cursor, viewctx.corner, height);
        lemma_wrap_rows_hold_cursor(lines, cursor, corner_wrap(cursor, viewctx.corner, height), width, height);
    } else {
        let corner = corner_nowrap(cursor, viewctx.corner, width, height);
        lemma_corner_nowrap_shows_cursor(cursor, viewctx.corner, width, height);
        assert(rows[cursor.y - corner.y].cursor_line);
    }
}

/// After a scroll request, the rows that the view shows when it is drawn
/// next hold the leader: with wrapping and without, wherever the request
/// left the corner. A request to show the cursor at a place does not move
/// the cursor, which has to be legal then.
pub proof fn lemma_scrolled_rows_hold_cursor(
    viewctx: ViewportContext,
    lines: Seq<Seq<char>>,
    leader: Cursor,
    style: ScrollStyle,
    ctx: EditContext,
    area: Rect,
)
    requires
        valid_lines(lines),
        lines.len() <= usize::MAX,
        area.width > 0,
        area.height > 0,
        style is CursorPos ==> legal(lines, leader),
    ensures
        has_cursor(
            drawn_rows(
                ViewportContext {
                    corner: scroll_corner(viewctx, lines, leader, style, ctx),
                    dimensions: viewctx.dimensions,
                    wrap: viewctx.wrap,
                },
                lines,
                scroll_cursor(viewctx, lines, leader, style, ctx),
                area,
            ),
        ),
{
    lemma_scroll_leaves_legal_cursor(viewctx, lines, leader, style, ctx);
    lemma_drawn_rows_hold_cursor(
        ViewportContext {
            corner: scroll_corner(viewctx, lines, leader, style, ctx),
            dimensions: viewctx.dimensions,
            wrap: viewctx.wrap,
        },
        lines,
        scroll_cursor(viewctx, lines, leader, style, ctx),
        area,
    );
}

/// After a view was drawn in a region with at least one cell, its corner
/// lies on a line of the text, wherever it was before. Without wrapping
/// it lies above and to the left of the cursor, or at it. With wrapping
/// it lies where it came to follow the cursor, or, where rows were left
/// out to reach the cursor, on a character or at the start of an empty line.
pub proof fn lemma_drawn_corner_in_text(viewctx: ViewportContext, lines: Seq<Seq<char>>, cursor: Cursor, area: Rect)
    requires
        area.width > 0,
        area.height > 0,
        holdable(lines),
        reachable(lines, cursor),
    ensures
        drawn_corner(viewctx, lines, cursor, area).y < lines.len(),
        !viewctx.wrap ==> drawn_corner(viewctx, lines, cursor, area).y <= cursor.y && drawn_corner(
            viewctx,
            lines,
            cursor,
            area,
        ).x <= cursor.x,
        viewctx.wrap ==> drawn_corner(viewctx, lines, cursor, area) == corner_wrap(
            cursor,
            viewctx.corner,
            area.height as usize,
        ) || drawn_corner(viewctx, lines, cursor, area).x == 0 || drawn_corner(viewctx, lines, cursor, area).x
            < lines[drawn_corner(viewctx, lines, cursor, area).y as int].len(),
{
    let width = area.width as usize;
    let height = area.height as usize;
    if viewctx.wrap {
        let followed = corner_wrap(cursor, viewctx.corner, height);
        lemma_corner_wrap_reaches_cursor(cursor, viewctx.corner, height);
        lemma_wrap_corner_in_text(lines, cursor, followed, width, height);
    } else {
        lemma_corner_nowrap_shows_cursor(cursor, viewctx.corner, width, height);
    }
}

/// The cell recorded for the cursor lies in the rows of the region that
/// the rows were drawn in, and no further to the right than the column
/// behind the region, where each row that holds the cursor starts no
/// more than the region's width before it.
proof fn lemma_cursor_cell_in_area(rows: Seq<Segment>, cursor: Cursor, area: Rect, before: (u16, u16))
    requires
        has_cursor(rows),
        rows.len() <= area.height,
        area.x + area.width <= u16::MAX,
        area.y + area.height <= u16::MAX,
        forall|i: int|
            0 <= i < rows.len() && (#[trigger] rows[i]).cursor_line ==> rows[i].start <= cursor.x <= rows[i].start
                + area.width,
    ensures
        area.x <= cursor_cell(rows, cursor, area, before).0 <= area.x + area.width,
        area.y <= cursor_cell(rows, cursor, area, before).1 < area.y + rows.len(),
    decreases rows.len(),
{
    if !rows.last().cursor_line {
        let fewer = rows.drop_last();
        let i = choose|i: int| 0 <= i < rows.len() && (#[trigger] rows[i]).cursor_line;
        assert(fewer[i].cursor_line);
        lemma_cursor_cell_in_area(fewer, cursor, area, before);
    }
}

/// When a view is drawn in a region with at least one cell that ends
/// within the coordinates that a cell can have, the cell recorded for the
/// cursor lies in a row of the region, in one of its columns or in the
/// column behind them: there the cursor shows when it stands behind the
/// last character of a row that fills the region. The cursor has to
/// stand on a line of the text, on a character of the line or behind its
/// last one.
pub proof fn lemma_drawn_cursor_in_area(
    viewctx: ViewportContext,
    lines: Seq<Seq<char>>,
    cursor: Cursor,
    area: Rect,
    before: (u16, u16),
)
    requires
        area.width > 0,
        area.height > 0,
        area.x + area.width <= u16::MAX,
        area.y + area.height <= u16::MAX,
        holdable(lines),
        reachable(lines, cursor),
    ensures
        area.x <= cursor_cell(drawn_rows(viewctx, lines, cursor, area), cursor, area, before).0 <= area.x
            + area.width,
        area.y <= cursor_cell(drawn_rows(viewctx, lines, cursor, area), cursor, area, before).1 < area.y
            + area.height,
{
    let width = area.width as usize;
    let height = area.height as usize;
    let rows = drawn_rows(viewctx, lines, cursor, area);
    lemma_drawn_rows_hold_cursor(viewctx, lines, cursor, area);
    if viewctx.wrap {
        lemma_wrap_rows_fit(lines, cursor, corner_wrap(cursor, viewctx.corner, height), width, height);
    } else {
        lemma_corner_nowrap_shows_cursor(cursor, viewctx.corner, width, height);
    }
    lemma_cursor_cell_in_area(rows, cursor, area, before);
}

} // verus!
