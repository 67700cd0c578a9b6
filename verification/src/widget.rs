//! Drawing a view on the screen.
//!
//! A drawing lays the text out as rows, writes each row into the screen,
//! shows the selections and the followers of the view's cursor group in
//! reverse, and records where on the screen the leader came to stand.

use vstd::prelude::*;
use tui::buffer::Buffer;
use tui::widgets::Block;
use crate::buffer::{string_from_chars, EditBuffer, Selection};
use crate::cursor::Cursor;
use crate::drawing::{
    clip16,
    cursor_cell,
    drawn_corner,
    drawn_rows,
    drawn_state,
    follower_patches,
    lights,
    lit_in,
    rendered_screen,
    rendered_state,
    reversed_by,
    row_lit,
    row_lit_at,
    row_texts,
    rows_lit,
    rows_written,
    selection_patches,
};
use crate::highlight::{covers, in_row, selection_span, FollowersInfo, HighlightInfo};
use crate::layout::{fits, rows_nowrap, rows_wrap, Row, Segment};
use crate::rect::Rect;
use crate::screen::{
    block_inner,
    cell_in,
    drawable,
    framed_inner,
    lemma_framed_inner_within,
    put_reversed,
    put_text,
    same_screen,
    screen_area,
    screen_bounds,
    screen_len,
    screen_rect,
    screen_reversed,
    screen_symbols,
};
use crate::state::TextBoxState;
use crate::viewport::{shift_corner_nowrap, shift_corner_wrap};

verus! {

/// Tells whether `area` of `screen` can be drawn in: the screen is
/// `drawable`, and `area` lies inside its region.
pub fn can_draw(screen: &Buffer, area: &Rect) -> (b: bool)
    ensures
        b == (drawable(*screen) && area.inside(screen_rect(*screen))),
{
    let bounds = screen_bounds(screen);
    let cells: usize = screen_len(screen);
    proof {
        lemma_area_within(bounds.width as int, bounds.height as int, 0xffff, 0xffff);
    }
    let size: u32 = bounds.width as u32 * bounds.height as u32;
    size <= 0xffff && cells == size as usize && area.is_inside(&bounds)
}

/// A product grows with its factors.
proof fn lemma_area_within(width: int, height: int, outer_width: int, outer_height: int)
    requires
        0 <= width <= outer_width,
        0 <= height <= outer_height,
    ensures
        width * height <= outer_width * outer_height,
{
    assert(width * height <= outer_width * outer_height) by (nonlinear_arith)
        requires
            0 <= width <= outer_width,
            0 <= height <= outer_height,
    ;
}

/// A region inside a screen that can be drawn on has no more cells than a
/// coordinate can count.
proof fn lemma_inside_is_small(screen: Buffer, area: Rect)
    requires
        drawable(screen),
        area.within(screen_rect(screen)),
    ensures
        area.width * area.height <= u16::MAX,
{
    let outer = screen_rect(screen);
    lemma_area_within(area.width as int, area.height as int, outer.width as int, outer.height as int);
}

/// The patch that was looked up as number `k`.
spec fn found_patch(patches: Seq<Option<Rect>>, found: Seq<usize>, k: int) -> Option<Rect> {
    patches[found[k] as int]
}

/// Whether `cell` is a cell of one of the first `n` patches that were looked up.
spec fn lit_among(patches: Seq<Option<Rect>>, found: Seq<usize>, n: int, cell: (u16, u16)) -> bool {
    exists|k: int| 0 <= k < n && #[trigger] lights(found_patch(patches, found, k), cell)
}

/// One more patch lights its own cells beside those that were lit.
proof fn lemma_one_more(patches: Seq<Option<Rect>>, found: Seq<usize>, n: int)
    requires
        0 <= n,
    ensures
        forall|cell: (u16, u16)| #[trigger]
            lit_among(patches, found, n + 1, cell) <==> lit_among(patches, found, n, cell) || lights(
                found_patch(patches, found, n),
                cell,
            ),
{
    assert forall|cell: (u16, u16)| #[trigger]
        lit_among(patches, found, n + 1, cell) <==> lit_among(patches, found, n, cell) || lights(
            found_patch(patches, found, n),
            cell,
        ) by {
        if lit_among(patches, found, n + 1, cell) {
            let k = choose|k: int| 0 <= k < n + 1 && #[trigger] lights(found_patch(patches, found, k), cell);
            if k < n {
                assert(lit_among(patches, found, n, cell));
            }
        }
        if lit_among(patches, found, n, cell) {
            let k = choose|k: int| 0 <= k < n && #[trigger] lights(found_patch(patches, found, k), cell);
            assert(lights(found_patch(patches, found, k), cell));
        }
    }
}

/// Where every patch that there is was looked up, the patches that were
/// looked up light the cells that the patches light.
proof fn lemma_found_all(patches: Seq<Option<Rect>>, found: Seq<usize>)
    requires
        forall|j: usize| j < patches.len() && (#[trigger] patches[j as int]) is Some ==> found.contains(j),
        forall|k: int| 0 <= k < found.len() ==> (#[trigger] found[k]) < patches.len(),
        patches.len() <= usize::MAX,
    ensures
        forall|cell: (u16, u16)| #[trigger]
            lit_among(patches, found, found.len() as int, cell) <==> lit_in(patches, cell),
{
    assert forall|cell: (u16, u16)| #[trigger]
        lit_among(patches, found, found.len() as int, cell) <==> lit_in(patches, cell) by {
        if lit_among(patches, found, found.len() as int, cell) {
            let k = choose|k: int| 0 <= k < found.len() && #[trigger] lights(found_patch(patches, found, k), cell);
            assert(lights(patches[found[k] as int], cell));
        }
        if lit_in(patches, cell) {
            let j = choose|j: int| 0 <= j < patches.len() && #[trigger] lights(patches[j], cell);
            assert(patches[j as usize as int] is Some);
            assert(found.contains(j as usize));
            let k = choose|k: int| 0 <= k < found.len() && found[k] == j as usize;
            assert(lights(found_patch(patches, found, k), cell));
        }
    }
}

/// The cells in which followers and selections show on a row lie in that row.
proof fn lemma_row_lit_in_row(
    selections: Seq<Selection>,
    followers: Seq<Cursor>,
    seg: Segment,
    x: u16,
    y: u16,
    cell: (u16, u16),
)
    requires
        row_lit(selections, followers, seg, x, y, cell),
    ensures
        cell.1 == y,
{
    let first = follower_patches(followers, seg.line, seg.start, seg.end, x, y);
    let second = selection_patches(selections, seg.line, seg.start, seg.end, x, y);
    if lit_in(first, cell) {
        let j = choose|j: int| 0 <= j < first.len() && #[trigger] lights(first[j], cell);
        assert(lights(first[j], cell));
    } else {
        let j = choose|j: int| 0 <= j < second.len() && #[trigger] lights(second[j], cell);
        assert(lights(second[j], cell));
    }
}

/// The cells that are lit when one more row is drawn: those of the rows
/// before, and those of the row itself.
proof fn lemma_one_more_row(
    rows: Seq<Segment>,
    selections: Seq<Selection>,
    followers: Seq<Cursor>,
    area: Rect,
    n: int,
)
    requires
        0 <= n < rows.len(),
    ensures
        forall|cell: (u16, u16)| #[trigger]
            rows_lit(rows.take(n + 1), selections, followers, area, cell) <==> rows_lit(
                rows.take(n),
                selections,
                followers,
                area,
                cell,
            ) || row_lit_at(rows, selections, followers, area, n, cell),
{
    let more = rows.take(n + 1);
    let fewer = rows.take(n);
    assert forall|cell: (u16, u16)| #[trigger]
        rows_lit(more, selections, followers, area, cell) <==> rows_lit(fewer, selections, followers, area, cell)
            || row_lit_at(rows, selections, followers, area, n, cell) by {
        if rows_lit(more, selections, followers, area, cell) {
            let i = choose|i: int|
                0 <= i < more.len() && #[trigger] row_lit_at(more, selections, followers, area, i, cell);
            if i < n {
                assert(row_lit_at(fewer, selections, followers, area, i, cell));
            }
        }
        if rows_lit(fewer, selections, followers, area, cell) {
            let i = choose|i: int|
                0 <= i < fewer.len() && #[trigger] row_lit_at(fewer, selections, followers, area, i, cell);
            assert(row_lit_at(more, selections, followers, area, i, cell));
        }
        if row_lit_at(rows, selections, followers, area, n, cell) {
            assert(row_lit_at(more, selections, followers, area, n, cell));
        }
    }
}

/// One step of drawing rows: the screen `entry` had the first `n` rows
/// drawn, `written` has the text of the next row too, and `after` its
/// followers and selections as well.
proof fn lemma_row_drawn(
    before: Buffer,
    entry: Buffer,
    written: Buffer,
    after: Buffer,
    rows: Seq<Segment>,
    selections: Seq<Selection>,
    followers: Seq<Cursor>,
    area: Rect,
    n: int,
)
    requires
        0 <= n < rows.len() <= area.height,
        area.x + area.width <= u16::MAX,
        area.y + area.height <= u16::MAX,
        reversed_by(before, entry, rows.take(n), selections, followers, area, area),
        forall|cell: (u16, u16)| #[trigger]
            screen_reversed(written).contains(cell) ==> screen_reversed(entry).contains(cell),
        forall|cell: (u16, u16)|
            screen_reversed(entry).contains(cell) && !(cell.1 == area.y + n && area.x <= cell.0 < area.x
                + area.width) ==> #[trigger] screen_reversed(written).contains(cell),
        forall|cell: (u16, u16)| #[trigger]
            screen_reversed(after).contains(cell) <==> screen_reversed(written).contains(cell) || row_lit_at(
                rows,
                selections,
                followers,
                area,
                n,
                cell,
            ),
    ensures
        reversed_by(before, after, rows.take(n + 1), selections, followers, area, area),
{
    let fewer = rows.take(n);
    let more = rows.take(n + 1);
    lemma_one_more_row(rows, selections, followers, area, n);
    assert forall|cell: (u16, u16)| rows_lit(more, selections, followers, area, cell) implies #[trigger]
        screen_reversed(after).contains(cell) by {
        if rows_lit(fewer, selections, followers, area, cell) {
            let i = choose|i: int|
                0 <= i < fewer.len() && #[trigger] row_lit_at(fewer, selections, followers, area, i, cell);
            lemma_row_lit_in_row(selections, followers, fewer[i], area.x, clip16(area.y + i), cell);
            assert(screen_reversed(entry).contains(cell));
            assert(screen_reversed(written).contains(cell));
        }
    }
    assert forall|cell: (u16, u16)| #[trigger] screen_reversed(after).contains(cell) implies screen_reversed(
        before,
    ).contains(cell) || rows_lit(more, selections, followers, area, cell) by {
        if screen_reversed(written).contains(cell) {
            assert(screen_reversed(entry).contains(cell));
        }
    }
    assert forall|cell: (u16, u16)|
        screen_reversed(before).contains(cell) && !cell_in(area, cell) implies #[trigger] screen_reversed(
        after,
    ).contains(cell) by {
        assert(screen_reversed(entry).contains(cell));
        assert(screen_reversed(written).contains(cell));
    }
}

/// The text box: what is drawn of a view, its frame and its prompt.
pub struct TextBox<'a> {
    block: Option<Block<'a>>,
    prompt: &'a str,
}

impl<'a> TextBox<'a> {
    /// The frame of the text box, if it has one.
    pub closed spec fn framing(&self) -> Option<Block<'a>> {
        self.block
    }

    /// Whether the text box has a frame.
    pub open spec fn framed(&self) -> bool {
        self.framing() is Some
    }

    /// The number of bytes of the prompt.
    pub closed spec fn prompt_bytes(&self) -> usize {
        self.prompt.len()
    }

    /// The characters of the prompt.
    pub closed spec fn prompt_text(&self) -> Seq<char> {
        self.prompt@
    }

    /// A text box without a frame and without a prompt.
    pub fn new() -> (t: TextBox<'a>)
        ensures
            !t.framed(),
            t.prompt_bytes() == 0,
            t.prompt_text() == Seq::<char>::empty(),
    {
        let t = TextBox { block: None, prompt: "" };
        proof {
            reveal_strlit("");
            assert(""@ =~= Seq::<char>::empty());
            assert(vstd::utf8::encode_utf8(Seq::<char>::empty()).len() == 0);
        }
        t
    }

    /// Puts `block` around the text box as its frame.
    pub fn block(self, block: Block<'a>) -> (t: TextBox<'a>)
        ensures
            t.framing() == Some(block),
            t.prompt_bytes() == self.prompt_bytes(),
            t.prompt_text() == self.prompt_text(),
    {
        TextBox { block: Some(block), prompt: self.prompt }
    }

    /// Puts `prompt` before the text, in a gutter of its own.
    pub fn prompt(self, prompt: &'a str) -> (t: TextBox<'a>)
        ensures
            t.framing() == self.framing(),
            t.prompt_bytes() == prompt.len(),
            t.prompt_text() == prompt@,
    {
        TextBox { block: self.block, prompt }
    }

    /// The frame of the text box, if it has one.
    pub fn frame(&self) -> (frame: Option<&Block<'a>>)
        ensures
            frame is Some == self.framed(),
            frame matches Some(block) ==> self.framing() == Some(*block),
    {
        self.block.as_ref()
    }

    /// The region that the frame leaves of `area`: all of it without a
    /// frame. A frame takes one cell off each side of `area` on which it
    /// has a border, and off the top where it has a title, so that the
    /// region lies within `area`.
    pub fn inner_area(&self, area: Rect) -> (inner: Rect)
        ensures
            exists|left: bool, top: bool, right: bool, bottom: bool|
                inner == #[trigger] framed_inner(area, left, top, right, bottom),
            inner.within(area),
            !self.framed() ==> inner == area,
    {
        match &self.block {
            Some(block) => {
                let inner = block_inner(block, area);
                proof {
                    let (left, top, right, bottom) = choose|left: bool, top: bool, right: bool, bottom: bool|
                        inner == #[trigger] framed_inner(area, left, top, right, bottom);
                    lemma_framed_inner_within(area, left, top, right, bottom);
                }
                inner
            },
            None => {
                assert(area == framed_inner(area, false, false, false, false));
                area
            },
        }
    }

    /// Shows in reverse the followers that stand on `line`, in the columns
    /// from `start` up to, and without, `end`, of which the first is drawn in
    /// the cell at column `x` and row `y`.
    fn highlight_followers(
        &self,
        line: usize,
        start: usize,
        end: usize,
        x: u16,
        y: u16,
        followers: &FollowersInfo,
        screen: &mut Buffer,
    )
        requires
            drawable(*old(screen)),
            start <= end,
            end - start <= u16::MAX,
            (Rect { x, y, width: (end - start) as u16, height: 1 }).inside(screen_rect(*old(screen))),
        ensures
            same_screen(*old(screen), *final(screen)),
            screen_symbols(*final(screen)) == screen_symbols(*old(screen)),
            forall|cell: (u16, u16)| #[trigger]
                screen_reversed(*final(screen)).contains(cell) <==> screen_reversed(*old(screen)).contains(cell)
                    || lit_in(follower_patches(followers.followers(), line, start, end, x, y), cell),
    {
        let found = followers.query(line, start, end);
        let n: usize = found.len();
        let ghost patches = follower_patches(followers.followers(), line, start, end, x, y);
        let mut i: usize = 0;
        while i < n
            invariant
                i <= n,
                n == found@.len(),
                start <= end,
                end - start <= u16::MAX,
                patches == follower_patches(followers.followers(), line, start, end, x, y),
                same_screen(*old(screen), *screen),
                screen_symbols(*screen) == screen_symbols(*old(screen)),
                drawable(*screen),
                (Rect { x, y, width: (end - start) as u16, height: 1 }).inside(screen_rect(*screen)),
                forall|k: usize|
                    #[trigger] found@.contains(k) ==> k < followers.followers().len() && in_row(
                        followers.followers()[k as int],
                        line,
                        start,
                        end,
                    ),
                forall|cell: (u16, u16)| #[trigger]
                    screen_reversed(*screen).contains(cell) <==> screen_reversed(*old(screen)).contains(cell)
                        || lit_among(patches, found@, i as int, cell),
            decreases n - i,
        {
            assert(found@.contains(found@[i as int]));
            let follower = followers.follower(found[i]);
            let fx: u16 = x + (follower.x - start) as u16;
            let fa = Rect::new(fx, y, 1, 1);
            proof {
                assert(found_patch(patches, found@, i as int) == Some(fa));
                lemma_one_more(patches, found@, i as int);
            }
            put_reversed(screen, fa);
            i += 1;
        }
        proof {
            assert forall|j: usize| j < patches.len() && (#[trigger] patches[j as int]) is Some implies found@.contains(
                j,
            ) by {
                assert(in_row(followers.followers()[j as int], line, start, end));
            }
            assert forall|k: int| 0 <= k < found@.len() implies (#[trigger] found@[k]) < patches.len() by {
                assert(found@.contains(found@[k]));
            }
            followers.lemma_bounded();
            lemma_found_all(patches, found@);
        }
    }

    /// Shows in reverse what the selections highlight on `line`, in the
    /// columns from `start` up to, and without, `end`, of which the first is
    /// drawn in the cell at column `x` and row `y`.
    fn highlight_line(
        &self,
        line: usize,
        start: usize,
        end: usize,
        x: u16,
        y: u16,
        hls: &HighlightInfo,
        screen: &mut Buffer,
    )
        requires
            drawable(*old(screen)),
            start <= end,
            end - start <= u16::MAX,
            (Rect { x, y, width: (end - start) as u16, height: 1 }).inside(screen_rect(*old(screen))),
        ensures
            same_screen(*old(screen), *final(screen)),
            screen_symbols(*final(screen)) == screen_symbols(*old(screen)),
            forall|cell: (u16, u16)| #[trigger]
                screen_reversed(*final(screen)).contains(cell) <==> screen_reversed(*old(screen)).contains(cell)
                    || lit_in(selection_patches(hls.selections(), line, start, end, x, y), cell),
    {
        let found = hls.query_point(line);
        let n: usize = found.len();
        let ghost patches = selection_patches(hls.selections(), line, start, end, x, y);
        let mut i: usize = 0;
        while i < n
            invariant
                i <= n,
                n == found@.len(),
                start <= end,
                end - start <= u16::MAX,
                patches == selection_patches(hls.selections(), line, start, end, x, y),
                same_screen(*old(screen), *screen),
                screen_symbols(*screen) == screen_symbols(*old(screen)),
                drawable(*screen),
                (Rect { x, y, width: (end - start) as u16, height: 1 }).inside(screen_rect(*screen)),
                forall|k: usize|
                    #[trigger] found@.contains(k) ==> k < hls.selections().len() && covers(
                        hls.selections()[k as int],
                        line,
                    ),
                forall|cell: (u16, u16)| #[trigger]
                    screen_reversed(*screen).contains(cell) <==> screen_reversed(*old(screen)).contains(cell)
                        || lit_among(patches, found@, i as int, cell),
            decreases n - i,
        {
            assert(found@.contains(found@[i as int]));
            let selection = hls.selection(found[i]);
            proof {
                lemma_one_more(patches, found@, i as int);
            }
            match selection_span(&selection, line, start, end) {
                Some(span) => {
                    let tx: u16 = x + (span.first - start) as u16;
                    let selwidth: u16 = (span.last - span.first + 1) as u16;
                    let selarea = Rect::new(tx, y, selwidth, 1);
                    assert(found_patch(patches, found@, i as int) == Some(selarea));
                    put_reversed(screen, selarea);
                },
                None => {
                    assert(found_patch(patches, found@, i as int) is None);
                },
            }
            i += 1;
        }
        proof {
            assert forall|j: usize| j < patches.len() && (#[trigger] patches[j as int]) is Some implies found@.contains(
                j,
            ) by {
                assert(covers(hls.selections()[j as int], line));
            }
            assert forall|k: int| 0 <= k < found@.len() implies (#[trigger] found@[k]) < patches.len() by {
                assert(found@.contains(found@[k]));
            }
            hls.lemma_bounded();
            lemma_found_all(patches, found@);
        }
    }

    /// Draws `rows` in `area`, one below the other from its top: the text
    /// of each, then its followers and its selections in reverse. The view
    /// records the cell of the cursor.
    fn draw_rows(
        &self,
        rows: &Vec<Row>,
        cursor: &Cursor,
        area: Rect,
        screen: &mut Buffer,
        hinfo: &HighlightInfo,
        finfo: &FollowersInfo,
        state: &mut TextBoxState,
    )
        requires
            drawable(*old(screen)),
            area.inside(screen_rect(*old(screen))),
            area.width > 0,
            rows@.len() <= area.height,
            forall|i: int| 0 <= i < rows@.len() ==> fits((#[trigger] rows@[i]).segment(), area.width as usize),
        ensures
            same_screen(*old(screen), *final(screen)),
            reversed_by(
                *old(screen),
                *final(screen),
                Seq::new(rows@.len(), |i: int| rows@[i].segment()),
                hinfo.selections(),
                finfo.followers(),
                area,
                area,
            ),
            screen_symbols(*final(screen)) == rows_written(
                screen_symbols(*old(screen)),
                screen_area(*old(screen)),
                Seq::new(rows@.len(), |i: int| rows@[i].text@),
                area,
                rows@.len() as int,
            ),
            final(state).term_cursor == cursor_cell(
                Seq::new(rows@.len(), |i: int| rows@[i].segment()),
                *cursor,
                area,
                old(state).term_cursor,
            ),
            final(state).group_id == old(state).group_id,
            final(state).viewctx == old(state).viewctx,
            final(state).term_area == old(state).term_area,
    {
        let x: u16 = area.left();
        let top: u16 = area.top();
        let width: usize = area.width as usize;
        let n: usize = rows.len();
        let ghost segments = Seq::new(rows@.len(), |i: int| rows@[i].segment());
        let ghost texts = Seq::new(rows@.len(), |i: int| rows@[i].text@);
        let ghost selections = hinfo.selections();
        let ghost followers = finfo.followers();
        let mut i: usize = 0;
        proof {
            assert(segments.take(0) =~= Seq::<Segment>::empty());
        }
        while i < n
            invariant
                i <= n,
                n == rows@.len(),
                n <= area.height,
                x == area.x,
                top == area.y,
                width == area.width,
                area.width > 0,
                segments == Seq::new(rows@.len(), |i: int| rows@[i].segment()),
                selections == hinfo.selections(),
                followers == finfo.followers(),
                forall|k: int| 0 <= k < rows@.len() ==> fits((#[trigger] rows@[k]).segment(), width),
                same_screen(*old(screen), *screen),
                drawable(*screen),
                area.inside(screen_rect(*screen)),
                texts == Seq::new(rows@.len(), |i: int| rows@[i].text@),
                reversed_by(*old(screen), *screen, segments.take(i as int), selections, followers, area, area),
                screen_symbols(*screen) == rows_written(
                    screen_symbols(*old(screen)),
                    screen_area(*old(screen)),
                    texts,
                    area,
                    i as int,
                ),
                state.term_cursor == cursor_cell(segments.take(i as int), *cursor, area, old(state).term_cursor),
                state.group_id == old(state).group_id,
                state.viewctx == old(state).viewctx,
                state.term_area == old(state).term_area,
            decreases n - i,
        {
            let row = &rows[i];
            let y: u16 = top + i as u16;
            let ghost entry = *screen;
            assert(fits(rows@[i as int].segment(), width));

            if row.text.len() > 0 {
                let text = string_from_chars(&row.text);
                put_text(screen, x, y, text.as_str(), width);
            }
            let ghost written = *screen;
            if row.cursor_line {
                let off: usize = cursor.x.saturating_sub(row.start);
                let coff: u16 = if off > 0xffff { 0xffff } else { off as u16 };
                state.term_cursor = (x.saturating_add(coff), y);
            }
            proof {
                let next = segments.take(i + 1);
                assert(next.last() == rows@[i as int].segment());
                assert(next.drop_last() =~= segments.take(i as int));
            }
            self.highlight_followers(row.line, row.start, row.end, x, y, finfo, screen);
            self.highlight_line(row.line, row.start, row.end, x, y, hinfo, screen);
            proof {
                lemma_row_drawn(
                    *old(screen),
                    entry,
                    written,
                    *screen,
                    segments,
                    selections,
                    followers,
                    area,
                    i as int,
                );
            }

            i += 1;
        }
        proof {
            assert(segments.take(n as int) =~= segments);
        }
    }

    /// Draws the text of a wrapping view in `area`.
    fn render_lines_wrap(
        &self,
        area: Rect,
        screen: &mut Buffer,
        hinfo: &HighlightInfo,
        finfo: &FollowersInfo,
        state: &mut TextBoxState,
        buffer: &EditBuffer,
    )
        requires
            buffer.has_group(old(state).group_id),
            drawable(*old(screen)),
            area.inside(screen_rect(*old(screen))),
            area.width > 0,
            old(state).viewctx.wrap,
        ensures
            same_screen(*old(screen), *final(screen)),
            reversed_by(
                *old(screen),
                *final(screen),
                drawn_rows(old(state).viewctx, buffer.lines(), buffer.leader(old(state).group_id), area),
                hinfo.selections(),
                finfo.followers(),
                area,
                area,
            ),
            screen_symbols(*final(screen)) == rows_written(
                screen_symbols(*old(screen)),
                screen_area(*old(screen)),
                row_texts(
                    buffer.lines(),
                    drawn_rows(old(state).viewctx, buffer.lines(), buffer.leader(old(state).group_id), area),
                ),
                area,
                drawn_rows(old(state).viewctx, buffer.lines(), buffer.leader(old(state).group_id), area).len() as int,
            ),
            final(state).viewctx.corner == drawn_corner(
                old(state).viewctx,
                buffer.lines(),
                buffer.leader(old(state).group_id),
                area,
            ),
            final(state).term_cursor == cursor_cell(
                drawn_rows(old(state).viewctx, buffer.lines(), buffer.leader(old(state).group_id), area),
                buffer.leader(old(state).group_id),
                area,
                old(state).term_cursor,
            ),
            final(state).same_but_corner_and_cell(old(state)),
    {
        let height: usize = area.height as usize;
        let width: usize = area.width as usize;

        let cursor = state.get_cursor(buffer);
        shift_corner_wrap(&cursor, &mut state.viewctx.corner, height);

        let rows = rows_wrap(buffer, &cursor, &mut state.viewctx.corner, width, height);
        proof {
            let segments = Seq::new(rows@.len(), |i: int| rows@[i].segment());
            let texts = Seq::new(rows@.len(), |i: int| rows@[i].text@);
            assert(segments =~= drawn_rows(old(state).viewctx, buffer.lines(), cursor, area));
            assert(texts =~= row_texts(buffer.lines(), segments));
        }
        self.draw_rows(&rows, &cursor, area, screen, hinfo, finfo, state);
    }

    /// Draws the text of a view without wrapping in `area`.
    fn render_lines_nowrap(
        &self,
        area: Rect,
        screen: &mut Buffer,
        hinfo: &HighlightInfo,
        finfo: &FollowersInfo,
        state: &mut TextBoxState,
        buffer: &EditBuffer,
    )
        requires
            buffer.has_group(old(state).group_id),
            drawable(*old(screen)),
            area.inside(screen_rect(*old(screen))),
            area.width > 0,
            !old(state).viewctx.wrap,
        ensures
            same_screen(*old(screen), *final(screen)),
            reversed_by(
                *old(screen),
                *final(screen),
                drawn_rows(old(state).viewctx, buffer.lines(), buffer.leader(old(state).group_id), area),
                hinfo.selections(),
                finfo.followers(),
                area,
                area,
            ),
            screen_symbols(*final(screen)) == rows_written(
                screen_symbols(*old(screen)),
                screen_area(*old(screen)),
                row_texts(
                    buffer.lines(),
                    drawn_rows(old(state).viewctx, buffer.lines(), buffer.leader(old(state).group_id), area),
                ),
                area,
                drawn_rows(old(state).viewctx, buffer.lines(), buffer.leader(old(state).group_id), area).len() as int,
            ),
            final(state).viewctx.corner == drawn_corner(
                old(state).viewctx,
                buffer.lines(),
                buffer.leader(old(state).group_id),
                area,
            ),
            final(state).term_cursor == cursor_cell(
                drawn_rows(old(state).viewctx, buffer.lines(), buffer.leader(old(state).group_id), area),
                buffer.leader(old(state).group_id),
                area,
                old(state).term_cursor,
            ),
            final(state).same_but_corner_and_cell(old(state)),
    {
        let height: usize = area.height as usize;
        let width: usize = area.width as usize;

        let cursor = state.get_cursor(buffer);
        shift_corner_nowrap(&cursor, &mut state.viewctx.corner, width, height);

        let corner = state.viewctx.corner;
        let rows = rows_nowrap(buffer, &cursor, &corner, width, height);
        proof {
            let segments = Seq::new(rows@.len(), |i: int| rows@[i].segment());
            let texts = Seq::new(rows@.len(), |i: int| rows@[i].text@);
            assert(segments =~= drawn_rows(old(state).viewctx, buffer.lines(), cursor, area));
            assert(texts =~= row_texts(buffer.lines(), segments));
        }
        self.draw_rows(&rows, &cursor, area, screen, hinfo, finfo, state);
    }

    /// The selections of the view's cursor group, ready to be looked up by line.
    fn selection_intervals(&self, state: &TextBoxState, buffer: &EditBuffer) -> (info: HighlightInfo)
        requires
            buffer.has_group(state.group_id),
        ensures
            info.selections() == buffer.selections(state.group_id),
    {
        HighlightInfo::new(buffer.get_group_selections(state.group_id))
    }

    /// The followers of the view's cursor group, ready to be looked up by position.
    fn follower_intervals(&self, state: &TextBoxState, buffer: &EditBuffer) -> (info: FollowersInfo)
        requires
            buffer.has_group(state.group_id),
        ensures
            info.followers() == buffer.followers(state.group_id),
    {
        FollowersInfo::new(buffer.get_followers(state.group_id))
    }

    /// Draws the text of a view in `area`, and gives the view the size of `area`.
    fn render_lines(&self, area: Rect, screen: &mut Buffer, state: &mut TextBoxState, buffer: &EditBuffer)
        requires
            buffer.has_group(old(state).group_id),
            drawable(*old(screen)),
            area.inside(screen_rect(*old(screen))),
            area.width > 0,
        ensures
            same_screen(*old(screen), *final(screen)),
            reversed_by(
                *old(screen),
                *final(screen),
                drawn_rows(old(state).viewctx, buffer.lines(), buffer.leader(old(state).group_id), area),
                buffer.selections(old(state).group_id),
                buffer.followers(old(state).group_id),
                area,
                area,
            ),
            screen_symbols(*final(screen)) == rows_written(
                screen_symbols(*old(screen)),
                screen_area(*old(screen)),
                row_texts(
                    buffer.lines(),
                    drawn_rows(old(state).viewctx, buffer.lines(), buffer.leader(old(state).group_id), area),
                ),
                area,
                drawn_rows(old(state).viewctx, buffer.lines(), buffer.leader(old(state).group_id), area).len() as int,
            ),
            *final(state) == drawn_state(
                *old(state),
                buffer.lines(),
                buffer.leader(old(state).group_id),
                area,
            ),
    {
        let hinfo = self.selection_intervals(state, buffer);
        let finfo = self.follower_intervals(state, buffer);

        state.set_term_info(area);

        if state.viewctx.wrap {
            self.render_lines_wrap(area, screen, &hinfo, &finfo, state, buffer);
        } else {
            self.render_lines_nowrap(area, screen, &hinfo, &finfo, state, buffer);
        }
    }

    /// Draws the view in `inner`: the prompt in a gutter at the left, and
    /// the text in what the gutter leaves. Where it leaves no cell, nothing
    /// is drawn and the view stays as it is.
    pub fn render_in(&self, inner: Rect, screen: &mut Buffer, state: &mut TextBoxState, buffer: &EditBuffer)
        requires
            buffer.has_group(old(state).group_id),
            drawable(*old(screen)),
            inner.inside(screen_rect(*old(screen))),
        ensures
            same_screen(*old(screen), *final(screen)),
            *final(state) == rendered_state(
                *old(state),
                buffer.lines(),
                buffer.leader(old(state).group_id),
                self.prompt_bytes(),
                inner,
            ),
            rendered_screen(
                *old(screen),
                *final(screen),
                *old(state),
                buffer.lines(),
                buffer.leader(old(state).group_id),
                buffer.selections(old(state).group_id),
                buffer.followers(old(state).group_id),
                self.prompt_text(),
                self.prompt_bytes(),
                inner,
            ),
    {
        let bytes: usize = self.prompt.len();
        let plen: u16 = if bytes > 0xffff { 0xffff } else { bytes as u16 };
        let width: u16 = inner.width.saturating_sub(plen);

        if width == 0 || inner.height == 0 {
            return ;
        }
        proof {
            lemma_inside_is_small(*screen, inner);
            lemma_area_within(plen as int, inner.height as int, inner.width as int, inner.height as int);
            lemma_area_within(width as int, inner.height as int, inner.width as int, inner.height as int);
        }
        let gutter = Rect::new(inner.x, inner.y, plen, inner.height);
        let text_area = Rect::new(inner.x + plen, inner.y, width, inner.height);

        // First, draw the prompt in the gutter.
        put_text(screen, gutter.left(), gutter.top(), self.prompt, gutter.width as usize);
        let ghost prompted = *screen;

        // Now draw the text.
        self.render_lines(text_area, screen, state, buffer);
        proof {
            let rows = drawn_rows(old(state).viewctx, buffer.lines(), buffer.leader(old(state).group_id), text_area);
            let selections = buffer.selections(old(state).group_id);
            let followers = buffer.followers(old(state).group_id);
            assert forall|cell: (u16, u16)| #[trigger] screen_reversed(*screen).contains(cell) implies screen_reversed(
                *old(screen),
            ).contains(cell) || rows_lit(rows, selections, followers, text_area, cell) by {
                if screen_reversed(prompted).contains(cell) {
                    assert(screen_reversed(*old(screen)).contains(cell));
                }
            }
            assert forall|cell: (u16, u16)|
                screen_reversed(*old(screen)).contains(cell) && !cell_in(inner, cell) implies #[trigger] screen_reversed(
                *screen,
            ).contains(cell) by {
                assert(screen_reversed(prompted).contains(cell));
            }
        }
    }

    /// Draws the view in `area`: inside the frame, if the text box has
    /// one, the prompt and the text as `render_in` draws them. The frame
    /// takes one cell off each side of `area` on which it has a border, and
    /// off the top where it has a title. The frame itself is not drawn.
    pub fn render(self, area: Rect, screen: &mut Buffer, state: &mut TextBoxState, buffer: &EditBuffer)
        requires
            buffer.has_group(old(state).group_id),
            drawable(*old(screen)),
            area.inside(screen_rect(*old(screen))),
        ensures
            same_screen(*old(screen), *final(screen)),
            exists|left: bool, top: bool, right: bool, bottom: bool|
                {
                    &&& !self.framed() ==> #[trigger] framed_inner(area, left, top, right, bottom) == area
                    &&& *final(state) == rendered_state(
                        *old(state),
                        buffer.lines(),
                        buffer.leader(old(state).group_id),
                        self.prompt_bytes(),
                        framed_inner(area, left, top, right, bottom),
                    )
                    &&& rendered_screen(
                        *old(screen),
                        *final(screen),
                        *old(state),
                        buffer.lines(),
                        buffer.leader(old(state).group_id),
                        buffer.selections(old(state).group_id),
                        buffer.followers(old(state).group_id),
                        self.prompt_text(),
                        self.prompt_bytes(),
                        framed_inner(area, left, top, right, bottom),
                    )
                },
    {
        let inner = self.inner_area(area);
        self.render_in(inner, screen, state, buffer);
    }
}

impl TextBoxState {
    /// Draws the view in `area`, without a frame and without a prompt.
    pub fn draw(&mut self, area: Rect, screen: &mut Buffer, buffer: &EditBuffer)
        requires
            buffer.has_group(old(self).group_id),
            drawable(*old(screen)),
            area.inside(screen_rect(*old(screen))),
        ensures
            same_screen(*old(screen), *final(screen)),
            *final(self) == rendered_state(*old(self), buffer.lines(), buffer.leader(old(self).group_id), 0, area),
            rendered_screen(
                *old(screen),
                *final(screen),
                *old(self),
                buffer.lines(),
                buffer.leader(old(self).group_id),
                buffer.selections(old(self).group_id),
                buffer.followers(old(self).group_id),
                Seq::empty(),
                0,
                area,
            ),
    {
        TextBox::new().render_in(area, screen, self, buffer);
    }
}

} // verus!
