//! The rows that a view shows of a text.
//!
//! Without wrapping, a row is one line, from the corner's column on. With
//! wrapping, a line is cut into segments of the view's width, each of them
//! a row, and the rows are chosen so that the cursor's segment is one of
//! them.

use vstd::prelude::*;
use crate::buffer::{holdable, EditBuffer};
use crate::cursor::Cursor;

verus! {

/// The place of a row in the text: a line, the columns from `start` up
/// to, and without, `end`, and whether the cursor stands in the row.
#[derive(Clone, Copy, Debug, PartialEq, Eq, Structural)]
pub struct Segment {
    /// The line.
    pub line: usize,
    /// The first column of the row.
    pub start: usize,
    /// The column after the last column of the row.
    pub end: usize,
    /// Whether the cursor stands in the row.
    pub cursor_line: bool,
}

/// A row: its place in the text, and the characters that it shows.
#[derive(Debug)]
pub struct Row {
    /// The line.
    pub line: usize,
    /// The first column of the row.
    pub start: usize,
    /// The column after the last column of the row.
    pub end: usize,
    /// The characters of the row.
    pub text: Vec<char>,
    /// Whether the cursor stands in the row.
    pub cursor_line: bool,
}

impl Row {
    /// The place of the row in the text.
    pub open spec fn segment(&self) -> Segment {
        Segment { line: self.line, start: self.start, end: self.end, cursor_line: self.cursor_line }
    }
}

/// The characters of `lines` at `seg`; none where `seg` lies past the end of its line.
pub open spec fn segment_text(lines: Seq<Seq<char>>, seg: Segment) -> Seq<char> {
    if seg.line < lines.len() && seg.start <= seg.end <= lines[seg.line as int].len() {
        lines[seg.line as int].subrange(seg.start as int, seg.end as int)
    } else {
        Seq::empty()
    }
}

/// Whether `rows` are the rows at `segments` of `lines`.
pub open spec fn rows_show(rows: Seq<Row>, lines: Seq<Seq<char>>, segments: Seq<Segment>) -> bool {
    &&& rows.len() == segments.len()
    &&& forall|i: int|
        0 <= i < rows.len() ==> {
            &&& (#[trigger] rows[i]).segment() == segments[i]
            &&& rows[i].text@ == segment_text(lines, segments[i])
        }
}

/// Whether `seg` is no wider than `width` columns.
pub open spec fn fits(seg: Segment, width: usize) -> bool {
    seg.start <= seg.end <= seg.start + width
}

/// Whether `cursor` stands on `line`, on a column from `start` to `end`.
/// The column `end` counts: a cursor may stand behind the last character.
pub open spec fn holds_cursor(cursor: Cursor, line: int, start: int, end: int) -> bool {
    line == cursor.y && start <= cursor.x <= end
}

/// Whether a row of `rows` holds the cursor.
pub open spec fn has_cursor(rows: Seq<Segment>) -> bool {
    exists|i: int| 0 <= i < rows.len() && (#[trigger] rows[i]).cursor_line
}

/// The row of `line` in a view without wrapping: the line from the
/// corner's column on, as far as `width` columns reach. The row holds the
/// cursor where the cursor stands on the line, at the corner's column or
/// behind it.
pub open spec fn nowrap_segment(lines: Seq<Seq<char>>, cursor: Cursor, corner: Cursor, width: usize, line: int) -> Segment {
    let len = lines[line].len();
    Segment {
        line: line as usize,
        start: corner.x,
        end: if len <= corner.x {
            corner.x
        } else if len - corner.x <= width {
            len as usize
        } else {
            (corner.x + width) as usize
        },
        cursor_line: holds_cursor(cursor, line, corner.x as int, len as int),
    }
}

/// The rows of a view without wrapping that has room for `count` rows:
/// one for each line from the corner's line on, until the rows or the
/// lines run out.
pub open spec fn nowrap_rows(lines: Seq<Seq<char>>, cursor: Cursor, corner: Cursor, width: usize, count: usize) -> Seq<
    Segment,
> {
    let left = lines.len() - corner.y;
    let n = if left <= 0 {
        0
    } else if left <= count {
        left
    } else {
        count as int
    };
    Seq::new(n as nat, |i: int| nowrap_segment(lines, cursor, corner, width, corner.y + i))
}

/// The segments of at most `width` columns that the columns from `from`
/// to the end of a line of `len` characters are cut into.
pub open spec fn chunks(cursor: Cursor, line: int, len: int, from: int, width: usize) -> Seq<Segment>
    decreases len - from,
{
    if from >= len || width == 0 || from < 0 {
        Seq::empty()
    } else {
        let end = if len - from <= width {
            len
        } else {
            from + width
        };
        seq![
            Segment {
                line: line as usize,
                start: from as usize,
                end: end as usize,
                cursor_line: holds_cursor(cursor, line, from, end),
            },
        ] + chunks(cursor, line, len, end, width)
    }
}

/// The segments of a line of `len` characters from column `from` on: its
/// chunks, or one empty segment where nothing of the line is left.
pub open spec fn line_segments(cursor: Cursor, line: int, len: int, from: int, width: usize) -> Seq<Segment> {
    if from >= len {
        seq![
            Segment {
                line: line as usize,
                start: from as usize,
                end: from as usize,
                cursor_line: holds_cursor(cursor, line, from, from),
            },
        ]
    } else {
        chunks(cursor, line, len, from, width)
    }
}

/// The segments of `lines` from column `from` of `line` to the end of the text.
pub open spec fn segments_from(lines: Seq<Seq<char>>, cursor: Cursor, line: int, from: int, width: usize) -> Seq<
    Segment,
>
    decreases lines.len() - line,
{
    if line >= lines.len() || line < 0 {
        Seq::empty()
    } else {
        line_segments(cursor, line, lines[line].len() as int, from, width) + segments_from(
            lines,
            cursor,
            line + 1,
            0,
            width,
        )
    }
}

/// The number of rows that a line of `len` characters takes in a wrapping
/// view of `width` columns: one for each `width` characters begun, and one
/// for an empty line.
pub open spec fn rows_of_line(len: nat, width: usize) -> nat {
    if len == 0 {
        1
    } else {
        (1 + (len - 1) / (width as int)) as nat
    }
}

/// The number of rows that `lines` take in a wrapping view of `width` columns.
pub open spec fn rows_of_lines(lines: Seq<Seq<char>>, width: usize) -> nat
    decreases lines.len(),
{
    if lines.len() == 0 {
        0
    } else {
        rows_of_lines(lines.drop_last(), width) + rows_of_line(lines.last().len(), width)
    }
}

/// Whether the first `n` of the segments `all` are enough for a wrapping
/// view of `height` rows: they are all there are, or they fill the view and
/// one of them holds the cursor.
pub open spec fn enough(all: Seq<Segment>, height: usize, n: int) -> bool {
    n == all.len() || (height <= n <= all.len() && has_cursor(all.take(n)))
}

/// Whether `n` is the smallest number of segments that are enough.
pub open spec fn stops_at(all: Seq<Segment>, height: usize, n: int) -> bool {
    &&& 0 <= n <= all.len()
    &&& enough(all, height, n)
    &&& forall|m: int| 0 <= m < n ==> !enough(all, height, m)
}

/// The number of segments that a wrapping view of `height` rows takes of `all`.
pub open spec fn taken(all: Seq<Segment>, height: usize) -> int {
    choose|n: int| stops_at(all, height, n)
}

/// The segments that a wrapping view of `width` by `height` cells has to
/// choose its rows from; none where the view has no cell.
pub open spec fn wrap_segments(lines: Seq<Seq<char>>, cursor: Cursor, corner: Cursor, width: usize, height: usize) -> Seq<
    Segment,
> {
    if width == 0 || height == 0 {
        Seq::empty()
    } else {
        segments_from(lines, cursor, corner.y as int, corner.x as int, width)
    }
}

/// The rows of a wrapping view: of the segments from the corner on, as
/// many as are enough, and of these the last `height`.
pub open spec fn wrap_rows(lines: Seq<Seq<char>>, cursor: Cursor, corner: Cursor, width: usize, height: usize) -> Seq<
    Segment,
> {
    let all = wrap_segments(lines, cursor, corner, width, height);
    let n = taken(all, height);
    if n > height {
        all.subrange(n - height, n)
    } else {
        all.take(n)
    }
}

/// The corner of a wrapping view after its rows were chosen: the start of
/// the first row where segments were left out before it, else `corner`.
pub open spec fn wrap_corner(lines: Seq<Seq<char>>, cursor: Cursor, corner: Cursor, width: usize, height: usize) -> Cursor {
    let all = wrap_segments(lines, cursor, corner, width, height);
    let n = taken(all, height);
    if n > height {
        Cursor { y: all[n - height].line, x: all[n - height].start }
    } else {
        corner
    }
}

/// There is one smallest number of segments that are enough.
pub proof fn lemma_stops_once(all: Seq<Segment>, height: usize, n: int)
    requires
        stops_at(all, height, n),
    ensures
        taken(all, height) == n,
{
    let t = taken(all, height);
    assert(stops_at(all, height, t));
    if t < n {
        assert(!enough(all, height, t));
    } else if n < t {
        assert(!enough(all, height, n));
    }
}

/// The characters of `line` from `start` up to, and without, `end`.
fn copy_range(line: &Vec<char>, start: usize, end: usize) -> (text: Vec<char>)
    requires
        start <= end <= line@.len(),
    ensures
        text@ == line@.subrange(start as int, end as int),
{
    let mut text: Vec<char> = Vec::new();
    let mut i: usize = start;
    while i < end
        invariant
            start <= i <= end <= line@.len(),
            text@ == line@.subrange(start as int, i as int),
        decreases end - i,
    {
        text.push(line[i]);
        assert(text@ =~= line@.subrange(start as int, i + 1));
        i += 1;
    }
    text
}

/// Whether `seg` lies on a line of `lines`, and is empty where it does
/// not lie within the line.
spec fn placed(lines: Seq<Seq<char>>, seg: Segment) -> bool {
    &&& seg.line < lines.len()
    &&& seg.start <= seg.end
    &&& seg.end > lines[seg.line as int].len() ==> seg.start == seg.end
}

/// The row at `seg`.
fn row_at(buffer: &EditBuffer, seg: &Segment) -> (row: Row)
    requires
        placed(buffer.lines(), *seg),
    ensures
        row.segment() == *seg,
        row.text@ == segment_text(buffer.lines(), *seg),
{
    let line = buffer.line(seg.line);
    let text = if seg.end <= line.len() {
        copy_range(line, seg.start, seg.end)
    } else {
        Vec::new()
    };
    Row { line: seg.line, start: seg.start, end: seg.end, text, cursor_line: seg.cursor_line }
}

/// Lays the text out in a view without wrapping: the rows `nowrap_rows`.
pub fn rows_nowrap(buffer: &EditBuffer, cursor: &Cursor, corner: &Cursor, width: usize, count: usize) -> (rows: Vec<
    Row,
>)
    ensures
        rows_show(rows@, buffer.lines(), nowrap_rows(buffer.lines(), *cursor, *corner, width, count)),
        rows@.len() <= count,
        forall|i: int| 0 <= i < rows@.len() ==> fits((#[trigger] rows@[i]).segment(), width),
{
    let lines: usize = buffer.get_lines();
    let ghost want = nowrap_rows(buffer.lines(), *cursor, *corner, width, count);
    let mut rows: Vec<Row> = Vec::new();
    let mut line: usize = corner.y;
    while line < lines && rows.len() < count
        invariant
            lines == buffer.lines().len(),
            want == nowrap_rows(buffer.lines(), *cursor, *corner, width, count),
            line == corner.y + rows@.len(),
            rows@.len() <= want.len(),
            line >= lines || rows@.len() >= count ==> rows@.len() == want.len(),
            rows_show(rows@, buffer.lines(), want.take(rows@.len() as int)),
            rows@.len() <= count,
            forall|i: int| 0 <= i < rows@.len() ==> fits((#[trigger] rows@[i]).segment(), width),
        decreases lines - line,
    {
        let len: usize = buffer.line(line).len();
        let end: usize = if len <= corner.x {
            corner.x
        } else if len - corner.x <= width {
            len
        } else {
            corner.x + width
        };
        let seg = Segment {
            line,
            start: corner.x,
            end,
            cursor_line: line == cursor.y && corner.x <= cursor.x && cursor.x <= len,
        };
        let ghost before = rows@;
        let row = row_at(buffer, &seg);
        rows.push(row);
        proof {
            assert(seg == want[before.len() as int]);
            assert forall|i: int| 0 <= i < rows@.len() implies {
                &&& (#[trigger] rows@[i]).segment() == want.take(rows@.len() as int)[i]
                &&& rows@[i].text@ == segment_text(buffer.lines(), want.take(rows@.len() as int)[i])
            } by {
                if i < before.len() {
                    assert(rows@[i] == before[i]);
                    assert(want.take(before.len() as int)[i] == want[i]);
                }
            }
        }
        line += 1;
    }
    proof {
        assert(want.take(want.len() as int) =~= want);
    }
    rows
}

/// The columns of a line of `len` characters that are left from column `from` on.
spec fn columns_left(len: int, from: int) -> int {
    if from < len {
        len - from
    } else {
        0
    }
}

/// The column at which the segment that starts at column `from` ends.
spec fn segment_end(len: int, from: int, width: usize) -> int {
    if from >= len {
        from
    } else if len - from <= width {
        len
    } else {
        from + width
    }
}

/// The first of the segments from column `from` of `line` on.
spec fn first_segment(lines: Seq<Seq<char>>, cursor: Cursor, line: int, from: int, width: usize) -> Segment {
    let end = segment_end(lines[line].len() as int, from, width);
    Segment {
        line: line as usize,
        start: from as usize,
        end: end as usize,
        cursor_line: holds_cursor(cursor, line, from, end),
    }
}

/// The segments from a place on are the first of them, and then the
/// segments from where that one ends: further on in the line, or at the
/// start of the next line.
proof fn lemma_first_segment(lines: Seq<Seq<char>>, cursor: Cursor, line: int, from: int, width: usize)
    requires
        0 <= line < lines.len(),
        0 <= from,
        width > 0,
    ensures
        segments_from(lines, cursor, line, from, width) == seq![first_segment(lines, cursor, line, from, width)]
            + (if segment_end(lines[line].len() as int, from, width) >= lines[line].len() {
            segments_from(lines, cursor, line + 1, 0, width)
        } else {
            segments_from(lines, cursor, line, segment_end(lines[line].len() as int, from, width), width)
        }),
{
    let len = lines[line].len() as int;
    let end = segment_end(len, from, width);
    let tail = segments_from(lines, cursor, line + 1, 0, width);
    let first = seq![first_segment(lines, cursor, line, from, width)];
    if from >= len {
        assert(segments_from(lines, cursor, line, from, width) == first + tail);
    } else if end >= len {
        assert(chunks(cursor, line, len, end, width) =~= Seq::<Segment>::empty());
        assert(chunks(cursor, line, len, from, width) =~= first);
    } else {
        let more = chunks(cursor, line, len, end, width);
        assert(chunks(cursor, line, len, from, width) == first + more);
        assert(segments_from(lines, cursor, line, end, width) == more + tail);
        assert((first + more) + tail =~= first + (more + tail));
    }
}

/// Whether a row holds the cursor after one more row was added.
proof fn lemma_has_cursor_push(rows: Seq<Segment>, seg: Segment)
    ensures
        has_cursor(rows.push(seg)) == (has_cursor(rows) || seg.cursor_line),
{
    let longer = rows.push(seg);
    if has_cursor(rows) {
        let i = choose|i: int| 0 <= i < rows.len() && (#[trigger] rows[i]).cursor_line;
        assert(longer[i].cursor_line);
    }
    if seg.cursor_line {
        assert(longer[rows.len() as int].cursor_line);
    }
    if has_cursor(longer) {
        let i = choose|i: int| 0 <= i < longer.len() && (#[trigger] longer[i]).cursor_line;
        if i < rows.len() {
            assert(rows[i].cursor_line);
        }
    }
}

/// One step of choosing rows: where the rows so far are not enough and a
/// segment follows them, the rows with that segment are the longer start
/// of all segments, and no shorter start is enough.
proof fn lemma_take_one(all: Seq<Segment>, height: usize, before: Seq<Segment>, seg: Segment, after: Seq<Segment>)
    requires
        all == before + (seq![seg] + after),
        before.len() < height || !has_cursor(before),
        forall|m: int| 0 <= m < before.len() ==> !enough(all, height, m),
    ensures
        all == before.push(seg) + after,
        forall|m: int| 0 <= m < before.len() + 1 ==> !enough(all, height, m),
{
    assert(all =~= before.push(seg) + after);
    assert(all.take(before.len() as int) =~= before);
}

/// Lays the text out in a wrapping view: the rows `wrap_rows`. The corner
/// moves to `wrap_corner`.
pub fn rows_wrap(buffer: &EditBuffer, cursor: &Cursor, corner: &mut Cursor, width: usize, height: usize) -> (rows: Vec<
    Row,
>)
    ensures
        rows_show(rows@, buffer.lines(), wrap_rows(buffer.lines(), *cursor, *old(corner), width, height)),
        *final(corner) == wrap_corner(buffer.lines(), *cursor, *old(corner), width, height),
        rows@.len() <= height,
        forall|i: int| 0 <= i < rows@.len() ==> fits((#[trigger] rows@[i]).segment(), width),
{
    let ghost lines = buffer.lines();
    let ghost all = wrap_segments(lines, *cursor, *corner, width, height);
    if width == 0 || height == 0 {
        proof {
            lemma_stops_once(all, height, 0);
            assert(all.take(0) =~= Seq::<Segment>::empty());
        }
        return Vec::new();
    }
    let count: usize = buffer.get_lines();
    let mut segments: Vec<Segment> = Vec::new();
    let mut saw: bool = false;
    let mut line: usize = corner.y;
    let mut from: usize = corner.x;
    proof {
        assert(all =~= segments@ + segments_from(lines, *cursor, line as int, from as int, width));
    }
    while line < count && (segments.len() < height || !saw)
        invariant
            width > 0,
            height > 0,
            lines == buffer.lines(),
            count == lines.len(),
            all == segments@ + segments_from(lines, *cursor, line as int, from as int, width),
            saw == has_cursor(segments@),
            forall|m: int| 0 <= m < segments@.len() ==> !enough(all, height, m),
            forall|i: int| 0 <= i < segments@.len() ==> placed(lines, #[trigger] segments@[i]),
            forall|i: int| 0 <= i < segments@.len() ==> fits(#[trigger] segments@[i], width),
        decreases count - line, columns_left(lines[line as int].len() as int, from as int),
    {
        let len: usize = buffer.line(line).len();
        let end: usize = if from >= len {
            from
        } else if len - from <= width {
            len
        } else {
            from + width
        };
        let seg = Segment {
            line,
            start: from,
            end,
            cursor_line: line == cursor.y && from <= cursor.x && cursor.x <= end,
        };
        let ghost before = segments@;
        proof {
            lemma_first_segment(lines, *cursor, line as int, from as int, width);
            assert(seg == first_segment(lines, *cursor, line as int, from as int, width));
            assert(placed(lines, seg));
            lemma_has_cursor_push(before, seg);
        }
        segments.push(seg);
        saw = saw || seg.cursor_line;
        if end >= len {
            proof {
                lemma_take_one(all, height, before, seg, segments_from(lines, *cursor, line + 1, 0, width));
            }
            line += 1;
            from = 0;
        } else {
            proof {
                lemma_take_one(
                    all,
                    height,
                    before,
                    seg,
                    segments_from(lines, *cursor, line as int, end as int, width),
                );
            }
            from = end;
        }
    }
    let taken: usize = segments.len();
    proof {
        assert(all.take(taken as int) =~= segments@);
        if line >= count {
            assert(all =~= segments@);
        }
        lemma_stops_once(all, height, taken as int);
    }
    let first: usize = if taken > height {
        taken - height
    } else {
        0
    };
    if taken > height {
        corner.set_y(segments[first].line);
        corner.set_x(segments[first].start);
    }
    let ghost want = wrap_rows(lines, *cursor, *old(corner), width, height);
    proof {
        assert(want =~= segments@.subrange(first as int, taken as int));
    }
    let mut rows: Vec<Row> = Vec::new();
    let mut i: usize = first;
    while i < taken
        invariant
            first <= i <= taken,
            taken == segments@.len(),
            lines == buffer.lines(),
            want == segments@.subrange(first as int, taken as int),
            forall|k: int| 0 <= k < segments@.len() ==> placed(lines, #[trigger] segments@[k]),
            forall|k: int| 0 <= k < segments@.len() ==> fits(#[trigger] segments@[k], width),
            rows@.len() == i - first,
            forall|k: int|
                0 <= k < rows@.len() ==> {
                    &&& (#[trigger] rows@[k]).segment() == want[k]
                    &&& rows@[k].text@ == segment_text(lines, want[k])
                },
        decreases taken - i,
    {
        let row = row_at(buffer, &segments[i]);
        rows.push(row);
        i += 1;
    }
    rows
}

/// Whether a row of a wrapping view can hold `cursor`: it stands on a line
/// of the text, on a character of the line or behind its last one.
pub open spec fn reachable(lines: Seq<Seq<char>>, cursor: Cursor) -> bool {
    cursor.y < lines.len() && cursor.x <= lines[cursor.y as int].len()
}

/// Whether a row of `rows` holds the cursor, if either of two runs of rows does.
proof fn lemma_has_cursor_add(first: Seq<Segment>, second: Seq<Segment>)
    ensures
        has_cursor(first + second) == (has_cursor(first) || has_cursor(second)),
{
    let both = first + second;
    if has_cursor(first) {
        let i = choose|i: int| 0 <= i < first.len() && (#[trigger] first[i]).cursor_line;
        assert(both[i].cursor_line);
    }
    if has_cursor(second) {
        let i = choose|i: int| 0 <= i < second.len() && (#[trigger] second[i]).cursor_line;
        assert(both[first.len() + i].cursor_line);
    }
    if has_cursor(both) {
        let i = choose|i: int| 0 <= i < both.len() && (#[trigger] both[i]).cursor_line;
        if i < first.len() {
            assert(first[i].cursor_line);
        } else {
            assert(second[i - first.len()].cursor_line);
        }
    }
}

/// One of the chunks of a line holds a cursor that stands on the line, at
/// or behind the column where the chunks begin.
proof fn lemma_chunks_hold_cursor(cursor: Cursor, line: int, len: int, from: int, width: usize)
    requires
        width > 0,
        line == cursor.y,
        0 <= from < len,
        from <= cursor.x <= len,
    ensures
        has_cursor(chunks(cursor, line, len, from, width)),
    decreases len - from,
{
    let end = segment_end(len, from, width);
    let here = chunks(cursor, line, len, from, width);
    if cursor.x <= end {
        assert(here[0].cursor_line);
    } else {
        lemma_chunks_hold_cursor(cursor, line, len, end, width);
        let first = seq![here[0]];
        lemma_has_cursor_add(first, chunks(cursor, line, len, end, width));
    }
}

/// One of the segments from a place on holds a cursor that can be
/// reached and does not stand before that place.
proof fn lemma_segments_hold_cursor(lines: Seq<Seq<char>>, cursor: Cursor, line: int, from: int, width: usize)
    requires
        width > 0,
        reachable(lines, cursor),
        0 <= line,
        0 <= from,
        line < cursor.y || (line == cursor.y && from <= cursor.x),
    ensures
        has_cursor(segments_from(lines, cursor, line, from, width)),
    decreases lines.len() - line,
{
    let len = lines[line].len() as int;
    let here = line_segments(cursor, line, len, from, width);
    let tail = segments_from(lines, cursor, line + 1, 0, width);
    if line == cursor.y {
        if from >= len {
            assert(here[0].cursor_line);
        } else {
            lemma_chunks_hold_cursor(cursor, line, len, from, width);
        }
    } else {
        lemma_segments_hold_cursor(lines, cursor, line + 1, 0, width);
    }
    lemma_has_cursor_add(here, tail);
}

/// From `k` on there is a smallest number of segments that are enough,
/// where no smaller number than `k` is.
proof fn lemma_stops_from(all: Seq<Segment>, height: usize, k: int)
    requires
        0 <= k <= all.len(),
        forall|m: int| 0 <= m < k ==> !enough(all, height, m),
    ensures
        stops_at(all, height, taken(all, height)),
    decreases all.len() - k,
{
    if enough(all, height, k) {
        assert(stops_at(all, height, k));
    } else {
        lemma_stops_from(all, height, k + 1);
    }
}

/// The number of segments that a wrapping view takes is the smallest number that is enough.
pub proof fn lemma_taken_stops(all: Seq<Segment>, height: usize)
    ensures
        stops_at(all, height, taken(all, height)),
{
    lemma_stops_from(all, height, 0);
}

/// The rows of a wrapping view with at least one cell hold the cursor,
/// where the cursor can be reached and the corner does not lie behind it.
pub proof fn lemma_wrap_rows_hold_cursor(lines: Seq<Seq<char>>, cursor: Cursor, corner: Cursor, width: usize, height: usize)
    requires
        width > 0,
        height > 0,
        reachable(lines, cursor),
        !cursor.before(corner),
    ensures
        has_cursor(wrap_rows(lines, cursor, corner, width, height)),
        wrap_rows(lines, cursor, corner, width, height).len() <= height,
{
    let all = wrap_segments(lines, cursor, corner, width, height);
    let n = taken(all, height);
    let rows = wrap_rows(lines, cursor, corner, width, height);
    lemma_segments_hold_cursor(lines, cursor, corner.y as int, corner.x as int, width);
    lemma_taken_stops(all, height);
    assert(all.take(all.len() as int) =~= all);
    assert(has_cursor(all.take(n)));
    let i = choose|i: int| 0 <= i < all.take(n).len() && (#[trigger] all.take(n)[i]).cursor_line;
    if n > height {
        assert(!enough(all, height, n - 1));
        if i < n - 1 {
            assert(all.take(n - 1)[i].cursor_line);
        }
        assert(rows[height - 1] == all[n - 1]);
        assert(rows[height - 1].cursor_line);
    } else {
        assert(rows[i].cursor_line);
    }
}

/// Whether `seg` starts on a character of a line of `lines`, or at the
/// start of an empty line.
pub open spec fn starts_in_text(lines: Seq<Seq<char>>, seg: Segment) -> bool {
    &&& seg.line < lines.len()
    &&& seg.start == 0 || seg.start < lines[seg.line as int].len()
}

/// Each chunk of a line starts on a character of the line.
proof fn lemma_chunk_starts(cursor: Cursor, line: int, len: int, from: int, width: usize)
    requires
        width > 0,
        0 <= line <= usize::MAX,
        0 <= from < len <= usize::MAX,
    ensures
        forall|i: int|
            0 <= i < chunks(cursor, line, len, from, width).len() ==> {
                &&& (#[trigger] chunks(cursor, line, len, from, width)[i]).line == line
                &&& chunks(cursor, line, len, from, width)[i].start < len
            },
    decreases len - from,
{
    let end = segment_end(len, from, width);
    let here = chunks(cursor, line, len, from, width);
    let more = chunks(cursor, line, len, end, width);
    if end < len {
        lemma_chunk_starts(cursor, line, len, end, width);
    } else {
        assert(more =~= Seq::<Segment>::empty());
    }
    assert forall|i: int| 0 <= i < here.len() implies {
        &&& (#[trigger] here[i]).line == line
        &&& here[i].start < len
    } by {
        if i > 0 {
            assert(here[i] == more[i - 1]);
        }
    }
}

/// Each segment from a place on starts in the text, but for the first
/// where the place itself lies behind the end of its line.
proof fn lemma_segment_starts(lines: Seq<Seq<char>>, cursor: Cursor, line: int, from: int, width: usize)
    requires
        width > 0,
        holdable(lines),
        0 <= line,
        0 <= from <= usize::MAX,
    ensures
        forall|i: int|
            0 <= i < segments_from(lines, cursor, line, from, width).len() && (i > 0 || from == 0 || from
                < lines[line].len()) ==> starts_in_text(
                lines,
                #[trigger] segments_from(lines, cursor, line, from, width)[i],
            ),
    decreases lines.len() - line,
{
    if line < lines.len() {
        let len = lines[line].len() as int;
        let here = line_segments(cursor, line, len, from, width);
        let tail = segments_from(lines, cursor, line + 1, 0, width);
        lemma_segment_starts(lines, cursor, line + 1, 0, width);
        if from < len {
            lemma_chunk_starts(cursor, line, len, from, width);
        }
        assert forall|i: int|
            0 <= i < (here + tail).len() && (i > 0 || from == 0 || from < len) implies starts_in_text(
            lines,
            #[trigger] (here + tail)[i],
        ) by {
            if i < here.len() {
                assert((here + tail)[i] == here[i]);
            } else {
                assert((here + tail)[i] == tail[i - here.len()]);
                if line + 1 < lines.len() {
                    assert(0 < lines[line + 1].len() || lines[line + 1].len() == 0);
                }
            }
        }
    }
}

/// The chunks of a line are as many as the rows that are counted for
/// what is left of the line.
proof fn lemma_chunks_counted(cursor: Cursor, line: int, len: int, from: int, width: usize)
    requires
        width > 0,
        0 <= from < len,
    ensures
        chunks(cursor, line, len, from, width).len() == rows_of_line((len - from) as nat, width),
    decreases len - from,
{
    let end = segment_end(len, from, width);
    if end < len {
        lemma_chunks_counted(cursor, line, len, end, width);
        vstd::arithmetic::div_mod::lemma_div_plus_one(len - end - 1, width as int);
    } else {
        assert(chunks(cursor, line, len, end, width) =~= Seq::<Segment>::empty());
        vstd::arithmetic::div_mod::lemma_basic_div(len - from - 1, width as int);
    }
}

/// The segments from the start of a line on, with the rows that are
/// counted for the lines before it, are the rows that are counted for
/// all lines.
proof fn lemma_segments_counted(lines: Seq<Seq<char>>, cursor: Cursor, line: int, width: usize)
    requires
        width > 0,
        0 <= line <= lines.len(),
    ensures
        rows_of_lines(lines.take(line), width) + segments_from(lines, cursor, line, 0, width).len()
            == rows_of_lines(lines, width),
    decreases lines.len() - line,
{
    if line == lines.len() {
        assert(lines.take(line) =~= lines);
    } else {
        let len = lines[line].len() as int;
        lemma_segments_counted(lines, cursor, line + 1, width);
        assert(lines.take(line + 1).drop_last() =~= lines.take(line));
        if len > 0 {
            lemma_chunks_counted(cursor, line, len, 0, width);
        }
    }
}

/// A wrapping view with at least one column cuts a text into as many
/// segments as `rows_of_lines` counts rows.
pub proof fn lemma_rows_counted(lines: Seq<Seq<char>>, cursor: Cursor, width: usize)
    requires
        width > 0,
    ensures
        segments_from(lines, cursor, 0, 0, width).len() == rows_of_lines(lines, width),
{
    lemma_segments_counted(lines, cursor, 0, width);
    assert(lines.take(0) =~= Seq::<Seq<char>>::empty());
}

/// Whether `seg` tells the truth about the cursor: it says that it holds
/// the cursor only where the cursor stands in it.
pub open spec fn marks(seg: Segment, cursor: Cursor) -> bool {
    seg.cursor_line ==> seg.line == cursor.y && seg.start <= cursor.x <= seg.end
}

/// Each chunk of a line is no wider than the view, and marks the cursor.
proof fn lemma_chunks_fit(cursor: Cursor, line: int, len: int, from: int, width: usize)
    requires
        width > 0,
        0 <= line <= usize::MAX,
        0 <= from < len <= usize::MAX,
    ensures
        forall|i: int|
            0 <= i < chunks(cursor, line, len, from, width).len() ==> {
                &&& fits(#[trigger] chunks(cursor, line, len, from, width)[i], width)
                &&& marks(chunks(cursor, line, len, from, width)[i], cursor)
            },
    decreases len - from,
{
    let end = segment_end(len, from, width);
    let here = chunks(cursor, line, len, from, width);
    let more = chunks(cursor, line, len, end, width);
    if end < len {
        lemma_chunks_fit(cursor, line, len, end, width);
    } else {
        assert(more =~= Seq::<Segment>::empty());
    }
    assert forall|i: int| 0 <= i < here.len() implies {
        &&& fits(#[trigger] here[i], width)
        &&& marks(here[i], cursor)
    } by {
        if i > 0 {
            assert(here[i] == more[i - 1]);
        }
    }
}

/// Each segment from a place on is no wider than the view, and marks the cursor.
proof fn lemma_segments_fit(lines: Seq<Seq<char>>, cursor: Cursor, line: int, from: int, width: usize)
    requires
        width > 0,
        holdable(lines),
        0 <= line,
        0 <= from <= usize::MAX,
    ensures
        forall|i: int|
            0 <= i < segments_from(lines, cursor, line, from, width).len() ==> {
                &&& fits(#[trigger] segments_from(lines, cursor, line, from, width)[i], width)
                &&& marks(segments_from(lines, cursor, line, from, width)[i], cursor)
            },
    decreases lines.len() - line,
{
    if line < lines.len() {
        let len = lines[line].len() as int;
        let here = line_segments(cursor, line, len, from, width);
        let tail = segments_from(lines, cursor, line + 1, 0, width);
        lemma_segments_fit(lines, cursor, line + 1, 0, width);
        if from < len {
            lemma_chunks_fit(cursor, line, len, from, width);
        }
        assert forall|i: int| 0 <= i < (here + tail).len() implies {
            &&& fits(#[trigger] (here + tail)[i], width)
            &&& marks((here + tail)[i], cursor)
        } by {
            if i < here.len() {
                assert((here + tail)[i] == here[i]);
            } else {
                assert((here + tail)[i] == tail[i - here.len()]);
            }
        }
    }
}

/// Each row of a wrapping view is no wider than the view, and marks the cursor.
pub proof fn lemma_wrap_rows_fit(lines: Seq<Seq<char>>, cursor: Cursor, corner: Cursor, width: usize, height: usize)
    requires
        holdable(lines),
    ensures
        forall|i: int|
            0 <= i < wrap_rows(lines, cursor, corner, width, height).len() ==> {
                &&& fits(#[trigger] wrap_rows(lines, cursor, corner, width, height)[i], width)
                &&& marks(wrap_rows(lines, cursor, corner, width, height)[i], cursor)
            },
{
    let all = wrap_segments(lines, cursor, corner, width, height);
    let n = taken(all, height);
    lemma_taken_stops(all, height);
    if width > 0 && height > 0 {
        lemma_segments_fit(lines, cursor, corner.y as int, corner.x as int, width);
    }
}

/// Where a wrapping view leaves segments out before its rows, its corner
/// moves to a place in the text: onto a character, or to the start of an
/// empty line. Else the corner stays.
pub proof fn lemma_wrap_corner_in_text(lines: Seq<Seq<char>>, cursor: Cursor, corner: Cursor, width: usize, height: usize)
    requires
        holdable(lines),
    ensures
        wrap_corner(lines, cursor, corner, width, height) == corner || {
            &&& wrap_corner(lines, cursor, corner, width, height).y < lines.len()
            &&& wrap_corner(lines, cursor, corner, width, height).x == 0 || wrap_corner(
                lines,
                cursor,
                corner,
                width,
                height,
            ).x < lines[wrap_corner(lines, cursor, corner, width, height).y as int].len()
        },
{
    let all = wrap_segments(lines, cursor, corner, width, height);
    let n = taken(all, height);
    lemma_taken_stops(all, height);
    if n > height {
        lemma_segment_starts(lines, cursor, corner.y as int, corner.x as int, width);
        assert(starts_in_text(lines, all[n - height]));
    }
}

} // verus!
