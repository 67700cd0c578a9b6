//! The screen, as the `tui` crate holds it: a buffer of cells.
//!
//! Nothing in this file is proved: each contract states what the crate's
//! source shows of the function that it is about.

use vstd::prelude::*;
use tui::buffer::Buffer;
use tui::style::{Modifier, Style};
use tui::widgets::Block;
use crate::rect::{edge, Rect};

verus! {

/// `tui::buffer::Buffer`, the screen. Nothing is known of what it holds
/// but what the functions below say.
#[verifier::external_type_specification]
#[verifier::external_body]
pub struct ExBuffer(Buffer);

/// `tui::widgets::Block`, a frame. Nothing is known of what it holds.
#[verifier::external_type_specification]
#[verifier::external_body]
pub struct ExBlock<'a>(Block<'a>);

/// The region that a screen stands for: the column and the row of its
/// first cell, its width and its height.
pub uninterp spec fn screen_area(screen: Buffer) -> (u16, u16, u16, u16);

/// The number of cells that a screen holds.
pub uninterp spec fn screen_cells(screen: Buffer) -> nat;

/// The cells of a screen that are shown in reverse, each by its column and
/// its row.
pub uninterp spec fn screen_reversed(screen: Buffer) -> Set<(u16, u16)>;

/// The characters that the cells of a screen hold: those of each cell, in
/// the order in which the screen keeps its cells.
pub uninterp spec fn screen_symbols(screen: Buffer) -> Seq<Seq<char>>;

/// The characters that the cells of a screen hold after
/// `Buffer::set_stringn` has written `text` into row `y` from column `x`
/// on, into `width` cells at most, where the cells held `before` and the
/// screen stands for `area`.
pub uninterp spec fn symbols_written(
    before: Seq<Seq<char>>,
    area: (u16, u16, u16, u16),
    x: u16,
    y: u16,
    text: Seq<char>,
    width: usize,
) -> Seq<Seq<char>>;

/// The size that `tui::layout::Rect::new` gives a rectangle of `width` by
/// `height` cells.
pub uninterp spec fn clipped_size(width: u16, height: u16) -> (u16, u16);

/// The region that a screen stands for.
pub open spec fn screen_rect(screen: Buffer) -> Rect {
    let area = screen_area(screen);
    Rect { x: area.0, y: area.1, width: area.2, height: area.3 }
}

/// Whether a screen can be drawn on: it holds one cell for each place of
/// its region, and no more of them than a coordinate can count.
pub open spec fn drawable(screen: Buffer) -> bool {
    let area = screen_rect(screen);
    area.width * area.height <= u16::MAX && screen_cells(screen) == area.width * area.height
}

/// Whether the screen has a cell at column `x` and row `y`.
pub open spec fn on_screen(screen: Buffer, x: u16, y: u16) -> bool {
    let area = screen_rect(screen);
    area.x <= x < edge(area.x, area.width) && area.y <= y < edge(area.y, area.height)
}

/// Whether the cell at column `cell.0` and row `cell.1` lies in `area`.
pub open spec fn cell_in(area: Rect, cell: (u16, u16)) -> bool {
    area.x <= cell.0 < area.x + area.width && area.y <= cell.1 < area.y + area.height
}

/// The coordinate behind `start`, but no further than `limit`.
pub open spec fn step_in(start: u16, limit: u16) -> u16 {
    if start.saturating_add(1) <= limit {
        start.saturating_add(1)
    } else {
        limit
    }
}

/// The region that a frame leaves of `area` for what it frames, where the
/// frame takes a cell on the sides named: the region starts one cell
/// further in on the left and at the top, and is one cell smaller for
/// each side, as far as it has cells.
pub open spec fn framed_inner(area: Rect, left: bool, top: bool, right: bool, bottom: bool) -> Rect {
    let width = if left {
        area.width.saturating_sub(1)
    } else {
        area.width
    };
    let height = if top {
        area.height.saturating_sub(1)
    } else {
        area.height
    };
    Rect {
        x: if left {
            step_in(area.x, edge(area.x, area.width))
        } else {
            area.x
        },
        y: if top {
            step_in(area.y, edge(area.y, area.height))
        } else {
            area.y
        },
        width: if right {
            width.saturating_sub(1)
        } else {
            width
        },
        height: if bottom {
            height.saturating_sub(1)
        } else {
            height
        },
    }
}

/// What a frame leaves of a region lies within the region.
pub proof fn lemma_framed_inner_within(area: Rect, left: bool, top: bool, right: bool, bottom: bool)
    ensures
        framed_inner(area, left, top, right, bottom).within(area),
{
}

/// Whether drawing left the screen its region and its cells.
pub open spec fn same_screen(before: Buffer, after: Buffer) -> bool {
    screen_area(after) == screen_area(before) && screen_cells(after) == screen_cells(before)
}

/// `tui::layout::Rect::new`: the rectangle at `x` and `y`; its size is
/// `width` by `height` where that is no more cells than a coordinate can
/// count, and is cut down otherwise.
#[verifier::external_body]
pub(crate) fn rect_new(x: u16, y: u16, width: u16, height: u16) -> (r: Rect)
    ensures
        r.x == x,
        r.y == y,
        (r.width, r.height) == clipped_size(width, height),
        width * height <= u16::MAX ==> r.width == width && r.height == height,
{
    let r = tui::layout::Rect::new(x, y, width, height);
    Rect { x: r.x, y: r.y, width: r.width, height: r.height }
}

/// The field `area` of `tui::buffer::Buffer`: the region that the screen stands for.
#[verifier::external_body]
pub(crate) fn screen_bounds(screen: &Buffer) -> (area: Rect)
    ensures
        (area.x, area.y, area.width, area.height) == screen_area(*screen),
{
    Rect { x: screen.area.x, y: screen.area.y, width: screen.area.width, height: screen.area.height }
}

/// The length of the field `content` of `tui::buffer::Buffer`: the number
/// of cells that the screen holds.
#[verifier::external_body]
pub(crate) fn screen_len(screen: &Buffer) -> (cells: usize)
    ensures
        cells == screen_cells(*screen),
{
    screen.content.len()
}

/// `Buffer::set_stringn` with the default style: writes `text` into the
/// cells of row `y` from column `x` on, into `width` cells at most. It
/// needs a cell at that place. The screen keeps its region and its cells.
/// No cell comes to be shown in reverse, and the cells that are not
/// written to stay as they are. The characters that the cells hold
/// afterwards follow from those that they held, the screen's region and
/// what was handed in.
#[verifier::external_body]
pub(crate) fn put_text(screen: &mut Buffer, x: u16, y: u16, text: &str, width: usize)
    requires
        drawable(*old(screen)),
        on_screen(*old(screen), x, y),
    ensures
        screen_area(*final(screen)) == screen_area(*old(screen)),
        screen_cells(*final(screen)) == screen_cells(*old(screen)),
        forall|cell: (u16, u16)| #[trigger]
            screen_reversed(*final(screen)).contains(cell) ==> screen_reversed(*old(screen)).contains(cell),
        forall|cell: (u16, u16)|
            screen_reversed(*old(screen)).contains(cell) && !(cell.1 == y && x <= cell.0 < x + width)
                ==> #[trigger] screen_reversed(*final(screen)).contains(cell),
        screen_symbols(*final(screen)) == symbols_written(
            screen_symbols(*old(screen)),
            screen_area(*old(screen)),
            x,
            y,
            text@,
            width,
        ),
{
    screen.set_stringn(x, y, text, width, Style::default());
}

/// `Buffer::set_style` with the style that adds `Modifier::REVERSED`:
/// shows the cells of `area` in reverse, beside those that were. It needs
/// a cell at each place of `area`. The screen keeps its region and its
/// cells, and the cells keep their characters.
#[verifier::external_body]
pub(crate) fn put_reversed(screen: &mut Buffer, area: Rect)
    requires
        drawable(*old(screen)),
        area.inside(screen_rect(*old(screen))),
    ensures
        screen_area(*final(screen)) == screen_area(*old(screen)),
        screen_cells(*final(screen)) == screen_cells(*old(screen)),
        forall|cell: (u16, u16)| #[trigger]
            screen_reversed(*final(screen)).contains(cell) <==> screen_reversed(*old(screen)).contains(cell)
                || cell_in(area, cell),
        screen_symbols(*final(screen)) == screen_symbols(*old(screen)),
{
    let area = tui::layout::Rect { x: area.x, y: area.y, width: area.width, height: area.height };
    screen.set_style(area, Style::default().add_modifier(Modifier::REVERSED));
}

/// `Block::inner`: the region that a frame leaves for what it frames. The
/// frame takes one cell off each side of `area` on which it has a border,
/// and off the top where it has a title; which sides these are is not
/// known here.
#[verifier::external_body]
pub(crate) fn block_inner<'a>(block: &Block<'a>, area: Rect) -> (inner: Rect)
    ensures
        exists|left: bool, top: bool, right: bool, bottom: bool|
            inner == #[trigger] framed_inner(area, left, top, right, bottom),
{
    let r = block.inner(tui::layout::Rect { x: area.x, y: area.y, width: area.width, height: area.height });
    Rect { x: r.x, y: r.y, width: r.width, height: r.height }
}

} // verus!
