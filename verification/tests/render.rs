use textbox::base::TargetShape;
use textbox::buffer::{EditBuffer, Selection};
use textbox::cursor::Cursor;
use textbox::rect::Rect;
use textbox::state::TextBoxState;
use textbox::widget::{can_draw, TextBox};
use tui::buffer::Buffer;
use tui::style::Modifier;
use tui::widgets::{Block, Borders};

fn mkboxstr(s: &str) -> (TextBoxState, EditBuffer) {
    let mut buffer = EditBuffer::new();
    let tbox = TextBoxState::new(&mut buffer);

    tbox.set_text(&mut buffer, s);

    (tbox, buffer)
}

fn screen(width: u16, height: u16) -> Buffer {
    Buffer::empty(tui::layout::Rect::new(0, 0, width, height))
}

fn row_text(screen: &Buffer, y: u16) -> String {
    let mut s = String::new();
    for x in 0..screen.area.width {
        s.push_str(&screen.get(x, y).symbol);
    }
    s
}

fn reversed(screen: &Buffer, y: u16) -> Vec<u16> {
    let mut cells = Vec::new();
    for x in 0..screen.area.width {
        if screen.get(x, y).modifier.contains(Modifier::REVERSED) {
            cells.push(x);
        }
    }
    cells
}

#[test]
fn test_render_nowrap() {
    let (mut tbox, mut buffer) = mkboxstr("foo\nbar\nbaz\nquux 1 2 3 4 5");

    tbox.set_wrap(false);

    let mut screen = screen(10, 10);
    let area = Rect::new(0, 8, 10, 2);
    assert!(can_draw(&screen, &area));

    TextBox::new().prompt("> ").render(area, &mut screen, &mut tbox, &buffer);

    assert_eq!(tbox.viewctx.corner, Cursor::new(0, 0));
    assert_eq!(tbox.get_cursor(&buffer), Cursor::new(0, 0));
    assert_eq!(tbox.get_term_cursor(), (2, 8));

    // Move the cursor to the fourth line, thereby moving corner.
    buffer.set_leader(tbox.group_id, Cursor::new(3, 0));

    TextBox::new().prompt("> ").render(area, &mut screen, &mut tbox, &buffer);

    assert_eq!(tbox.viewctx.corner, Cursor::new(2, 0));
    assert_eq!(tbox.get_cursor(&buffer), Cursor::new(3, 0));
    assert_eq!(tbox.get_term_cursor(), (2, 9));

    // Move the cursor to the end of the fourth line, again moving corner.
    buffer.set_leader(tbox.group_id, Cursor::new(3, 13));

    TextBox::new().prompt("> ").render(area, &mut screen, &mut tbox, &buffer);

    assert_eq!(tbox.viewctx.corner, Cursor::new(2, 6));
    assert_eq!(tbox.get_cursor(&buffer), Cursor::new(3, 13));
    assert_eq!(tbox.get_term_cursor(), (9, 9));

    // Now move back to the top-left corner.
    buffer.set_leader(tbox.group_id, Cursor::new(0, 0));

    TextBox::new().prompt("> ").render(area, &mut screen, &mut tbox, &buffer);

    assert_eq!(tbox.viewctx.corner, Cursor::new(0, 0));
    assert_eq!(tbox.get_cursor(&buffer), Cursor::new(0, 0));
    assert_eq!(tbox.get_term_cursor(), (2, 8));
}

#[test]
fn render_writes_prompt_and_text() {
    let (mut tbox, buffer) = mkboxstr("foo\nbar\nbaz\nquux 1 2 3 4 5");
    tbox.set_wrap(false);

    let mut screen = screen(10, 4);
    TextBox::new().prompt("> ").render(Rect::new(0, 0, 10, 4), &mut screen, &mut tbox, &buffer);

    assert_eq!(row_text(&screen, 0), "> foo     ");
    assert_eq!(row_text(&screen, 1), "  bar     ");
    assert_eq!(row_text(&screen, 2), "  baz     ");
    assert_eq!(row_text(&screen, 3), "  quux 1 2");
    assert_eq!(tbox.term_area, Rect::new(2, 0, 8, 4));
    assert_eq!(tbox.viewctx.dimensions, (8, 4));
}

#[test]
fn render_wraps_long_lines() {
    let (mut tbox, mut buffer) = mkboxstr("abcdefghij\nxy\n\nklmnopqrstuvw");
    tbox.set_wrap(true);

    let mut screen = screen(4, 3);
    tbox.draw(Rect::new(0, 0, 4, 3), &mut screen, &buffer);

    assert_eq!(row_text(&screen, 0), "abcd");
    assert_eq!(row_text(&screen, 1), "efgh");
    assert_eq!(row_text(&screen, 2), "ij  ");
    assert_eq!(tbox.viewctx.corner, Cursor::new(0, 0));
    assert_eq!(tbox.get_term_cursor(), (0, 0));

    // The cursor's segment lies many rows below the corner: it is kept as the last row.
    buffer.set_leader(tbox.group_id, Cursor::new(3, 9));
    let mut screen = self::screen(4, 3);
    tbox.draw(Rect::new(0, 0, 4, 3), &mut screen, &buffer);

    assert_eq!(tbox.viewctx.corner, Cursor::new(3, 0));
    assert_eq!(row_text(&screen, 0), "klmn");
    assert_eq!(row_text(&screen, 1), "opqr");
    assert_eq!(row_text(&screen, 2), "stuv");
    assert_eq!(tbox.get_term_cursor(), (1, 2));

    // An empty line is a row of its own.
    buffer.set_leader(tbox.group_id, Cursor::new(2, 0));
    let mut screen = self::screen(4, 3);
    tbox.draw(Rect::new(0, 0, 4, 3), &mut screen, &buffer);

    assert_eq!(tbox.viewctx.corner, Cursor::new(2, 0));
    assert_eq!(row_text(&screen, 0), "    ");
    assert_eq!(row_text(&screen, 1), "klmn");
    assert_eq!(row_text(&screen, 2), "opqr");
    assert_eq!(tbox.get_term_cursor(), (0, 0));
}

#[test]
fn render_skips_regions_without_cells() {
    let (mut tbox, buffer) = mkboxstr("foo");
    let before = tbox;
    let mut screen = screen(4, 3);
    let blank = screen.clone();

    TextBox::new().prompt("prompt").render(Rect::new(0, 0, 4, 3), &mut screen, &mut tbox, &buffer);
    assert_eq!(screen, blank);
    assert_eq!(tbox.term_area, before.term_area);
    assert_eq!(tbox.viewctx.dimensions, before.viewctx.dimensions);

    tbox.draw(Rect::new(0, 0, 4, 0), &mut screen, &buffer);
    assert_eq!(screen, blank);
    assert_eq!(tbox.viewctx.dimensions, (0, 0));
}

#[test]
fn render_reverses_selections_and_followers() {
    let (mut tbox, mut buffer) = mkboxstr("abcdefgh\nijklmnop\nqrstuvwx\n");
    tbox.set_wrap(false);
    buffer.set_selections(
        tbox.group_id,
        vec![Selection { start: Cursor::new(0, 5), end: Cursor::new(1, 2), shape: TargetShape::CharWise }],
    );
    buffer.set_followers(tbox.group_id, vec![Cursor::new(2, 3), Cursor::new(2, 7), Cursor::new(1, 6)]);

    let mut screen = screen(8, 3);
    tbox.draw(Rect::new(0, 0, 8, 3), &mut screen, &buffer);

    assert_eq!(reversed(&screen, 0), vec![5, 6, 7]);
    assert_eq!(reversed(&screen, 1), vec![0, 1, 2, 6]);
    assert_eq!(reversed(&screen, 2), vec![3, 7]);
}

#[test]
fn render_cuts_highlights_to_the_view() {
    let (mut tbox, mut buffer) = mkboxstr("abcdefghijklmnop\n");
    tbox.set_wrap(false);
    buffer.set_selections(
        tbox.group_id,
        vec![Selection { start: Cursor::new(0, 2), end: Cursor::new(0, 12), shape: TargetShape::LineWise }],
    );

    let mut screen = screen(6, 2);
    TextBox::new().prompt(">").render(Rect::new(0, 0, 6, 2), &mut screen, &mut tbox, &buffer);

    assert_eq!(row_text(&screen, 0), ">abcde");
    assert_eq!(reversed(&screen, 0), vec![1, 2, 3, 4, 5]);
    assert_eq!(reversed(&screen, 1), Vec::<u16>::new());
}

#[test]
fn can_draw_tells_regions_outside_the_screen() {
    let screen = screen(10, 10);
    assert!(can_draw(&screen, &Rect::new(0, 0, 10, 10)));
    assert!(can_draw(&screen, &Rect::new(3, 4, 7, 6)));
    assert!(!can_draw(&screen, &Rect::new(3, 4, 8, 6)));
    assert!(!can_draw(&screen, &Rect::new(0, 5, 10, 6)));
}

#[test]
fn rectangles_are_made_as_the_screen_makes_them() {
    assert_eq!(Rect::new(1, 2, 3, 4), Rect { x: 1, y: 2, width: 3, height: 4 });
    assert_eq!(Rect::new(0, 0, 255, 257), Rect { x: 0, y: 0, width: 255, height: 257 });

    // More cells than a coordinate can count: the rectangle is made smaller.
    assert_eq!(Rect::new(1, 2, 300, 300), Rect { x: 1, y: 2, width: 255, height: 255 });
    for (width, height) in [(300, 300), (1000, 100), (65535, 2), (3, 65535), (65535, 65535)] {
        let theirs = tui::layout::Rect::new(7, 9, width, height);
        let ours = Rect::new(7, 9, width, height);
        assert_eq!((ours.x, ours.y, ours.width, ours.height), (theirs.x, theirs.y, theirs.width, theirs.height));
        assert!(ours.width < width || ours.height < height);
    }
}

#[test]
fn rectangles_know_their_edges() {
    let r = Rect::new(3, 4, 7, 6);
    assert_eq!((r.left(), r.right(), r.top(), r.bottom()), (3, 10, 4, 10));
    let r = Rect { x: 65530, y: 65535, width: 10, height: 1 };
    assert_eq!((r.left(), r.right(), r.top(), r.bottom()), (65530, 65535, 65535, 65535));

    let outer = Rect::new(2, 2, 8, 8);
    assert!(Rect::new(2, 2, 8, 8).is_inside(&outer));
    assert!(Rect::new(4, 9, 6, 1).is_inside(&outer));
    assert!(!Rect::new(1, 2, 8, 8).is_inside(&outer));
    assert!(!Rect::new(4, 9, 6, 2).is_inside(&outer));
    let far = Rect { x: 65530, y: 0, width: 10, height: 1 };
    assert!(!far.is_inside(&far));
}

#[test]
fn a_frame_leaves_its_inside_for_the_text() {
    let area = Rect::new(2, 1, 10, 5);
    assert_eq!(TextBox::new().inner_area(area), area);
    assert!(TextBox::new().frame().is_none());

    let framed = TextBox::new().block(Block::default().borders(Borders::ALL));
    assert!(framed.frame().is_some());
    assert_eq!(framed.inner_area(area), Rect::new(3, 2, 8, 3));

    let titled = TextBox::new().block(Block::default().title("title").borders(Borders::LEFT));
    assert_eq!(titled.inner_area(area), Rect::new(3, 2, 9, 4));
    assert_eq!(titled.inner_area(Rect::new(2, 1, 0, 0)), Rect::new(2, 1, 0, 0));
}

#[test]
fn render_draws_inside_the_frame() {
    let (mut tbox, buffer) = mkboxstr("foo\nbar");
    tbox.set_wrap(false);

    let mut screen = screen(10, 5);
    let block = Block::default().borders(Borders::ALL);
    TextBox::new().block(block).prompt(">").render(Rect::new(0, 0, 10, 5), &mut screen, &mut tbox, &buffer);

    assert_eq!(row_text(&screen, 0), "          ");
    assert_eq!(row_text(&screen, 1), " >foo     ");
    assert_eq!(row_text(&screen, 2), "  bar     ");
    assert_eq!(tbox.term_area, Rect::new(2, 1, 7, 3));
    assert_eq!(tbox.get_term_cursor(), (2, 1));
}

#[test]
fn render_reverses_blocks_and_lines() {
    let (mut tbox, mut buffer) = mkboxstr("abcdefgh\nijklmnop\nqrstuvwx\nyz\n");
    tbox.set_wrap(false);
    buffer.set_selections(
        tbox.group_id,
        vec![
            Selection { start: Cursor::new(0, 6), end: Cursor::new(1, 4), shape: TargetShape::BlockWise },
            Selection { start: Cursor::new(3, 1), end: Cursor::new(3, 1), shape: TargetShape::LineWise },
        ],
    );

    let mut screen = screen(8, 4);
    tbox.draw(Rect::new(0, 0, 8, 4), &mut screen, &buffer);

    assert_eq!(reversed(&screen, 0), vec![4, 5, 6]);
    assert_eq!(reversed(&screen, 1), vec![4, 5, 6]);
    assert_eq!(reversed(&screen, 2), Vec::<u16>::new());
    assert_eq!(reversed(&screen, 3), vec![0, 1]);
}

#[test]
fn render_reverses_cells_of_wrapped_rows() {
    let (mut tbox, mut buffer) = mkboxstr("abcdefghij\nxy\n");
    tbox.set_wrap(true);
    buffer.set_selections(
        tbox.group_id,
        vec![Selection { start: Cursor::new(0, 2), end: Cursor::new(0, 8), shape: TargetShape::CharWise }],
    );
    buffer.set_followers(tbox.group_id, vec![Cursor::new(0, 9), Cursor::new(1, 0), Cursor::new(1, 2)]);

    let mut screen = screen(6, 4);
    TextBox::new().prompt("> ").render(Rect::new(0, 0, 6, 4), &mut screen, &mut tbox, &buffer);

    assert_eq!(row_text(&screen, 0), "> abcd");
    assert_eq!(row_text(&screen, 1), "  efgh");
    assert_eq!(row_text(&screen, 2), "  ij  ");
    assert_eq!(row_text(&screen, 3), "  xy  ");
    assert_eq!(reversed(&screen, 0), vec![4, 5]);
    assert_eq!(reversed(&screen, 1), vec![2, 3, 4, 5]);
    assert_eq!(reversed(&screen, 2), vec![2, 3]);
    assert_eq!(reversed(&screen, 3), vec![2]);
}

#[test]
fn render_scrolled_sideways_reverses_what_shows() {
    let (mut tbox, mut buffer) = mkboxstr("abcdefghijklmnop\nqr\n");
    tbox.set_wrap(false);
    buffer.set_leader(tbox.group_id, Cursor::new(0, 9));
    buffer.set_selections(
        tbox.group_id,
        vec![Selection { start: Cursor::new(0, 3), end: Cursor::new(0, 7), shape: TargetShape::CharWise }],
    );
    buffer.set_followers(tbox.group_id, vec![Cursor::new(0, 4), Cursor::new(0, 9), Cursor::new(0, 10)]);

    let mut screen = screen(4, 2);
    tbox.draw(Rect::new(0, 0, 4, 2), &mut screen, &buffer);

    // The view shows the columns 6 to 9.
    assert_eq!(tbox.viewctx.corner, Cursor::new(0, 6));
    assert_eq!(row_text(&screen, 0), "ghij");
    assert_eq!(row_text(&screen, 1), "    ");
    assert_eq!(reversed(&screen, 0), vec![0, 1, 3]);
    assert_eq!(tbox.get_term_cursor(), (3, 0));
}

#[test]
fn render_keeps_what_lies_outside() {
    let (mut tbox, mut buffer) = mkboxstr("abcdefgh\n");
    tbox.set_wrap(false);
    buffer.set_selections(
        tbox.group_id,
        vec![Selection { start: Cursor::new(0, 0), end: Cursor::new(0, 9), shape: TargetShape::LineWise }],
    );

    let mut screen = screen(8, 4);
    screen.set_string(0, 0, "........", tui::style::Style::default().add_modifier(Modifier::REVERSED));
    screen.set_string(0, 3, "--------", tui::style::Style::default());
    tbox.draw(Rect::new(2, 1, 4, 2), &mut screen, &buffer);

    assert_eq!(row_text(&screen, 0), "........");
    assert_eq!(row_text(&screen, 1), "  abcd  ");
    assert_eq!(row_text(&screen, 3), "--------");
    assert_eq!(reversed(&screen, 0), vec![0, 1, 2, 3, 4, 5, 6, 7]);
    assert_eq!(reversed(&screen, 1), vec![2, 3, 4, 5]);
    assert_eq!(reversed(&screen, 2), Vec::<u16>::new());
    assert_eq!(reversed(&screen, 3), Vec::<u16>::new());
}
