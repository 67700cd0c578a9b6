use textbox::base::{Count, EditContext};
use textbox::buffer::EditBuffer;
use textbox::cursor::Cursor;
use textbox::rect::Rect;
use textbox::state::TextBoxState;

fn with_text(s: &str) -> (TextBoxState, EditBuffer) {
    let mut buffer = EditBuffer::new();
    let tbox = TextBoxState::new(&mut buffer);
    tbox.set_text(&mut buffer, s);
    (tbox, buffer)
}

fn line(buffer: &EditBuffer, i: usize) -> String {
    buffer.line(i).iter().collect()
}

#[test]
fn new_buffer_has_one_empty_line() {
    let buffer = EditBuffer::new();
    assert_eq!(buffer.get_lines(), 1);
    assert_eq!(buffer.get_text(), "\n");
    assert!(!buffer.contains_group(0));
}

#[test]
fn text_is_cut_at_line_breaks() {
    let (tbox, buffer) = with_text("a\n\nbc");
    assert_eq!(tbox.get_lines(&buffer), 3);
    assert_eq!(line(&buffer, 0), "a");
    assert_eq!(line(&buffer, 1), "");
    assert_eq!(line(&buffer, 2), "bc");
    assert_eq!(tbox.get_text(&buffer), "a\n\nbc\n");
}

#[test]
fn a_last_line_break_ends_the_last_line() {
    let (tbox, buffer) = with_text("a\nbc\n");
    assert_eq!(tbox.get_lines(&buffer), 2);
    assert_eq!(tbox.get_text(&buffer), "a\nbc\n");

    let (tbox, buffer) = with_text("a\n\n");
    assert_eq!(tbox.get_lines(&buffer), 2);
    assert_eq!(line(&buffer, 1), "");
    assert_eq!(tbox.get_text(&buffer), "a\n\n");

    let (tbox, buffer) = with_text("");
    assert_eq!(tbox.get_lines(&buffer), 1);
    assert_eq!(tbox.get_text(&buffer), "\n");

    let (tbox, buffer) = with_text("\n");
    assert_eq!(tbox.get_lines(&buffer), 1);
    assert_eq!(tbox.get_text(&buffer), "\n");
}

#[test]
fn text_keeps_characters_of_several_bytes() {
    let (tbox, buffer) = with_text("häuser\n日本語");
    assert_eq!(buffer.line(0).len(), 6);
    assert_eq!(buffer.line(1).len(), 3);
    assert_eq!(tbox.get_text(&buffer), "häuser\n日本語\n");
}

#[test]
fn setting_text_puts_the_cursors_back() {
    let (tbox, mut buffer) = with_text("foo\nbar\nbaz");
    let other = tbox.dup(&mut buffer);
    buffer.set_leader(tbox.group_id, Cursor::new(2, 1));
    buffer.set_leader(other.group_id, Cursor::new(1, 2));
    buffer.set_followers(tbox.group_id, vec![Cursor::new(0, 1)]);

    tbox.set_text(&mut buffer, "quux");
    assert_eq!(tbox.get_cursor(&buffer), Cursor::new(0, 0));
    assert_eq!(other.get_cursor(&buffer), Cursor::new(0, 0));
    assert!(buffer.get_followers(tbox.group_id).is_empty());
    assert!(buffer.get_group_selections(tbox.group_id).is_empty());
    assert_eq!(other.get_text(&buffer), "quux\n");
}

#[test]
fn resetting_text_leaves_one_empty_line() {
    let (tbox, mut buffer) = with_text("foo\nbar\nbaz");
    buffer.set_leader(tbox.group_id, Cursor::new(2, 2));

    assert_eq!(tbox.reset_text(&mut buffer), "foo\nbar\nbaz\n");
    assert_eq!(tbox.get_lines(&buffer), 1);
    assert_eq!(line(&buffer, 0), "");
    assert_eq!(tbox.get_cursor(&buffer), Cursor::new(0, 0));
    assert_eq!(tbox.reset_text(&mut buffer), "\n");
}

#[test]
fn clamp_makes_a_cursor_legal() {
    let (_, buffer) = with_text("abc\n\nde");
    let clamp = |y: usize, x: usize| {
        let mut c = Cursor::new(y, x);
        buffer.clamp(&mut c);
        c
    };
    assert_eq!(clamp(0, 2), Cursor::new(0, 2));
    assert_eq!(clamp(0, 3), Cursor::new(0, 2));
    assert_eq!(clamp(1, 3), Cursor::new(1, 0));
    assert_eq!(clamp(5, 7), Cursor::new(2, 1));
    assert_eq!(clamp(usize::MAX, usize::MAX), Cursor::new(2, 1));
}

#[test]
fn views_share_the_text_and_keep_their_own_cursors() {
    let (mut first, mut buffer) = with_text("foo\nbar\nbaz");
    first.set_wrap(false);
    first.set_term_info(Rect::new(0, 0, 6, 4));
    first.viewctx.corner = Cursor::new(1, 0);
    first.term_cursor = (3, 3);
    buffer.set_leader(first.group_id, Cursor::new(2, 1));

    let second = first.dup(&mut buffer);
    assert!(buffer.contains_group(second.group_id));
    assert!(second.group_id != first.group_id);
    assert_eq!(second.get_cursor(&buffer), Cursor::new(0, 0));
    assert_eq!(first.get_cursor(&buffer), Cursor::new(2, 1));
    assert_eq!(second.viewctx.corner, Cursor::new(1, 0));
    assert_eq!(second.viewctx.dimensions, (6, 4));
    assert!(!second.viewctx.wrap);
    assert_eq!(second.term_area, Rect::default());
    assert_eq!(second.get_term_cursor(), (0, 0));

    second.set_text(&mut buffer, "shared");
    assert_eq!(first.get_text(&buffer), "shared\n");
}

#[test]
fn a_new_view_wraps_and_starts_at_the_top() {
    let mut buffer = EditBuffer::new();
    let mut tbox = TextBoxState::new(&mut buffer);
    assert!(tbox.viewctx.wrap);
    assert_eq!(tbox.viewctx.corner, Cursor::new(0, 0));
    assert_eq!(tbox.viewctx.dimensions, (0, 0));
    assert_eq!(tbox.get_term_cursor(), (0, 0));
    assert_eq!(tbox.get_cursor(&buffer), Cursor::new(0, 0));
    assert!(tbox.close());
}

#[test]
fn rows_needed_count_wrapped_lines() {
    let (mut tbox, buffer) = with_text("abcdefghij\nxy\n\nklmnopqrstuvw\nabcd");
    tbox.set_wrap(true);
    tbox.set_term_info(Rect::new(0, 0, 4, 3));
    // 3 + 1 + 1 + 4 + 1 rows.
    assert_eq!(tbox.has_lines(&buffer, 100), 10);
    assert_eq!(tbox.has_lines(&buffer, 10), 10);
    assert_eq!(tbox.has_lines(&buffer, 9), 9);
    assert_eq!(tbox.has_lines(&buffer, 1), 1);
    assert_eq!(tbox.has_lines(&buffer, 0), 0);

    tbox.set_term_info(Rect::new(0, 0, 0, 3));
    assert_eq!(tbox.has_lines(&buffer, 100), 0);

    tbox.set_wrap(false);
    assert_eq!(tbox.has_lines(&buffer, 100), 5);
    assert_eq!(tbox.has_lines(&buffer, 3), 3);
    assert_eq!(tbox.has_lines(&buffer, 0), 0);
}

#[test]
fn counts_resolve_in_their_context() {
    let mut ctx = EditContext::default();
    assert_eq!(ctx.resolve(&Count::Contextual), 1);
    assert_eq!(ctx.resolve(&Count::MinusOne), 0);
    assert_eq!(ctx.resolve(&Count::Exact(7)), 7);

    ctx.count = Some(4);
    assert_eq!(ctx.resolve(&Count::Contextual), 4);
    assert_eq!(ctx.resolve(&Count::MinusOne), 3);
    assert_eq!(ctx.resolve(&Count::Exact(7)), 7);

    ctx.count = Some(0);
    assert_eq!(ctx.resolve(&Count::Contextual), 0);
    assert_eq!(ctx.resolve(&Count::MinusOne), 0);
}
