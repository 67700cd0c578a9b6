use textbox::cursor::Cursor;
use textbox::viewport::{shift_corner, shift_corner_nowrap, shift_corner_wrap, shift_cursor, ViewportContext};

fn nowrap(cursor: (usize, usize), corner: (usize, usize), width: usize, height: usize) -> Cursor {
    let mut corner = Cursor::new(corner.0, corner.1);
    shift_corner_nowrap(&Cursor::new(cursor.0, cursor.1), &mut corner, width, height);
    corner
}

fn wrap(cursor: (usize, usize), corner: (usize, usize), height: usize) -> Cursor {
    let mut corner = Cursor::new(corner.0, corner.1);
    shift_corner_wrap(&Cursor::new(cursor.0, cursor.1), &mut corner, height);
    corner
}

fn pulled(cursor: (usize, usize), corner: (usize, usize), width: usize, height: usize) -> Cursor {
    let mut cursor = Cursor::new(cursor.0, cursor.1);
    shift_cursor(&mut cursor, &Cursor::new(corner.0, corner.1), width, height);
    cursor
}

#[test]
fn cursors_are_ordered_by_line_then_column() {
    assert!(Cursor::new(1, 9) < Cursor::new(2, 0));
    assert!(Cursor::new(2, 3) < Cursor::new(2, 4));
    assert!(Cursor::new(1, 9).is_before(&Cursor::new(2, 0)));
    assert!(Cursor::new(2, 3).is_before(&Cursor::new(2, 4)));
    assert!(!Cursor::new(2, 4).is_before(&Cursor::new(2, 4)));
    assert!(!Cursor::new(3, 0).is_before(&Cursor::new(2, 4)));
}

#[test]
fn cursor_moves_stop_at_the_bounds() {
    let mut c = Cursor::new(3, 5);
    c.up(2);
    assert_eq!(c, Cursor::new(1, 5));
    c.up(7);
    assert_eq!(c, Cursor::new(0, 5));
    c.left(9);
    assert_eq!(c, Cursor::new(0, 0));
    c.down(usize::MAX - 1);
    c.down(8);
    assert_eq!(c, Cursor::new(usize::MAX, 0));
    c.right(4);
    c.right(usize::MAX);
    assert_eq!(c, Cursor::new(usize::MAX, usize::MAX));
    c.set_x(7);
    c.set_y(8);
    assert_eq!(c, Cursor::new(8, 7));
}

#[test]
fn corner_follows_cursor_without_wrapping() {
    // The cursor shows: the corner stays.
    assert_eq!(nowrap((4, 6), (2, 4), 6, 4), Cursor::new(2, 4));
    assert_eq!(nowrap((5, 9), (2, 4), 6, 4), Cursor::new(2, 4));
    // Above and to the left of the window.
    assert_eq!(nowrap((1, 3), (2, 4), 6, 4), Cursor::new(1, 3));
    // Below and to the right of it.
    assert_eq!(nowrap((6, 10), (2, 4), 6, 4), Cursor::new(3, 5));
    assert_eq!(nowrap((9, 3), (2, 5), 6, 4), Cursor::new(6, 3));
    // Each axis moves by itself.
    assert_eq!(nowrap((0, 20), (2, 4), 6, 4), Cursor::new(0, 15));
}

#[test]
fn corner_follows_cursor_at_the_largest_coordinates() {
    let max = usize::MAX;
    assert_eq!(nowrap((max, max), (0, 0), 6, 4), Cursor::new(max - 3, max - 5));
    assert_eq!(nowrap((max, max), (max - 1, max - 1), 6, 4), Cursor::new(max - 1, max - 1));
    // A view without cells cannot show the cursor: the corner goes behind it.
    assert_eq!(nowrap((3, 5), (0, 0), 0, 0), Cursor::new(4, 6));
    assert_eq!(nowrap((max, max), (0, 0), 0, 0), Cursor::new(max, max));
}

#[test]
fn corner_follows_cursor_with_wrapping() {
    // The cursor's line shows: nothing moves.
    assert_eq!(wrap((4, 0), (2, 8), 4), Cursor::new(2, 8));
    assert_eq!(wrap((2, 8), (2, 8), 4), Cursor::new(2, 8));
    // On the corner's line, to the left of the corner.
    assert_eq!(wrap((2, 7), (2, 8), 4), Cursor::new(2, 0));
    // Above and below: the column starts over.
    assert_eq!(wrap((1, 30), (2, 8), 4), Cursor::new(1, 0));
    assert_eq!(wrap((6, 30), (2, 8), 4), Cursor::new(3, 0));
}

#[test]
fn corner_follows_cursor_by_the_wrap_flag() {
    let mut viewctx = ViewportContext::default();
    viewctx.corner = Cursor::new(2, 8);
    shift_corner(&mut viewctx, &Cursor::new(2, 3), 6, 4);
    assert_eq!(viewctx.corner, Cursor::new(2, 3));

    viewctx.corner = Cursor::new(2, 8);
    viewctx.set_wrap(true);
    shift_corner(&mut viewctx, &Cursor::new(2, 3), 6, 4);
    assert_eq!(viewctx.corner, Cursor::new(2, 0));
    assert_eq!(viewctx.get_width(), 0);
    assert_eq!(viewctx.get_height(), 0);
}

#[test]
fn cursor_is_pulled_into_the_window() {
    assert_eq!(pulled((4, 6), (2, 4), 6, 4), Cursor::new(4, 6));
    assert_eq!(pulled((0, 0), (2, 4), 6, 4), Cursor::new(2, 4));
    assert_eq!(pulled((100, 100), (2, 4), 6, 4), Cursor::new(5, 9));
    assert_eq!(pulled((6, 3), (2, 4), 6, 4), Cursor::new(5, 4));
    assert_eq!(pulled((usize::MAX, 0), (usize::MAX, 0), 1, 1), Cursor::new(usize::MAX, 0));
    // A window without cells: the cursor goes before the corner, or stays at zero.
    assert_eq!(pulled((7, 7), (2, 0), 0, 0), Cursor::new(1, 0));
}

#[test]
fn following_twice_is_following_once() {
    let cursor = Cursor::new(9, 3);
    let mut corner = Cursor::new(2, 5);
    shift_corner_nowrap(&cursor, &mut corner, 6, 4);
    let once = corner;
    shift_corner_nowrap(&cursor, &mut corner, 6, 4);
    assert_eq!(corner, once);
    assert!(once.y <= cursor.y && cursor.y < once.y + 4);
    assert!(once.x <= cursor.x && cursor.x < once.x + 6);
}
