use textbox::base::TargetShape;
use textbox::buffer::Selection;
use textbox::cursor::Cursor;
use textbox::highlight::{selection_span, FollowersInfo, HighlightInfo, Span};

fn sel(start: (usize, usize), end: (usize, usize), shape: TargetShape) -> Selection {
    Selection { start: Cursor::new(start.0, start.1), end: Cursor::new(end.0, end.1), shape }
}

fn span(first: usize, last: usize) -> Option<Span> {
    Some(Span { first, last })
}

fn sorted(mut found: Vec<usize>) -> Vec<usize> {
    found.sort();
    found
}

#[test]
fn charwise_selection_runs_from_its_start_to_its_end() {
    let s = sel((1, 5), (3, 2), TargetShape::CharWise);

    // The first line, from the start column on.
    assert_eq!(selection_span(&s, 1, 0, 10), span(5, 9));
    // A line between: the whole row.
    assert_eq!(selection_span(&s, 2, 0, 10), span(0, 9));
    assert_eq!(selection_span(&s, 2, 4, 7), span(4, 6));
    // The last line, up to the end column.
    assert_eq!(selection_span(&s, 3, 0, 10), span(0, 2));
    assert_eq!(selection_span(&s, 3, 2, 10), span(2, 2));
}

#[test]
fn charwise_selection_skips_rows_beside_it() {
    let s = sel((1, 5), (3, 2), TargetShape::CharWise);

    // The row ends before the selection starts.
    assert_eq!(selection_span(&s, 1, 0, 4), None);
    assert_eq!(selection_span(&s, 1, 0, 5), None);
    // The row starts behind the selection's end.
    assert_eq!(selection_span(&s, 3, 3, 10), None);
    // A row without columns.
    assert_eq!(selection_span(&s, 2, 4, 4), None);
    assert_eq!(selection_span(&s, 2, 0, 0), None);
}

#[test]
fn charwise_selection_on_one_line() {
    let s = sel((1, 3), (1, 6), TargetShape::CharWise);
    assert_eq!(selection_span(&s, 1, 0, 10), span(3, 6));
    assert_eq!(selection_span(&s, 1, 4, 6), span(4, 5));
    assert_eq!(selection_span(&s, 1, 6, 9), span(6, 6));
    assert_eq!(selection_span(&s, 1, 7, 9), None);

    // The ends are the wrong way round: nothing is highlighted.
    let s = sel((1, 6), (1, 3), TargetShape::CharWise);
    assert_eq!(selection_span(&s, 1, 0, 10), None);
}

#[test]
fn linewise_selection_takes_the_whole_row() {
    let s = sel((1, 5), (3, 2), TargetShape::LineWise);
    assert_eq!(selection_span(&s, 1, 0, 10), span(0, 9));
    assert_eq!(selection_span(&s, 3, 3, 8), span(3, 7));
    assert_eq!(selection_span(&s, 2, 5, 5), None);
    assert_eq!(selection_span(&s, 2, 0, 0), None);
}

#[test]
fn blockwise_selection_takes_the_same_columns_on_each_line() {
    let s = sel((1, 7), (3, 2), TargetShape::BlockWise);
    assert_eq!(selection_span(&s, 1, 0, 10), span(2, 7));
    assert_eq!(selection_span(&s, 2, 0, 10), span(2, 7));
    assert_eq!(selection_span(&s, 3, 0, 10), span(2, 7));
    // Cut to the row.
    assert_eq!(selection_span(&s, 2, 4, 6), span(4, 5));
    assert_eq!(selection_span(&s, 2, 0, 3), span(2, 2));
    // Beside the row.
    assert_eq!(selection_span(&s, 2, 8, 12), None);
    assert_eq!(selection_span(&s, 2, 0, 2), None);
}

#[test]
fn selections_are_found_by_line() {
    let selections = vec![
        sel((0, 5), (2, 1), TargetShape::CharWise),
        sel((1, 0), (1, 3), TargetShape::LineWise),
        sel((3, 2), (5, 4), TargetShape::BlockWise),
        sel((1, 0), (1, 3), TargetShape::LineWise),
    ];
    let info = HighlightInfo::new(&selections);

    assert_eq!(sorted(info.query_point(0)), vec![0]);
    assert_eq!(sorted(info.query_point(1)), vec![0, 1, 3]);
    assert_eq!(sorted(info.query_point(2)), vec![0]);
    assert_eq!(sorted(info.query_point(3)), vec![2]);
    assert_eq!(sorted(info.query_point(5)), vec![2]);
    assert_eq!(sorted(info.query_point(6)), Vec::<usize>::new());
    assert_eq!(info.selection(2), selections[2]);
}

#[test]
fn selections_without_lines_are_not_found() {
    let selections = vec![
        sel((4, 0), (2, 0), TargetShape::CharWise),
        sel((0, 0), (usize::MAX, 0), TargetShape::LineWise),
    ];
    let info = HighlightInfo::new(&selections);

    assert_eq!(sorted(info.query_point(3)), vec![1]);
    assert_eq!(sorted(info.query_point(usize::MAX - 1)), vec![1]);
    assert_eq!(sorted(info.query_point(usize::MAX)), Vec::<usize>::new());
    assert_eq!(sorted(HighlightInfo::new(&Vec::new()).query_point(0)), Vec::<usize>::new());
}

#[test]
fn followers_are_found_by_row() {
    let followers = vec![Cursor::new(2, 3), Cursor::new(2, 7), Cursor::new(1, 6), Cursor::new(2, 3)];
    let info = FollowersInfo::new(&followers);

    assert_eq!(sorted(info.query(2, 0, 8)), vec![0, 1, 3]);
    assert_eq!(sorted(info.query(2, 3, 7)), vec![0, 3]);
    assert_eq!(sorted(info.query(2, 4, 8)), vec![1]);
    assert_eq!(sorted(info.query(2, 4, 7)), Vec::<usize>::new());
    assert_eq!(sorted(info.query(1, 0, 100)), vec![2]);
    assert_eq!(sorted(info.query(0, 0, 100)), Vec::<usize>::new());
    assert_eq!(info.follower(1), Cursor::new(2, 7));
}

#[test]
fn followers_are_not_found_in_rows_without_columns() {
    let followers = vec![Cursor::new(2, 3), Cursor::new(2, usize::MAX)];
    let info = FollowersInfo::new(&followers);

    assert_eq!(sorted(info.query(2, 3, 3)), Vec::<usize>::new());
    assert_eq!(sorted(info.query(2, 8, 2)), Vec::<usize>::new());
    assert_eq!(sorted(info.query(2, 0, usize::MAX)), vec![0]);
}
