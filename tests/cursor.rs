use chadtop::cursor::Cursor;

#[test]
fn next_wraps_from_last_to_first() {
    let mut c = Cursor { selected: Some(4) };
    c.next(5);
    assert_eq!(c.selected, Some(0));
}

#[test]
fn previous_wraps_from_first_to_last() {
    let mut c = Cursor { selected: Some(0) };
    c.previous(5);
    assert_eq!(c.selected, Some(4));
}

#[test]
fn moves_from_no_selection_select_first() {
    let mut c = Cursor::new();
    c.next(5);
    assert_eq!(c.selected, Some(0));
    let mut c = Cursor::new();
    c.previous(5);
    assert_eq!(c.selected, Some(0));
}

#[test]
fn moves_step_by_one_inside_the_table() {
    let mut c = Cursor { selected: Some(2) };
    c.next(5);
    assert_eq!(c.selected, Some(3));
    c.previous(5);
    c.previous(5);
    assert_eq!(c.selected, Some(1));
    c.last(5);
    assert_eq!(c.selected, Some(4));
    c.first(5);
    assert_eq!(c.selected, Some(0));
    c.clear();
    assert_eq!(c.selected, None);
}

#[test]
fn empty_table_leaves_selection_at_none() {
    let mut c = Cursor::new();
    c.next(0);
    assert_eq!(c.selected, None);
    c.previous(0);
    assert_eq!(c.selected, None);
    c.first(0);
    assert_eq!(c.selected, None);
    c.last(0);
    assert_eq!(c.selected, None);
    c.clear();
    assert_eq!(c.selected, None);
}

#[test]
fn selection_past_a_shrunk_table_counts_as_none() {
    let mut c = Cursor { selected: Some(7) };
    assert_eq!(c.selected_in(3), None);
    assert_eq!(c.selected_in(8), Some(7));
    c.previous(3);
    assert_eq!(c.selected, Some(0));
}
