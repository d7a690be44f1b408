use lit::cursor::SelectionCursor;

#[test]
fn cursor_starts_at_zero() {
    let c = SelectionCursor::new(5);
    assert_eq!(c.index, 0);
    assert_eq!(c.bound, 5);
    assert_eq!(c.selected(), Some(0));
}

#[test]
fn cursor_never_wraps_upward() {
    let mut c = SelectionCursor::new(3);
    c.move_up();
    assert_eq!(c.index, 0);
    c.move_up();
    assert_eq!(c.index, 0);
}

#[test]
fn cursor_never_wraps_downward() {
    let mut c = SelectionCursor::new(3);
    c.move_down();
    c.move_down();
    assert_eq!(c.index, 2);
    c.move_down();
    assert_eq!(c.index, 2);
    c.move_down();
    assert_eq!(c.index, 2);
}

#[test]
fn cursor_stays_in_bounds_over_any_sequence() {
    // a long mixed sequence of presses from several starting points
    for start in 0..4 {
        let mut c = SelectionCursor { index: start, bound: 4 };
        let moves = [true, true, false, true, false, false, false, true, true, true, true, false];
        for &down in moves.iter() {
            if down {
                c.move_down();
            } else {
                c.move_up();
            }
            assert!(c.index < c.bound);
        }
        assert_eq!(c.bound, 4);
    }
}

#[test]
fn cursor_on_empty_list_selects_nothing() {
    let mut c = SelectionCursor::new(0);
    assert_eq!(c.selected(), None);
    c.move_down();
    c.move_up();
    assert_eq!(c.index, 0);
    assert_eq!(c.selected(), None);
}
