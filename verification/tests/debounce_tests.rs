use lit::debounce::Debouncer;

#[test]
fn first_event_is_always_accepted() {
    let mut d = Debouncer::new(200);
    assert!(d.accept(0));
}

#[test]
fn two_presses_fifty_ms_apart_collapse_to_one() {
    let mut d = Debouncer::new(200);
    assert!(d.accept(1000));
    assert!(!d.accept(1050));
    // the dropped press did not reopen the window
    assert!(d.accept(1200));
}

#[test]
fn window_boundary_is_inclusive() {
    let mut d = Debouncer::new(200);
    assert!(d.accept(500));
    assert!(!d.accept(699));
    assert!(d.accept(700));
}

#[test]
fn backwards_clock_keeps_window_closed() {
    let mut d = Debouncer::new(200);
    assert!(d.accept(1000));
    assert!(!d.accept(900));
    assert!(d.accept(1300));
}
