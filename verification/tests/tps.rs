use tango::tps::Counter;

#[test]
fn median_of_no_gaps_is_zero() {
    let mut c = Counter::new(4);
    assert_eq!(c.median_duration(), 0);
    c.mark(100);
    assert_eq!(c.median_duration(), 0);
}

#[test]
fn median_gap() {
    let mut c = Counter::new(10);
    for t in [0u64, 10, 30, 31, 100] {
        c.mark(t);
    }
    // gaps 10, 20, 1, 69: sorted 1, 10, 20, 69; index 2 is 20
    assert_eq!(c.median_duration(), 20);
}

#[test]
fn window_drops_oldest_marks() {
    let mut c = Counter::new(3);
    for t in [0u64, 1000, 1001, 1002] {
        c.mark(t);
    }
    // kept marks 1000, 1001, 1002
    assert_eq!(c.median_duration(), 1);
}

#[test]
fn zero_window_keeps_one_mark() {
    let mut c = Counter::new(0);
    c.mark(1);
    c.mark(5);
    assert_eq!(c.median_duration(), 0);
}
