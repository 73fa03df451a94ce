use tsgraph::axis::Monitor;

#[test]
fn monotonic_y_expansion() {
    // over any sequence of watermark calls, y_max never decreases and y_min
    // never increases
    let mut m = Monitor::new((0, 30), (1000, -1000));
    let candidates = [5i64, -700, 2000, -3000, 100, 2000, -5000, 0];
    let mut hi = m.max_y();
    let mut lo = m.min_y();
    for &c in candidates.iter() {
        m.set_if_y_max(c);
        m.set_if_y_min(c);
        assert!(m.max_y() >= hi);
        assert!(m.min_y() <= lo);
        hi = m.max_y();
        lo = m.min_y();
    }
    assert_eq!(m.max_y(), 2000);
    assert_eq!(m.min_y(), -5000);
}

#[test]
fn watermark_ignores_inside_values() {
    let mut m = Monitor::new((0, 30), (-10, 10));
    m.set_if_y_max(5);
    m.set_if_y_min(5);
    assert_eq!(m.max_y(), 10);
    assert_eq!(m.min_y(), -10);
}

#[test]
fn explicit_reset_narrows_bounds() {
    let mut m = Monitor::new((0, 30), (-10, 10));
    m.set_y_max(3);
    m.set_y_min(-3);
    assert_eq!(m.y(), [-3, 3]);
}

#[test]
fn constant_window_width() {
    // over any sequence of translations, x_max - x_min keeps the value it
    // had before the first call
    let mut m = Monitor::new((5, 35), (0, 1));
    let width = m.max_x() - m.min_x();
    for delta in [1i64, 0, 7, 2, 30, 1] {
        m.inc_x_axis(delta);
        assert_eq!(m.max_x() - m.min_x(), width);
    }
    assert_eq!(m.min_x(), 46);
    assert_eq!(m.max_x(), 76);
}

#[test]
fn elapsed_time_accumulates() {
    let mut m = Monitor::new((0, 30), (0, 1));
    assert_eq!(m.time(), 0);
    m.add_time(250);
    m.add_time(250);
    assert_eq!(m.time(), 500);
    assert_eq!(m.x(), [0, 30]);
}

#[test]
fn label_values_split_bounds_evenly() {
    let m = Monitor::new((0, 30), (0, 100));
    assert_eq!(m.bounds_label_values(4), vec![0, 25, 50, 75, 100]);
}

#[test]
fn label_values_round_down() {
    let m = Monitor::new((0, 30), (0, 10));
    // step is 10 / 4 = 2, so the top label falls short of y_max
    assert_eq!(m.bounds_label_values(4), vec![0, 2, 4, 6, 8]);
}

#[test]
fn label_values_negative_range() {
    let m = Monitor::new((0, 30), (-8, 8));
    assert_eq!(m.bounds_label_values(2), vec![-8, 0, 8]);
}
