use tsgraph::monitor::{CoreStat, CpuMonitor, Y_MARGIN};

fn one_entity_set() -> CpuMonitor {
    let stats = vec![CoreStat::new("cpu0".to_string(), 1)];
    CpuMonitor::new(stats, (0, 30), (i64::MAX, 0))
}

#[test]
fn steady_low_rate_stream() {
    // ticks at t = 0, 1, 2, all inside the window: buffer grows, x-window
    // stays put
    let mut cm = one_entity_set();
    for t in 0..3i64 {
        if t > 0 {
            cm.m.add_time(1);
        }
        cm.update(&vec![40 + t]);
    }
    assert_eq!(cm.stats[0].data.data().len(), 3);
    assert_eq!(cm.m.x(), [0, 30]);
    let pts = cm.stats[0].data.data();
    assert_eq!((pts[0].time, pts[0].value), (0, 40));
    assert_eq!((pts[2].time, pts[2].value), (2, 42));
}

#[test]
fn window_slide() {
    // ticks at t = 0..=35 with 1-second spacing: once t passes 30 the buffer
    // length stabilizes and both x-bounds advance by the sample spacing,
    // preserving width 30
    let mut cm = one_entity_set();
    let mut len_before = 0;
    for t in 0..=35i64 {
        if t > 0 {
            cm.m.add_time(1);
        }
        let (xmin0, xmax0) = (cm.m.min_x(), cm.m.max_x());
        cm.update(&vec![100]);
        if t > 30 {
            // eviction tick: length unchanged, window slid by exactly 1
            assert_eq!(cm.stats[0].data.data().len(), len_before);
            assert_eq!(cm.m.min_x(), xmin0 + 1);
            assert_eq!(cm.m.max_x(), xmax0 + 1);
        }
        assert_eq!(cm.m.max_x() - cm.m.min_x(), 30);
        len_before = cm.stats[0].data.data().len();
    }
    assert_eq!(cm.stats[0].data.data().len(), 31);
    assert_eq!(cm.m.x(), [5, 35]);
    // the oldest surviving point matches the left edge of the window
    assert_eq!(cm.stats[0].data.first().unwrap().time, 5);
}

#[test]
fn multi_entity_sync() {
    // the reference entity's ticks drive eviction; the second entity's
    // buffer keeps the same length even though its values never matter
    let stats = vec![
        CoreStat::new("cpu0".to_string(), 1),
        CoreStat::new("cpu1".to_string(), 2),
    ];
    let mut cm = CpuMonitor::new(stats, (0, 30), (i64::MAX, 0));
    for t in 0..=35i64 {
        if t > 0 {
            cm.m.add_time(1);
        }
        cm.update(&vec![100 + t, 7 * t]);
        assert_eq!(
            cm.stats[1].data.data().len(),
            cm.stats[0].data.data().len()
        );
    }
    assert_eq!(cm.stats[0].data.data().len(), 31);
    assert_eq!(cm.stats[1].data.data().len(), 31);
    assert_eq!(cm.m.x(), [5, 35]);
    // both buffers evicted the same ticks: their fronts are in step
    assert_eq!(cm.stats[0].data.first().unwrap().time, 5);
    assert_eq!(cm.stats[1].data.first().unwrap().time, 5);
}

#[test]
fn uneven_spacing_slides_by_sample_gap() {
    // the window translates by the spacing between the evicted point and the
    // new first point, not by a fixed step
    let stats = vec![CoreStat::new("cpu0".to_string(), 0)];
    let mut cm = CpuMonitor::new(stats, (0, 5), (i64::MAX, 0));
    for t in [0i64, 2, 4, 6] {
        let delta = t - cm.m.time();
        cm.m.add_time(delta);
        cm.update(&vec![10]);
    }
    // t = 6 passed x_max = 5: the point at t = 0 was evicted and the window
    // moved by the gap to the next point, t = 2
    assert_eq!(cm.m.x(), [2, 7]);
    assert_eq!(cm.stats[0].data.data().len(), 3);
    assert_eq!(cm.stats[0].data.first().unwrap().time, 2);
}

#[test]
fn slide_with_emptied_buffer_keeps_window() {
    // degenerate window: the only point is the one just appended, so the
    // eviction empties the buffer and no translation happens
    let stats = vec![CoreStat::new("cpu0".to_string(), 0)];
    let mut cm = CpuMonitor::new(stats, (0, 0), (i64::MAX, 0));
    cm.m.add_time(1);
    cm.update(&vec![10]);
    assert_eq!(cm.stats[0].data.data().len(), 0);
    assert_eq!(cm.m.x(), [0, 0]);
}

#[test]
fn update_raises_watermarks_with_margin() {
    let mut cm = one_entity_set();
    cm.update(&vec![500_000]);
    assert_eq!(cm.m.max_y(), 500_000 + Y_MARGIN);
    assert_eq!(cm.m.min_y(), 500_000 + Y_MARGIN);
    cm.m.add_time(1);
    cm.update(&vec![200_000]);
    // max stays at the high watermark, min falls to the new low
    assert_eq!(cm.m.max_y(), 500_000 + Y_MARGIN);
    assert_eq!(cm.m.min_y(), 200_000 + Y_MARGIN);
}

#[test]
fn entities_keep_identity_through_ticks() {
    let stats = vec![
        CoreStat::new("cpu0".to_string(), 9),
        CoreStat::new("cpu1".to_string(), 4),
    ];
    let mut cm = CpuMonitor::new(stats, (0, 30), (i64::MAX, 0));
    cm.update(&vec![1, 2]);
    assert_eq!(cm.stats[0].name, "cpu0");
    assert_eq!(cm.stats[0].color, 9);
    assert_eq!(cm.stats[1].name, "cpu1");
    assert_eq!(cm.stats[1].color, 4);
}

#[test]
fn render_contract_strings() {
    let cm = one_entity_set();
    assert_eq!(cm.title(), "Cpu Frequency");
    assert_eq!(cm.x_axis(), "Time");
    assert_eq!(cm.y_axis(), "Frequency");
}

#[test]
fn labels_follow_watermarks() {
    let mut cm = one_entity_set();
    cm.update(&vec![100_000]);
    cm.m.add_time(1);
    cm.update(&vec![300_000]);
    // watermarks now span [200_000, 400_000]
    assert_eq!(
        cm.labels(4),
        vec![200_000, 250_000, 300_000, 350_000, 400_000]
    );
    assert_eq!(cm.monitor().min_y(), 200_000);
}
