use polymarket_mm_bot::volatility::TimeWindow;

fn timestamps<T>(w: &TimeWindow<T>) -> Vec<u64> {
    (0..w.len()).map(|i| w.get(i).0).collect()
}

#[test]
fn window_keeps_recent_samples() {
    let mut w: TimeWindow<f64> = TimeWindow::new(2000);
    for i in 0..20u64 {
        w.push(i * 100, 100.0);
    }
    assert_eq!(w.len(), 20);
    assert_eq!(w.span_ms(), 1900);
    assert_eq!(w.window_ms(), 2000);
}

#[test]
fn window_drops_old_samples() {
    let mut w: TimeWindow<f64> = TimeWindow::new(1000);
    for i in 0..50u64 {
        w.push(i * 100, 100.0 + i as f64);
    }
    assert!(w.len() <= 12);
    assert_eq!(timestamps(&w), (39..50).map(|i| i * 100).collect::<Vec<u64>>());
    assert_eq!(w.span_ms(), 1000);
    assert_eq!(w.get(w.len() - 1).1, 149.0);
}

#[test]
fn sample_exactly_window_old_is_kept() {
    let mut w: TimeWindow<u8> = TimeWindow::new(500);
    w.push(1000, 1);
    w.push(1500, 2);
    assert_eq!(timestamps(&w), vec![1000, 1500]);
    w.push(1501, 3);
    assert_eq!(timestamps(&w), vec![1500, 1501]);
}

#[test]
fn purge_stops_at_first_fresh_sample() {
    let mut w: TimeWindow<u8> = TimeWindow::new(100);
    w.push(1000, 1);
    w.push(1050, 2);
    w.push(900, 3);
    // nothing is stale at 900
    assert_eq!(timestamps(&w), vec![1000, 1050, 900]);
    w.push(1120, 4);
    // 1000 is stale at 1120; 1050 is fresh and stops the purge, so the
    // stale 900 behind it stays
    assert_eq!(timestamps(&w), vec![1050, 900, 1120]);
}

#[test]
fn empty_and_single_windows() {
    let mut w: TimeWindow<u8> = TimeWindow::new(0);
    assert_eq!(w.len(), 0);
    assert_eq!(w.span_ms(), 0);
    w.push(10, 1);
    w.push(11, 2);
    assert_eq!(timestamps(&w), vec![11]);
    assert_eq!(w.span_ms(), 0);
}

#[test]
fn span_of_backwards_timestamps_is_zero() {
    let mut w: TimeWindow<u8> = TimeWindow::new(u64::MAX);
    w.push(500, 1);
    w.push(100, 2);
    assert_eq!(w.span_ms(), 0);
}
