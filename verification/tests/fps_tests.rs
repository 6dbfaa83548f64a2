use ascii_webcam::fps::FpsWindow;

#[test]
fn test_seeded_window_average() {
    let window = FpsWindow::new(4);
    assert_eq!(window.average_nanos(), 1_000_000_000);
}

#[test]
fn test_uniform_fill_average_is_exact() {
    // Feeding as many identical durations as the window holds makes the
    // average exactly that duration, so the rate is exactly its reciprocal.
    let capacity = 120;
    let d: u64 = 2_000_000_000;
    let mut window = FpsWindow::new(capacity);
    for _ in 0..capacity {
        window.record(d);
    }
    let avg = window.average_nanos();
    assert_eq!(avg, d);
    let fps = 1.0 / (avg as f64 / 1e9);
    assert!((fps - 0.5).abs() < 1e-9);
}

#[test]
fn test_partial_fill_mixes_with_seed() {
    let mut window = FpsWindow::new(2);
    window.record(3_000_000_000);
    assert_eq!(window.average_nanos(), 2_000_000_000);
}

#[test]
fn test_record_overwrites_oldest() {
    let mut window = FpsWindow::new(2);
    window.record(10);
    window.record(20);
    window.record(30);
    // The third record overwrote the first: the window holds 30 and 20.
    assert_eq!(window.average_nanos(), 25);
}
