use led_meter::ring::MAX_RING_CAPACITY;
use led_meter::window::{SlidingWindow, REWIND_AT, SAMPLE_SCALE};

#[test]
fn new_window_is_empty() {
    let w = SlidingWindow::new(10).expect("a capacity within bounds");
    assert_eq!(w.len(), 0);
    assert_eq!(w.capacity(), 10);
    assert!(w.average().is_none());
}

#[test]
fn new_refuses_a_capacity_out_of_bounds() {
    assert!(SlidingWindow::new(0).is_none());
    assert!(SlidingWindow::new(MAX_RING_CAPACITY + 1).is_none());
    assert!(SlidingWindow::new(1).is_some());
    assert!(SlidingWindow::new(MAX_RING_CAPACITY).is_some());
}

#[test]
fn average_of_one_sample_is_that_sample() {
    let mut w = SlidingWindow::new(4).expect("a capacity within bounds");
    w.push(300_000);
    let mean = w.average().expect("a sample");
    assert_eq!(mean.numerator(), 300_000);
    assert_eq!(mean.denominator(), 1_000_000);
    assert_eq!(w.len(), 1);
}

#[test]
fn average_is_the_sum_over_the_count() {
    let mut w = SlidingWindow::new(4).expect("a capacity within bounds");
    w.push(100_000);
    w.push(200_000);
    w.push(600_000);
    let mean = w.average().expect("three samples");
    assert_eq!(mean.numerator(), 900_000);
    assert_eq!(mean.denominator(), 3_000_000);
}

#[test]
fn fifteen_pushes_into_ten_keep_the_last_ten() {
    let mut w = SlidingWindow::new(10).expect("a capacity within bounds");
    for i in 1..=15u32 {
        w.push(i * 10_000);
    }
    assert_eq!(w.len(), 10);
    let mean = w.average().expect("ten samples");
    // The samples 60_000, 70_000, .., 150_000 are left.
    assert_eq!(mean.numerator(), 1_050_000);
    assert_eq!(mean.denominator(), 10 * SAMPLE_SCALE as u64);
}

#[test]
fn window_of_one_keeps_the_newest() {
    let mut w = SlidingWindow::new(1).expect("a capacity within bounds");
    for i in 0..100u32 {
        w.push(i);
        let mean = w.average().expect("one sample");
        assert_eq!(mean.numerator(), i as i128);
        assert_eq!(mean.denominator(), SAMPLE_SCALE as u64);
        assert_eq!(w.len(), 1);
    }
}

#[test]
fn window_with_capacity_not_a_power_of_two_wraps_many_times() {
    let mut w = SlidingWindow::new(3).expect("a capacity within bounds");
    for i in 0..1000u32 {
        w.push(i);
    }
    let mean = w.average().expect("three samples");
    assert_eq!(mean.numerator(), 997 + 998 + 999);
    assert_eq!(mean.denominator(), 3_000_000);
}

#[test]
fn average_of_the_largest_samples_does_not_overflow() {
    let mut w = SlidingWindow::new(1000).expect("a capacity within bounds");
    for _ in 0..1000 {
        w.push(u32::MAX);
    }
    let mean = w.average().expect("a thousand samples");
    assert_eq!(mean.numerator(), 1000 * u32::MAX as i128);
    assert_eq!(mean.denominator(), 1_000_000_000);
}

#[test]
fn average_does_not_change_the_window() {
    let mut w = SlidingWindow::new(2).expect("a capacity within bounds");
    w.push(5);
    w.push(7);
    let first = w.average().expect("two samples");
    let second = w.average().expect("two samples");
    assert_eq!(first.numerator(), 12);
    assert_eq!(second.numerator(), 12);
    assert_eq!(w.len(), 2);
    assert_eq!(w.capacity(), 2);
}

#[test]
fn window_keeps_its_samples_when_the_ring_is_renewed() {
    let mut w = SlidingWindow::new(3).expect("a capacity within bounds");
    let pushes = REWIND_AT as u32 + 10;
    for i in 0..pushes {
        w.push(i);
        if i + 5 >= REWIND_AT as u32 {
            // Around the renewal every push is checked.
            let mean = w.average().expect("three samples");
            assert_eq!(mean.numerator(), 3 * (i as i128 - 1));
            assert_eq!(mean.denominator(), 3_000_000);
            assert_eq!(w.len(), 3);
            assert_eq!(w.capacity(), 3);
        }
    }
}

#[test]
fn window_is_renewed_while_it_fills() {
    let mut w = SlidingWindow::new(1 << 20).expect("a capacity within bounds");
    for _ in 0..REWIND_AT {
        w.push(1);
    }
    w.push(1_000_001);
    assert_eq!(w.len(), 1 << 20);
    let mean = w.average().expect("samples");
    assert_eq!(mean.numerator(), (1 << 20) - 1 + 1_000_001);
    assert_eq!(mean.denominator(), (1u64 << 20) * 1_000_000);
}
