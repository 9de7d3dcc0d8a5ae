use pitch_tracker::cadence::CadenceController;
use pitch_tracker::window::SampleWindow;

#[test]
fn window_bound_and_warmup() {
    let mut w = SampleWindow::new(4);
    assert_eq!(w.len(), 0);
    for i in 0..10i16 {
        w.push(i);
        let expected = if (i as usize) + 1 <= 4 { (i as usize) + 1 } else { 4 };
        assert_eq!(w.len(), expected);
        assert!(w.len() <= 4);
    }
    assert_eq!(w.len(), 4);
}

#[test]
fn window_fifo_eviction() {
    let mut w = SampleWindow::new(3);
    for s in [1i16, 2, 3, 4, 5] {
        w.push(s);
    }
    let snap = w.snapshot();
    assert_eq!(snap, vec![3i16, 4, 5]);
}

#[test]
fn window_snapshot_before_warmup() {
    let mut w = SampleWindow::new(8);
    w.push(7);
    w.push(-2);
    w.push(9);
    let snap = w.snapshot();
    assert_eq!(snap, vec![7i16, -2, 9]);
    assert_eq!(w.capacity(), 8);
}

#[test]
fn cadence_trigger_quotient() {
    let mut c = CadenceController::new(3);
    let mut runs = 0usize;
    let mut positions = Vec::new();
    for i in 1..=10u64 {
        if c.on_sample() {
            runs += 1;
            positions.push(i);
        }
    }
    assert_eq!(runs, 10 / 3);
    assert_eq!(positions, vec![3u64, 6, 9]);
}

#[test]
fn cadence_interval_one_always_triggers() {
    let mut c = CadenceController::new(1);
    for _ in 0..5 {
        assert!(c.on_sample());
    }
}
