use eyenexus::gaze::{GazeHistory, DEFAULT_GAZE_HISTORY_SIZE};
use eyenexus::window::SlidingWindow;

fn points(h: &GazeHistory<f64>) -> Vec<(f64, f64)> {
    h.samples().iter().copied().collect()
}

#[test]
fn new_history_is_empty() {
    let h: GazeHistory<f64> = GazeHistory::new(10);
    assert!(h.is_empty());
    assert_eq!(h.len(), 0);
}

#[test]
fn single_push_is_kept() {
    let mut h = GazeHistory::new(10);
    h.push(1.0, 2.0);
    assert_eq!(h.len(), 1);
    assert!(!h.is_empty());
    assert_eq!(points(&h), vec![(1.0, 2.0)]);
}

#[test]
fn sliding_drops_oldest() {
    let mut h = GazeHistory::new(3);
    h.push(1.0, 1.0);
    h.push(2.0, 2.0);
    h.push(3.0, 3.0);
    assert_eq!(h.len(), 3);
    h.push(4.0, 4.0);
    assert_eq!(h.len(), 3);
    assert_eq!(points(&h), vec![(2.0, 2.0), (3.0, 3.0), (4.0, 4.0)]);
}

#[test]
fn zero_size_history_ignores_pushes() {
    let mut h = GazeHistory::new(0);
    h.push(1.0, 1.0);
    h.push(2.0, 2.0);
    assert!(h.is_empty());
    assert_eq!(h.len(), 0);
}

#[test]
fn window_keeps_newest_samples_in_order() {
    let mut w = SlidingWindow::new(4);
    for i in 0..10u32 {
        w.push(i);
    }
    assert_eq!(w.len(), 4);
    assert_eq!(w.max_len(), 4);
    assert_eq!(w.samples().iter().copied().collect::<Vec<_>>(), vec![6, 7, 8, 9]);
}

#[test]
fn default_history_size() {
    assert_eq!(DEFAULT_GAZE_HISTORY_SIZE, 90);
    let mut h = GazeHistory::new(DEFAULT_GAZE_HISTORY_SIZE);
    for i in 0..100 {
        h.push(i as f64, 0.0);
    }
    assert_eq!(h.len(), 90);
    assert_eq!(points(&h)[0], (10.0, 0.0));
}
