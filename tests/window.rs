use rau::window::{window_size, SampleWindow, MIN_PERIODS};

#[test]
fn window_fills_then_reports_full() {
    let mut w: SampleWindow<i32> = SampleWindow::new(4, 1);
    assert!(!w.add_sample(1));
    assert!(!w.add_sample(2));
    assert!(!w.add_sample(3));
    assert!(w.add_sample(4));
    assert!(w.is_full());
    assert_eq!(w.samples(), &vec![1, 2, 3, 4]);
}

#[test]
fn window_keeps_overlap_after_full() {
    let mut w: SampleWindow<i32> = SampleWindow::new(4, 1);
    for x in 1..=4 {
        w.add_sample(x);
    }
    assert!(!w.add_sample(5));
    assert_eq!(w.samples(), &vec![4, 5]);
    assert!(!w.add_sample(6));
    assert!(w.add_sample(7));
    assert_eq!(w.samples(), &vec![4, 5, 6, 7]);
}

#[test]
fn window_hop_is_size_minus_overlap() {
    let w: SampleWindow<f64> = SampleWindow::new(1152, 403);
    assert_eq!(w.size(), 1152);
    assert_eq!(w.overlap(), 403);
    assert_eq!(w.hop(), 749);
}

#[test]
fn window_every_hop_completes_a_window() {
    let mut w: SampleWindow<usize> = SampleWindow::new(10, 3);
    let mut completions = Vec::new();
    for i in 0..40 {
        if w.add_sample(i) {
            completions.push(i);
        }
    }
    assert_eq!(completions, vec![9, 16, 23, 30, 37]);
    assert_eq!(w.samples(), &vec![35, 36, 37, 38, 39]);
}

#[test]
fn window_zero_overlap() {
    let mut w: SampleWindow<u8> = SampleWindow::new(2, 0);
    w.add_sample(1);
    assert!(w.add_sample(2));
    assert!(!w.add_sample(3));
    assert_eq!(w.samples(), &vec![3]);
}

#[test]
fn window_size_is_six_periods() {
    assert_eq!(MIN_PERIODS, 6);
    assert_eq!(window_size(436), 2616);
    assert_eq!(window_size(0), 0);
}
