use plasma::frame_stats::Stats;

#[test]
fn new_stats_start_empty() {
    let s = Stats::new();
    assert_eq!(s.num_samples(), 0);
}

#[test]
fn capacity_holds_two_hundred_samples() {
    let mut s = Stats::new();
    // 200 frames spaced 1 ms apart, well inside one aggregation window
    for i in 0..200u64 {
        let start = i * 1000;
        s.stats_start_frame_at(start);
        let rep = s.stats_end_frame_at(start + 500);
        assert!(rep.is_none());
    }
    assert_eq!(s.num_samples(), 200);
}

#[test]
fn capacity_never_grows_unbounded() {
    let mut s = Stats::new();
    // the window trims to the capacity before each append
    for i in 0..500u64 {
        let start = i * 1000;
        s.stats_start_frame_at(start);
        s.stats_end_frame_at(start + 500);
    }
    assert!(s.num_samples() <= 201);
}

#[test]
fn window_reports_once_and_clears() {
    let mut s = Stats::new();
    let mut reports = 0;
    // frames every 100 ms across 1.6 s: exactly one aggregate falls due
    for i in 0..16u64 {
        let start = i * 100_000;
        s.stats_start_frame_at(start);
        if s.stats_end_frame_at(start + 2000).is_some() {
            reports += 1;
            // the retained samples were cleared before the new sample
            assert_eq!(s.num_samples(), 1);
        }
    }
    assert_eq!(reports, 1);
}

#[test]
fn report_aggregates_min_max_and_sum() {
    let mut s = Stats::new();
    // three frames with render times 2 ms, 5 ms, 3 ms, 100 ms apart
    let renders: [u64; 3] = [2000, 5000, 3000];
    for (i, rt) in renders.iter().enumerate() {
        let start = 100_000 + (i as u64) * 100_000;
        s.stats_start_frame_at(start);
        s.stats_end_frame_at(start + rt);
    }
    // a frame past the 1500 ms window carries the aggregate out
    s.stats_start_frame_at(1_600_000);
    let rep = s.stats_end_frame_at(1_600_500).expect("a report is due");
    assert_eq!(rep.num_frames, 3);
    assert_eq!(rep.min_render, 2000);
    assert_eq!(rep.max_render, 5000);
    assert_eq!(rep.sum_render, 10_000);
    // the first frame's inter-frame time runs from the epoch start
    assert_eq!(rep.min_frame, 98_000);
    assert_eq!(rep.max_frame, 103_000);
    assert_eq!(rep.sum_frame, 102_000 + 98_000 + 103_000);
    assert_eq!(s.num_samples(), 1);
}

#[test]
fn very_first_frame_accepts_large_window() {
    // the first frame after construction sees timestamps measured from
    // zero; a clock far past the window period reports nothing (no samples
    // yet) and restarts the window
    let mut s = Stats::new();
    s.stats_start_frame_at(2_000_000);
    let rep = s.stats_end_frame_at(2_000_700);
    assert!(rep.is_none());
    assert_eq!(s.num_samples(), 1);
}

#[test]
fn real_clock_frame_roundtrip() {
    // exercises the clock-reading path end to end; the very first window
    // spans from the epoch, so it falls due with no samples to report
    let mut s = Stats::new();
    s.stats_start_frame();
    let rep = s.stats_end_frame();
    assert!(rep.is_none());
    assert!(s.num_samples() <= 1);
}
