use sdl_egui_wgpu_base::frame_history::FrameHistory;

#[test]
fn empty_history_reads_zero() {
    let h = FrameHistory::new(300, 1000);
    assert_eq!(h.mean_frame_time(), 0);
    assert_eq!(h.fps(1000), 0);
    assert_eq!(h.latest_time(), None);
}

#[test]
fn one_sample_has_no_rate() {
    let mut h = FrameHistory::new(300, 1000);
    h.on_new_frame(10, Some(10));
    assert_eq!(h.fps(1000), 0);
    assert_eq!(h.mean_frame_time(), 10);
    assert_eq!(h.latest_time(), Some(10));
}

#[test]
fn projected_entry_is_back_filled() {
    let mut h = FrameHistory::new(300, 1000);
    h.on_new_frame(10, Some(10));
    h.on_new_frame(30, Some(20));
    // both entries now hold 20: the first was back-filled, the second projected
    assert_eq!(h.mean_frame_time(), 20);
    h.on_new_frame(36, None);
    // back-filled with 0 and projected at 0: (20 + 0 + 0) / 3
    assert_eq!(h.mean_frame_time(), 6);
}

#[test]
fn fps_from_mean_interval() {
    // 1000 ticks per second, one frame every 16 ticks
    let mut h = FrameHistory::new(300, 1000);
    for i in 0..5u64 {
        h.on_new_frame(100 + 16 * i, Some(16));
    }
    // 4 intervals over 64 ticks: 1000 * 4 / 64 = 62.5
    assert_eq!(h.fps(1000), 62);
    assert_eq!(h.mean_frame_time(), 16);
}

#[test]
fn equal_timestamps_give_zero_fps() {
    let mut h = FrameHistory::new(300, 1000);
    h.on_new_frame(5, Some(1));
    h.on_new_frame(5, Some(1));
    assert_eq!(h.fps(1000), 0);
}

#[test]
fn window_is_capped_by_length() {
    let mut h = FrameHistory::new(3, 1_000_000);
    h.on_new_frame(1, Some(1));
    h.on_new_frame(2, Some(2));
    h.on_new_frame(3, Some(3));
    h.on_new_frame(4, Some(4));
    // samples (2,3) (3,4) (4,4) remain
    assert_eq!(h.mean_frame_time(), 11 / 3);
    // 2 intervals over 2 ticks at 10 ticks per second
    assert_eq!(h.fps(10), 10);
}

#[test]
fn old_samples_are_evicted_by_age() {
    let mut h = FrameHistory::new(300, 100);
    h.on_new_frame(0, Some(50));
    h.on_new_frame(50, Some(50));
    h.on_new_frame(100, Some(50));
    // at 100 the sample at 0 is exactly max_age old and stays
    assert_eq!(h.fps(1000), 20);
    h.on_new_frame(201, Some(101));
    // at 201 only the samples at 101 or later stay: the one at 201 alone
    assert_eq!(h.fps(1000), 0);
    assert_eq!(h.mean_frame_time(), 101);
}

#[test]
fn zero_length_window_holds_nothing() {
    let mut h = FrameHistory::new(0, 100);
    h.on_new_frame(1, Some(1));
    assert_eq!(h.latest_time(), None);
    assert_eq!(h.mean_frame_time(), 0);
}

#[test]
fn large_durations_do_not_overflow_the_mean() {
    let mut h = FrameHistory::new(10, u64::MAX);
    h.on_new_frame(1, Some(u64::MAX));
    h.on_new_frame(2, Some(u64::MAX));
    assert_eq!(h.mean_frame_time(), u64::MAX);
}
