use sdl_egui_wgpu_base::scheduler::{FrameScheduler, Pacing, MAX_FRAME_SKIPS, NUM_DELAYS_PER_YIELD};

const FREQUENCY: u64 = 60_000;

fn scheduler() -> FrameScheduler {
    FrameScheduler::new(FREQUENCY, 60).unwrap()
}

/// Update steps run by one iteration whose work took `work` ticks.
fn updates_for(s: &mut FrameScheduler, work: u64) -> u32 {
    match s.after_frame(work) {
        Pacing::Sleep { sleep_ticks, .. } => {
            s.woke(sleep_ticks);
        },
        Pacing::Behind { .. } => {},
    }
    1 + s.catch_up()
}

#[test]
fn frame_period_from_target_rate() {
    let s = scheduler();
    assert_eq!(s.frame_period(), 1000);
    assert_eq!(s.frequency(), FREQUENCY);
    assert_eq!(s.frame_skips(), 0);
}

#[test]
fn invalid_rates_are_refused() {
    assert!(FrameScheduler::new(FREQUENCY, 0).is_none());
    assert!(FrameScheduler::new(FREQUENCY, -60).is_none());
    assert!(FrameScheduler::new(30, 60).is_none());
    assert!(FrameScheduler::new(60, 60).is_some());
}

#[test]
fn on_schedule_sleeps_the_rest_of_the_frame() {
    let mut s = scheduler();
    assert_eq!(s.after_frame(400), Pacing::Sleep { sleep_ticks: 600, sleep_ms: 10 });
    // overslept by 30 ticks: charged to the next frame
    assert!(!s.woke(630));
    assert_eq!(s.after_frame(400), Pacing::Sleep { sleep_ticks: 570, sleep_ms: 9 });
    // woke early: wait out the period
    assert!(s.woke(100));
    assert!(!s.frame_complete(999));
    assert!(s.frame_complete(1000));
    assert_eq!(s.after_frame(1000), Pacing::Sleep { sleep_ticks: 0, sleep_ms: 0 });
    assert_eq!(s.catch_up(), 0);
}

#[test]
fn stall_of_five_periods_runs_four_catch_up_steps() {
    let mut s = scheduler();
    assert_eq!(s.after_frame(5 * 1000), Pacing::Behind { yield_now: false });
    assert_eq!(s.catch_up(), 4);
    assert_eq!(s.frame_skips(), 4);
    assert_eq!(s.catch_up(), 0);
}

#[test]
fn stall_of_six_periods_runs_five_catch_up_steps() {
    let mut s = scheduler();
    assert_eq!(updates_for(&mut s, 6 * 1000), 1 + 5);
}

#[test]
fn stall_of_seven_periods_is_capped() {
    let mut s = scheduler();
    assert_eq!(updates_for(&mut s, 7 * 1000), 1 + MAX_FRAME_SKIPS);
    // the period left over is caught up on the next on-time frame
    assert_eq!(updates_for(&mut s, 100), 2);
    assert_eq!(s.frame_skips(), 6);
}

#[test]
fn updates_track_elapsed_time() {
    let mut s = scheduler();
    let works = [100u64, 2500, 300, 1200, 900, 4100, 50];
    let mut updates: u64 = 0;
    let mut elapsed: u64 = 0;
    for w in works {
        updates += u64::from(updates_for(&mut s, w));
        elapsed += w.max(1000);
    }
    // 100 -> 1000, 2500, 300 -> 1000, 1200, 900 -> 1000, 4100, 50 -> 1000
    assert_eq!(elapsed, 11_800);
    assert_eq!(updates, elapsed / 1000);
}

#[test]
fn sustained_overload_yields_periodically() {
    let mut s = scheduler();
    for i in 1..=(2 * NUM_DELAYS_PER_YIELD) {
        let expect_yield = i % NUM_DELAYS_PER_YIELD == 0;
        assert_eq!(s.after_frame(1001), Pacing::Behind { yield_now: expect_yield });
        s.catch_up();
    }
    // an on-time frame ends the run of delays
    assert!(matches!(s.after_frame(10), Pacing::Sleep { .. }));
    for _ in 1..NUM_DELAYS_PER_YIELD {
        assert_eq!(s.after_frame(1001), Pacing::Behind { yield_now: false });
    }
}

#[test]
fn oversleep_pushes_a_frame_behind() {
    let mut s = scheduler();
    assert_eq!(s.after_frame(900), Pacing::Sleep { sleep_ticks: 100, sleep_ms: 1 });
    assert!(!s.woke(700));
    // 600 ticks of oversleep plus 900 of work: 500 behind
    assert_eq!(s.after_frame(900), Pacing::Behind { yield_now: false });
    assert_eq!(s.catch_up(), 0);
    assert_eq!(s.after_frame(1600), Pacing::Behind { yield_now: false });
    assert_eq!(s.catch_up(), 1);
}

#[test]
fn stats_are_due_every_quarter_second() {
    let s = scheduler();
    assert!(!s.stats_due(14_999, 0));
    assert!(s.stats_due(15_000, 0));
    assert!(!s.stats_due(5, 10));
}

#[test]
fn sleep_milliseconds_round_down() {
    let mut s = FrameScheduler::new(1_000_000_000, 60).unwrap();
    assert_eq!(s.frame_period(), 16_666_666);
    assert_eq!(s.after_frame(0), Pacing::Sleep { sleep_ticks: 16_666_666, sleep_ms: 16 });
    let mut big = FrameScheduler::new(u64::MAX, 1).unwrap();
    assert_eq!(big.after_frame(0), Pacing::Sleep { sleep_ticks: u64::MAX, sleep_ms: 1000 });
}
