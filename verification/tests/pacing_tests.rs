use ambient_lighting::framerate::FramerateLimiter;

#[test]
fn period_is_the_ceiling_of_the_target() {
    assert_eq!(FramerateLimiter::new(20_000, 0).period_ms(), 50); // 20 Hz
    assert_eq!(FramerateLimiter::new(1_000, 0).period_ms(), 1_000); // 1 Hz
    assert_eq!(FramerateLimiter::new(3, 0).period_ms(), 333_334); // 0.003 Hz, rounded up
    assert_eq!(FramerateLimiter::new(1, 0).period_ms(), 1_000_000);
}

#[test]
fn ticks_space_out_to_at_least_the_period() {
    // 1 Hz: each tick returns no earlier than 1000 ms after the previous
    let mut limiter = FramerateLimiter::new(1_000, 0);
    let mut now: u64 = 0;
    let start = now;
    let n = 5;
    for _ in 0..n {
        let wait = limiter.tick(now);
        now += wait; // the loop sleeps exactly the requested time
    }
    // total elapsed time covers (n-1) periods and the arming period
    assert!(now - start >= (n - 1) * 1_000);
}

#[test]
fn a_slow_iteration_is_never_caught_up() {
    let mut limiter = FramerateLimiter::new(1_000, 0); // period 1000 ms
    let w1 = limiter.tick(0);
    assert_eq!(w1, 1_000); // armed at 0, first tick returns at 1000
    // the next iteration takes 2500 ms of real work
    let w2 = limiter.tick(3_500);
    // the period has long passed: no wait, and no shortened future wait
    assert_eq!(w2, 0);
    let w3 = limiter.tick(3_600);
    // re-armed from 3500, not from some catch-up schedule
    assert_eq!(w3, 900);
}

#[test]
fn partial_elapse_waits_the_difference() {
    let mut limiter = FramerateLimiter::new(20_000, 0); // period 50 ms
    let w1 = limiter.tick(0);
    assert_eq!(w1, 50);
    // 30 ms of work since the tick returned at 50
    let w2 = limiter.tick(80);
    assert_eq!(w2, 20);
}
