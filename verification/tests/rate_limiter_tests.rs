//! Tests for the dual sliding-window limiter.

use news_tagger::rate_limiter::{Admission, RateLimiter};

#[test]
fn unlimited_limiter_always_admits() {
    let mut lim = RateLimiter::new(None, None, 0);
    for t in 0..10u64 {
        assert_eq!(lim.try_acquire(t), Admission::Admit);
    }
}

#[test]
fn unlimited_limiter_is_a_no_op_on_its_state() {
    let mut lim = RateLimiter::new(None, None, 5);
    let before = lim.state;
    // far past both window lengths: a no-op still refreshes nothing
    assert_eq!(lim.try_acquire(10_000_000), Admission::Admit);
    assert_eq!(lim.state, before);
}

#[test]
fn minute_window_blocks_the_call_after_the_limit() {
    let mut lim = RateLimiter::new(Some(2), None, 0);
    assert_eq!(lim.try_acquire(0), Admission::Admit);
    assert_eq!(lim.try_acquire(1), Admission::Admit);
    // the third rapid call must wait exactly until the window resets
    assert_eq!(lim.try_acquire(2), Admission::Wait(59998));
    // still blocked just before the boundary
    assert_eq!(lim.try_acquire(59999), Admission::Wait(1));
    // the window resets in one jump at the boundary
    assert_eq!(lim.try_acquire(60000), Admission::Admit);
    assert_eq!(lim.try_acquire(60000), Admission::Admit);
    assert_eq!(lim.try_acquire(60000), Admission::Wait(60000));
}

#[test]
fn hour_window_blocks_independently() {
    let mut lim = RateLimiter::new(None, Some(1), 0);
    assert_eq!(lim.try_acquire(0), Admission::Admit);
    // a minute later the hour window is still saturated
    assert_eq!(lim.try_acquire(60000), Admission::Wait(3540000));
    assert_eq!(lim.try_acquire(3600000), Admission::Admit);
}

#[test]
fn both_windows_wait_for_the_longer_one() {
    let mut lim = RateLimiter::new(Some(1), Some(1), 0);
    assert_eq!(lim.try_acquire(0), Admission::Admit);
    // both windows are saturated; the hour window demands the longer wait
    assert_eq!(lim.try_acquire(10), Admission::Wait(3599990));
}

#[test]
fn zero_limit_never_admits() {
    let mut lim = RateLimiter::new(Some(0), None, 0);
    assert_eq!(lim.try_acquire(0), Admission::Wait(60000));
    assert_eq!(lim.try_acquire(60000), Admission::Wait(60000));
}
