//! Dual sliding-window admission control.
//!
//! The limiter keeps independent minute and hour windows. A window resets to
//! zero in one jump at its boundary (burst-then-reset semantics, not a token
//! bucket). Callers are admitted when no active window is saturated;
//! otherwise they are told how long to wait until whichever saturated window
//! resets, and re-evaluate after sleeping.
//!
//! The limiter owns no clock: every step takes the current time in
//! milliseconds, so tests can drive it deterministically.

use vstd::prelude::*;

verus! {

/// One millisecond-resolution minute.
pub const MINUTE_MS: u64 = 60000;

/// One millisecond-resolution hour.
pub const HOUR_MS: u64 = 3600000;

/// Window counters of the rate limiter.
#[derive(Clone, Copy, Debug, PartialEq, Eq, Structural)]
pub struct RateLimiterState {
    /// When the current minute window started, in milliseconds.
    pub minute_window_start: u64,
    /// When the current hour window started, in milliseconds.
    pub hour_window_start: u64,
    /// Admissions in the current minute window.
    pub minute_count: u32,
    /// Admissions in the current hour window.
    pub hour_count: u32,
}

/// What one reading of the limiter decides.
#[derive(Clone, Copy, Debug, PartialEq, Eq, Structural)]
pub enum Admission {
    /// The caller may proceed now.
    Admit,
    /// The caller must wait this many milliseconds and ask again.
    Wait(u64),
}

/// Milliseconds elapsed from `start` to `now`, zero if `now` is earlier.
pub open spec fn elapsed_since(now: u64, start: u64) -> int {
    if now >= start {
        now - start
    } else {
        0
    }
}

/// The state after expired windows have been reset: a window that has run
/// its full length starts over at `now` with a zero count.
pub open spec fn spec_apply_resets(s: RateLimiterState, now: u64) -> RateLimiterState {
    let minute_reset = elapsed_since(now, s.minute_window_start) >= MINUTE_MS;
    let hour_reset = elapsed_since(now, s.hour_window_start) >= HOUR_MS;
    RateLimiterState {
        minute_window_start: if minute_reset {
            now
        } else {
            s.minute_window_start
        },
        minute_count: if minute_reset {
            0
        } else {
            s.minute_count
        },
        hour_window_start: if hour_reset {
            now
        } else {
            s.hour_window_start
        },
        hour_count: if hour_reset {
            0
        } else {
            s.hour_count
        },
    }
}

/// How long a caller must wait, given the state after resets: the larger of
/// the remainders of whichever configured windows are saturated, zero when
/// none is.
pub open spec fn spec_wait_needed(
    per_minute: Option<u32>,
    per_hour: Option<u32>,
    s: RateLimiterState,
    now: u64,
) -> int {
    let wm = match per_minute {
        Some(n) => if s.minute_count >= n {
            MINUTE_MS - elapsed_since(now, s.minute_window_start)
        } else {
            0
        },
        None => 0,
    };
    let wh = match per_hour {
        Some(n) => if s.hour_count >= n {
            HOUR_MS - elapsed_since(now, s.hour_window_start)
        } else {
            0
        },
        None => 0,
    };
    if wm >= wh {
        wm
    } else {
        wh
    }
}

/// The state after an admission: each configured window counts one more.
pub open spec fn spec_admit(
    per_minute: Option<u32>,
    per_hour: Option<u32>,
    s: RateLimiterState,
) -> RateLimiterState {
    RateLimiterState {
        minute_count: if per_minute is Some {
            (s.minute_count + 1) as u32
        } else {
            s.minute_count
        },
        hour_count: if per_hour is Some {
            (s.hour_count + 1) as u32
        } else {
            s.hour_count
        },
        ..s
    }
}

/// Dual sliding-window limiter.
pub struct RateLimiter {
    /// Max admissions per minute window, unlimited when absent.
    pub per_minute: Option<u32>,
    /// Max admissions per hour window, unlimited when absent.
    pub per_hour: Option<u32>,
    /// Current window counters.
    pub state: RateLimiterState,
}

impl RateLimiter {
    /// Counts never exceed their configured limits.
    pub open spec fn wf(self) -> bool {
        &&& (self.per_minute matches Some(n) ==> self.state.minute_count <= n)
        &&& (self.per_hour matches Some(n) ==> self.state.hour_count <= n)
    }

    /// A fresh limiter whose windows start at `now_ms`.
    pub fn new(per_minute: Option<u32>, per_hour: Option<u32>, now_ms: u64) -> (r: RateLimiter)
        ensures
            r.per_minute == per_minute,
            r.per_hour == per_hour,
            r.state == (RateLimiterState {
                minute_window_start: now_ms,
                hour_window_start: now_ms,
                minute_count: 0,
                hour_count: 0,
            }),
            r.wf(),
    {
        RateLimiter {
            per_minute,
            per_hour,
            state: RateLimiterState {
                minute_window_start: now_ms,
                hour_window_start: now_ms,
                minute_count: 0,
                hour_count: 0,
            },
        }
    }

    /// One reading of the limiter at time `now_ms`: with no limit
    /// configured at all this is a no-op that admits without touching any
    /// window state; otherwise reset expired windows, then either admit
    /// (counting the admission in each configured window) or say how long to
    /// wait for the earliest reset that frees every saturated window.
    pub fn try_acquire(&mut self, now_ms: u64) -> (r: Admission)
        requires
            old(self).wf(),
        ensures
            final(self).per_minute == old(self).per_minute,
            final(self).per_hour == old(self).per_hour,
            final(self).wf(),
            ({
                if old(self).per_minute is None && old(self).per_hour is None {
                    &&& r == Admission::Admit
                    &&& final(self).state == old(self).state
                } else {
                    let after = spec_apply_resets(old(self).state, now_ms);
                    let w = spec_wait_needed(
                        old(self).per_minute,
                        old(self).per_hour,
                        after,
                        now_ms,
                    );
                    if w == 0 {
                        &&& r == Admission::Admit
                        &&& final(self).state == spec_admit(
                            old(self).per_minute,
                            old(self).per_hour,
                            after,
                        )
                    } else {
                        &&& r == Admission::Wait(w as u64)
                        &&& final(self).state == after
                    }
                }
            }),
    {
        if self.per_minute.is_none() && self.per_hour.is_none() {
            return Admission::Admit;
        }
        let ghost pre = self.state;
        if now_ms >= self.state.minute_window_start && now_ms - self.state.minute_window_start
            >= MINUTE_MS {
            self.state.minute_window_start = now_ms;
            self.state.minute_count = 0;
        }
        if now_ms >= self.state.hour_window_start && now_ms - self.state.hour_window_start
            >= HOUR_MS {
            self.state.hour_window_start = now_ms;
            self.state.hour_count = 0;
        }
        proof {
            assert(self.state == spec_apply_resets(pre, now_ms));
        }
        let mut wait: u64 = 0;
        match self.per_minute {
            Some(n) => {
                if self.state.minute_count >= n {
                    let elapsed = if now_ms >= self.state.minute_window_start {
                        now_ms - self.state.minute_window_start
                    } else {
                        0
                    };
                    let rem = MINUTE_MS - elapsed;
                    if rem > wait {
                        wait = rem;
                    }
                }
            },
            None => {},
        }
        match self.per_hour {
            Some(n) => {
                if self.state.hour_count >= n {
                    let elapsed = if now_ms >= self.state.hour_window_start {
                        now_ms - self.state.hour_window_start
                    } else {
                        0
                    };
                    let rem = HOUR_MS - elapsed;
                    if rem > wait {
                        wait = rem;
                    }
                }
            },
            None => {},
        }
        if wait == 0 {
            match self.per_minute {
                Some(_) => {
                    self.state.minute_count = self.state.minute_count + 1;
                },
                None => {},
            }
            match self.per_hour {
                Some(_) => {
                    self.state.hour_count = self.state.hour_count + 1;
                },
                None => {},
            }
            Admission::Admit
        } else {
            Admission::Wait(wait)
        }
    }
}

/// A saturated minute window defers the caller until the window resets:
/// once `n` calls have gone through in the current window and the window
/// has not yet run its minute, the limiter does not admit, and the wait it
/// asks for covers the time left until the window resets.
pub proof fn lemma_saturated_minute_window_blocks(lim: RateLimiter, now_ms: u64, n: u32)
    requires
        lim.wf(),
        lim.per_minute == Some(n),
        lim.state.minute_count == n,
        lim.state.minute_window_start <= now_ms,
        elapsed_since(now_ms, lim.state.minute_window_start) < MINUTE_MS,
    ensures
        spec_wait_needed(
            lim.per_minute,
            lim.per_hour,
            spec_apply_resets(lim.state, now_ms),
            now_ms,
        ) >= MINUTE_MS - elapsed_since(now_ms, lim.state.minute_window_start) > 0,
{
}

/// Once a saturated minute window has run its full minute, and with at
/// least one admission allowed per window and no hour limit in the way, the
/// next reading admits: the reset is rechecked, not assumed.
pub proof fn lemma_minute_window_admits_after_reset(lim: RateLimiter, now_ms: u64, n: u32)
    requires
        lim.wf(),
        lim.per_minute == Some(n),
        lim.per_hour is None,
        n >= 1,
        lim.state.minute_window_start <= now_ms,
        elapsed_since(now_ms, lim.state.minute_window_start) >= MINUTE_MS,
    ensures
        spec_wait_needed(
            lim.per_minute,
            lim.per_hour,
            spec_apply_resets(lim.state, now_ms),
            now_ms,
        ) == 0,
{
}

/// The counters after a sequence of limiter readings, paired with how many of
/// them were admitted.
pub open spec fn run_admissions(
    per_minute: Option<u32>,
    per_hour: Option<u32>,
    s: RateLimiterState,
    times: Seq<u64>,
) -> (RateLimiterState, int)
    decreases times.len(),
{
    if per_minute is None && per_hour is None {
        (s, times.len() as int)
    } else if times.len() == 0 {
        (s, 0)
    } else {
        let now = times[0];
        let after = spec_apply_resets(s, now);
        let w = spec_wait_needed(per_minute, per_hour, after, now);
        let stepped = if w == 0 {
            spec_admit(per_minute, per_hour, after)
        } else {
            after
        };
        let (fin, admits) = run_admissions(per_minute, per_hour, stepped, times.drop_first());
        (fin, admits + if w == 0 {
            1int
        } else {
            0int
        })
    }
}

/// Burst-then-reset bound: within one minute window (every reading takes
/// place before the window's start plus one minute), a limiter configured
/// with `per_minute = n` admits at most `n` calls minus those already
/// counted in that window, however many readings are made.
pub proof fn lemma_minute_window_admission_bound(
    per_hour: Option<u32>,
    s: RateLimiterState,
    times: Seq<u64>,
    n: u32,
)
    requires
        s.minute_count <= n,
        forall|i: int|
            0 <= i < times.len() ==> s.minute_window_start <= #[trigger] times[i]
                && elapsed_since(times[i], s.minute_window_start) < MINUTE_MS,
    ensures
        run_admissions(Some(n), per_hour, s, times).1 <= n - s.minute_count,
    decreases times.len(),
{
    if times.len() > 0 {
        let now = times[0];
        let after = spec_apply_resets(s, now);
        assert(after.minute_window_start == s.minute_window_start);
        assert(after.minute_count == s.minute_count);
        let w = spec_wait_needed(Some(n), per_hour, after, now);
        let stepped = if w == 0 {
            spec_admit(Some(n), per_hour, after)
        } else {
            after
        };
        assert(stepped.minute_window_start == s.minute_window_start);
        if w == 0 {
            assert(after.minute_count < n);
            assert(stepped.minute_count == s.minute_count + 1);
        } else {
            assert(stepped.minute_count == s.minute_count);
        }
        assert(forall|i: int|
            0 <= i < times.drop_first().len() ==> stepped.minute_window_start
                <= #[trigger] times.drop_first()[i] && elapsed_since(
                times.drop_first()[i],
                stepped.minute_window_start,
            ) < MINUTE_MS);
        lemma_minute_window_admission_bound(per_hour, stepped, times.drop_first(), n);
    }
}

/// Under a limit of `n` per minute, a fresh limiter never admits more
/// than `n` calls within its first minute window, however many calls are
/// made and however the hour limit is set.
pub proof fn lemma_fresh_limiter_minute_bound(
    per_hour: Option<u32>,
    start_ms: u64,
    times: Seq<u64>,
    n: u32,
)
    requires
        forall|i: int|
            0 <= i < times.len() ==> start_ms <= #[trigger] times[i] && elapsed_since(
                times[i],
                start_ms,
            ) < MINUTE_MS,
    ensures
        run_admissions(
            Some(n),
            per_hour,
            RateLimiterState {
                minute_window_start: start_ms,
                hour_window_start: start_ms,
                minute_count: 0,
                hour_count: 0,
            },
            times,
        ).1 <= n,
{
    let s = RateLimiterState {
        minute_window_start: start_ms,
        hour_window_start: start_ms,
        minute_count: 0,
        hour_count: 0,
    };
    lemma_minute_window_admission_bound(per_hour, s, times, n);
}

} // verus!
