//! A fixed-timestep frame timer. Time is counted in whole nanoseconds.

use vstd::prelude::*;

use std::time::{Duration, Instant};

verus! {

#[verifier::external_type_specification]
#[verifier::external_body]
pub struct ExInstant(Instant);

/// Relies on `Instant::now`: a reading of the monotonic clock. Nothing is
/// known of its value.
#[verifier::external_body]
fn instant_now() -> Instant {
    Instant::now()
}

/// Relies on `Instant::saturating_duration_since`: the time from `earlier`
/// to `later`, zero when `later` is the earlier one.
#[verifier::external_body]
fn duration_since(later: &Instant, earlier: &Instant) -> Duration {
    later.saturating_duration_since(*earlier)
}

/// Relies on `Duration::as_nanos`: the whole nanoseconds in a duration.
#[verifier::external_body]
fn duration_nanos(d: &Duration) -> u128 {
    d.as_nanos()
}

/// Nanoseconds in a second.
pub const NANOS_PER_SEC: u64 = 1000000000;

/// How many updates of lag the timer keeps at most.
pub const MAX_LAG_UPDATES: u64 = 8;

/// Counts the time since the last tick towards fixed-length updates.
pub struct Timer {
    last_time: Instant,
    accumulated_time: u64,
    target_time: u64,
    max_lag: u64,
}

impl Timer {
    /// Time counted towards the next update, in nanoseconds.
    pub closed spec fn accumulated_spec(&self) -> int {
        self.accumulated_time as int
    }

    /// The length of one update, in nanoseconds.
    pub closed spec fn target_spec(&self) -> int {
        self.target_time as int
    }

    /// The most time the timer keeps counted, in nanoseconds.
    pub closed spec fn max_lag_spec(&self) -> int {
        self.max_lag as int
    }

    pub open spec fn wf(&self) -> bool {
        &&& self.max_lag_spec() == self.target_spec() * MAX_LAG_UPDATES
        &&& self.target_spec() <= NANOS_PER_SEC
        &&& self.accumulated_spec() <= self.max_lag_spec()
    }

    /// A timer for `tick_rate` updates per second.
    pub fn new(tick_rate: u32) -> (t: Timer)
        requires
            tick_rate > 0,
        ensures
            t.wf(),
            t.target_spec() == NANOS_PER_SEC as int / tick_rate as int,
            t.accumulated_spec() == 0,
    {
        let target_time = NANOS_PER_SEC / tick_rate as u64;
        Timer {
            last_time: instant_now(),
            accumulated_time: 0,
            target_time,
            max_lag: target_time * MAX_LAG_UPDATES,
        }
    }

    /// Counts the time since the last tick, keeping at most the maximum lag.
    pub fn tick(&mut self)
        requires
            old(self).wf(),
        ensures
            final(self).wf(),
            final(self).target_spec() == old(self).target_spec(),
            old(self).accumulated_spec() <= final(self).accumulated_spec(),
    {
        self.advance_time();
        self.cap_accumulated_time();
    }

    /// Counts `elapsed` nanoseconds, keeping at most the maximum lag.
    pub fn advance_by(&mut self, elapsed: u64)
        requires
            old(self).wf(),
        ensures
            final(self).wf(),
            final(self).target_spec() == old(self).target_spec(),
            final(self).accumulated_spec() == if old(self).accumulated_spec() + elapsed
                <= old(self).max_lag_spec() {
                old(self).accumulated_spec() + elapsed
            } else {
                old(self).max_lag_spec()
            },
    {
        self.add_time(elapsed);
        self.cap_accumulated_time();
    }

    /// Starts counting afresh from now.
    pub fn reset(&mut self)
        requires
            old(self).wf(),
        ensures
            final(self).wf(),
            final(self).target_spec() == old(self).target_spec(),
            final(self).accumulated_spec() == 0,
    {
        self.last_time = instant_now();
        self.accumulated_time = 0;
    }

    /// Whether a whole update's time is counted.
    pub fn update_ready(&self) -> (r: bool)
        ensures
            r == (self.accumulated_spec() >= self.target_spec()),
    {
        self.accumulated_time >= self.target_time
    }

    /// Takes one update's time off the count when there is that much, and
    /// says whether there was.
    pub fn check_update_ready(&mut self) -> (r: bool)
        requires
            old(self).wf(),
        ensures
            final(self).wf(),
            final(self).target_spec() == old(self).target_spec(),
            r == (old(self).accumulated_spec() >= old(self).target_spec()),
            final(self).accumulated_spec() == if r {
                old(self).accumulated_spec() - old(self).target_spec()
            } else {
                old(self).accumulated_spec()
            },
    {
        let ready = self.accumulated_time >= self.target_time;
        if ready {
            self.accumulated_time = self.accumulated_time - self.target_time;
        }
        ready
    }

    /// The length of one update, in nanoseconds.
    pub fn delta(&self) -> (r: u64)
        ensures
            r == self.target_spec(),
    {
        self.target_time
    }

    /// Time counted towards the next update, in nanoseconds.
    pub fn accumulated(&self) -> (r: u64)
        ensures
            r == self.accumulated_spec(),
    {
        self.accumulated_time
    }

    fn add_time(&mut self, elapsed: u64)
        ensures
            final(self).target_spec() == old(self).target_spec(),
            final(self).max_lag_spec() == old(self).max_lag_spec(),
            final(self).accumulated_spec() == if old(self).accumulated_spec() + elapsed <= u64::MAX {
                old(self).accumulated_spec() + elapsed
            } else {
                u64::MAX as int
            },
    {
        if elapsed > u64::MAX - self.accumulated_time {
            self.accumulated_time = u64::MAX;
        } else {
            self.accumulated_time = self.accumulated_time + elapsed;
        }
    }

    fn advance_time(&mut self)
        ensures
            final(self).target_spec() == old(self).target_spec(),
            final(self).max_lag_spec() == old(self).max_lag_spec(),
            final(self).accumulated_spec() >= old(self).accumulated_spec(),
    {
        let current_time = instant_now();
        let advanced = duration_since(&current_time, &self.last_time);
        let nanos = duration_nanos(&advanced);
        let elapsed: u64 = if nanos > u64::MAX as u128 {
            u64::MAX
        } else {
            nanos as u64
        };
        self.add_time(elapsed);
        self.last_time = current_time;
    }

    fn cap_accumulated_time(&mut self)
        requires
            old(self).max_lag_spec() == old(self).target_spec() * MAX_LAG_UPDATES,
            old(self).target_spec() <= NANOS_PER_SEC,
        ensures
            final(self).wf(),
            final(self).target_spec() == old(self).target_spec(),
            final(self).accumulated_spec() == if old(self).accumulated_spec() <= old(self).max_lag_spec() {
                old(self).accumulated_spec()
            } else {
                old(self).max_lag_spec()
            },
    {
        if self.accumulated_time > self.max_lag {
            self.accumulated_time = self.max_lag;
        }
    }
}

} // verus!
