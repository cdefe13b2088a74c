//! Busy/idle time bookkeeping for a span, fed by a monotonic clock.

use vstd::prelude::*;

verus! {

/// The saturating sum of two durations.
pub open spec fn sat_add(a: u64, b: u64) -> u64 {
    if a + b > u64::MAX {
        u64::MAX
    } else {
        (a + b) as u64
    }
}

/// The time elapsed from `last` to `now` on a monotonic clock; a clock read
/// that appears to go backwards counts as no elapsed time.
pub open spec fn elapsed(last: u64, now: u64) -> u64 {
    if now >= last {
        (now - last) as u64
    } else {
        0
    }
}

/// Accumulated idle and busy time of a span, in nanoseconds, together with
/// the instant of the last transition.
#[derive(Clone, Copy, Debug, PartialEq, Eq, Structural)]
pub struct Timings {
    pub idle: u64,
    pub busy: u64,
    pub last: u64,
}

impl Timings {
    /// Fresh bookkeeping starting at the given instant.
    pub fn new(now: u64) -> (r: Self)
        ensures
            r == (Timings { idle: 0, busy: 0, last: now }),
    {
        Timings { idle: 0, busy: 0, last: now }
    }

    /// The span was entered: the time since the last transition was idle.
    pub fn enter(&mut self, now: u64)
        ensures
            final(self).idle == sat_add(old(self).idle, elapsed(old(self).last, now)),
            final(self).busy == old(self).busy,
            final(self).last == now,
    {
        let delta = if now >= self.last {
            now - self.last
        } else {
            0
        };
        self.idle = if self.idle > u64::MAX - delta {
            u64::MAX
        } else {
            self.idle + delta
        };
        self.last = now;
    }

    /// The span was exited: the time since the last transition was busy.
    pub fn exit(&mut self, now: u64)
        ensures
            final(self).busy == sat_add(old(self).busy, elapsed(old(self).last, now)),
            final(self).idle == old(self).idle,
            final(self).last == now,
    {
        let delta = if now >= self.last {
            now - self.last
        } else {
            0
        };
        self.busy = if self.busy > u64::MAX - delta {
            u64::MAX
        } else {
            self.busy + delta
        };
        self.last = now;
    }
}

} // verus!
