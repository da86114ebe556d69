//! Liveness bookkeeping of a connection.
//!
//! Time is a count of milliseconds that the caller reads from a clock that
//! does not run backwards.

use vstd::prelude::*;

verus! {

/// The later of two times, where any is known.
pub open spec fn later(a: Option<u64>, b: Option<u64>) -> Option<u64> {
    match (a, b) {
        (Some(x), Some(y)) => if x >= y {
            Some(x)
        } else {
            Some(y)
        },
        (Some(x), None) => Some(x),
        (None, y) => y,
    }
}

/// When data was last seen and when a keepalive was last sent, against one
/// interval.
#[derive(Debug, Clone, Copy)]
pub struct PingTracker {
    /// The interval, in milliseconds.
    pub interval: u64,
    /// When data was last seen.
    pub last_seen: Option<u64>,
    /// When a keepalive was last sent.
    pub last_sent: Option<u64>,
}

impl PingTracker {
    /// Whether a keepalive is due at `now`: the interval has passed since
    /// the later of the two times.
    pub open spec fn due(&self, now: u64) -> bool {
        later(self.last_seen, self.last_sent) matches Some(t) && now >= t && now - t
            >= self.interval
    }

    /// A tracker that has seen and sent nothing.
    pub fn new(interval: u64) -> (r: PingTracker)
        ensures
            r.interval == interval,
            r.last_seen is None,
            r.last_sent is None,
    {
        PingTracker { interval, last_seen: None, last_sent: None }
    }

    /// The interval, in milliseconds.
    pub fn threshold(&self) -> (r: u64)
        ensures
            r == self.interval,
    {
        self.interval
    }

    /// Notes that data was seen at `now`.
    pub fn update(&mut self, now: u64)
        ensures
            final(self).interval == old(self).interval,
            final(self).last_seen == Some(now),
            final(self).last_sent == old(self).last_sent,
    {
        self.last_seen = Some(now);
    }

    /// Tells whether a keepalive is due at `now`, and if so notes that it
    /// is sent.
    pub fn should_pong(&mut self, now: u64) -> (r: bool)
        ensures
            r == old(self).due(now),
            final(self).interval == old(self).interval,
            final(self).last_seen == old(self).last_seen,
            final(self).last_sent == if r {
                Some(now)
            } else {
                old(self).last_sent
            },
    {
        let base: Option<u64> = match (self.last_seen, self.last_sent) {
            (Some(x), Some(y)) => if x >= y {
                Some(x)
            } else {
                Some(y)
            },
            (Some(x), None) => Some(x),
            (None, y) => y,
        };
        match base {
            Some(t) => {
                if now >= t && now - t >= self.interval {
                    self.last_sent = Some(now);
                    true
                } else {
                    false
                }
            },
            None => false,
        }
    }
}

/// After a keepalive no other is due before the interval has passed again:
/// keepalives do not come in a burst.
pub proof fn law_no_keepalive_burst(before: PingTracker, sent: u64, now: u64)
    requires
        before.due(sent),
        before.interval > 0,
        sent <= now,
        now - sent < before.interval,
    ensures
        !(PingTracker { last_sent: Some(sent), ..before }).due(now),
{
}

} // verus!
