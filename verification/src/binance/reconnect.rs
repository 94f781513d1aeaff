//! Reconnection schedule of the stream clients: exponential backoff from a
//! base delay, doubled after each failure up to a cap, and reset once a
//! connection is established.
use vstd::prelude::*;

verus! {

/// `min(2 * d, max)`.
pub open spec fn doubled_capped(d: u64, max: u64) -> u64 {
    if 2 * d >= max {
        max
    } else {
        (2 * d) as u64
    }
}

/// Reconnection state of one stream client.
#[derive(Debug, Clone, Copy, PartialEq, Eq, Structural)]
pub struct ReconnectBackoff {
    pub base_ms: u64,
    pub max_ms: u64,
    /// Delay before the next reconnection.
    pub delay_ms: u64,
    /// Connection attempts since the last successful connection.
    pub attempt: u32,
}

impl ReconnectBackoff {
    pub fn new(base_ms: u64, max_ms: u64) -> (r: Self)
        ensures
            r == (ReconnectBackoff { base_ms, max_ms, delay_ms: base_ms, attempt: 0 }),
    {
        ReconnectBackoff { base_ms, max_ms, delay_ms: base_ms, attempt: 0 }
    }

    /// Start a connection attempt; gives its number.
    pub fn next_attempt(&mut self) -> (r: u32)
        requires
            old(self).attempt < u32::MAX,
        ensures
            r == old(self).attempt + 1,
            *final(self) == (ReconnectBackoff { attempt: r, ..*old(self) }),
    {
        self.attempt = self.attempt + 1;
        self.attempt
    }

    /// The connection failed or ended: gives the delay to wait before the
    /// next attempt, and doubles the delay for the one after, up to the cap.
    pub fn on_failure(&mut self) -> (r: u64)
        ensures
            r == old(self).delay_ms,
            *final(self) == (ReconnectBackoff {
                delay_ms: doubled_capped(old(self).delay_ms, old(self).max_ms),
                ..*old(self)
            }),
    {
        let d = self.delay_ms;
        self.delay_ms = if d >= self.max_ms - self.max_ms / 2 {
            self.max_ms
        } else {
            d * 2
        };
        d
    }

    /// A connection was established: back to the base delay and attempt 0.
    pub fn on_connected(&mut self)
        ensures
            *final(self) == (ReconnectBackoff {
                delay_ms: old(self).base_ms,
                attempt: 0,
                ..*old(self)
            }),
    {
        self.delay_ms = self.base_ms;
        self.attempt = 0;
    }
}

/// The backoff never waits longer than the cap after a failure, and never
/// shortens a delay that is within the cap.
pub proof fn lemma_backoff_bounded(d: u64, max: u64)
    ensures
        doubled_capped(d, max) <= max,
        d <= max ==> d <= doubled_capped(d, max),
{
}

} // verus!
