//! Per-endpoint rate limiting: a fixed-window counter per endpoint group.
//!
//! A slot is consumed at admission, immediately before the request is handed
//! to the transport, so a caller that abandons a request after admission still
//! counts against the window. The check-and-increment is a single operation on
//! an exclusively borrowed bucket, so concurrent dispatchers that share a
//! bucket behind a lock can never collectively over-admit.
use vstd::prelude::*;

verus! {

/// One endpoint group's budget: `capacity` requests per `window_ms`
/// milliseconds, `used` of them consumed since `window_start`.
#[derive(Debug, Clone, Copy, PartialEq, Eq, Structural)]
pub struct RateLimitBucket {
    pub capacity: u64,
    pub window_ms: u64,
    pub used: u64,
    pub window_start: u64,
}

/// Whether an exhausted bucket rejects at once or asks the caller to wait for
/// the window to reset. The choice is the caller's, made explicitly.
#[derive(Debug, Clone, Copy, PartialEq, Eq, Structural)]
pub enum RateLimitPolicy {
    FailFast,
    Block,
}

/// One dispatch attempt against a bucket at time `now` (epoch milliseconds):
/// the bucket afterwards and whether the attempt was admitted. A new window
/// starts when `now` has passed the current window's end; within the window
/// an attempt is admitted exactly when capacity remains.
pub open spec fn spec_attempt(b: RateLimitBucket, now: u64) -> (RateLimitBucket, bool) {
    if now >= b.window_start + b.window_ms {
        (RateLimitBucket { used: 1, window_start: now, ..b }, true)
    } else if b.used < b.capacity {
        (RateLimitBucket { used: (b.used + 1) as u64, ..b }, true)
    } else {
        (b, false)
    }
}

/// The bucket after a whole sequence of attempts, oldest first.
pub open spec fn spec_run(b: RateLimitBucket, ts: Seq<u64>) -> RateLimitBucket
    decreases ts.len(),
{
    if ts.len() == 0 {
        b
    } else {
        spec_run(spec_attempt(b, ts[0]).0, ts.drop_first())
    }
}

/// How many of a sequence of attempts are admitted.
pub open spec fn admitted_count(b: RateLimitBucket, ts: Seq<u64>) -> nat
    decreases ts.len(),
{
    if ts.len() == 0 {
        0
    } else {
        (if spec_attempt(b, ts[0]).1 {
            1nat
        } else {
            0nat
        }) + admitted_count(spec_attempt(b, ts[0]).0, ts.drop_first())
    }
}

impl RateLimitBucket {
    /// The bucket's invariant: a positive capacity never exceeded by `used`.
    pub open spec fn inv(self) -> bool {
        self.capacity >= 1 && self.used <= self.capacity
    }

    /// A fresh bucket with nothing consumed, its window starting at `now`.
    pub fn new(capacity: u64, window_ms: u64, now: u64) -> (b: RateLimitBucket)
        requires
            capacity >= 1,
        ensures
            b == (RateLimitBucket { capacity, window_ms, used: 0, window_start: now }),
            b.inv(),
    {
        RateLimitBucket { capacity, window_ms, used: 0, window_start: now }
    }

    /// The conservative default budget for endpoints without a declared
    /// limit: one request per second.
    pub fn default_bucket(now: u64) -> (b: RateLimitBucket)
        ensures
            b == (RateLimitBucket { capacity: 1, window_ms: 1000, used: 0, window_start: now }),
            b.inv(),
    {
        RateLimitBucket { capacity: 1, window_ms: 1000, used: 0, window_start: now }
    }

    /// The single atomic check-and-increment: admit and consume a slot, or
    /// refuse, exactly as [`spec_attempt`] says.
    pub fn attempt(&mut self, now: u64) -> (admitted: bool)
        requires
            old(self).inv(),
        ensures
            *final(self) == spec_attempt(*old(self), now).0,
            admitted == spec_attempt(*old(self), now).1,
            final(self).inv(),
    {
        if now >= self.window_start && now - self.window_start >= self.window_ms {
            self.used = 1;
            self.window_start = now;
            true
        } else if self.used < self.capacity {
            self.used = self.used + 1;
            true
        } else {
            false
        }
    }

    /// The instant when the current window ends and capacity frees again
    /// (saturating at the largest representable instant).
    pub fn retry_at(&self) -> (t: u64)
        ensures
            t == if self.window_start + self.window_ms <= u64::MAX {
                (self.window_start + self.window_ms) as u64
            } else {
                u64::MAX
            },
    {
        if self.window_start > u64::MAX - self.window_ms {
            u64::MAX
        } else {
            self.window_start + self.window_ms
        }
    }
}

/// Law: every sequence of attempts leaves the bucket's invariant intact —
/// `used` never exceeds `capacity`.
pub proof fn lemma_run_preserves_inv(b: RateLimitBucket, ts: Seq<u64>)
    requires
        b.inv(),
    ensures
        spec_run(b, ts).inv(),
    decreases ts.len(),
{
    if ts.len() > 0 {
        lemma_run_preserves_inv(spec_attempt(b, ts[0]).0, ts.drop_first());
    }
}

/// Law: for any sequence of attempts that all fall within the bucket's
/// current window, the attempts admitted never exceed the capacity that
/// remained — concurrent dispatchers sharing the bucket cannot collectively
/// over-admit within a window.
pub proof fn lemma_window_admission_bound(b: RateLimitBucket, ts: Seq<u64>)
    requires
        b.inv(),
        forall|i: int|
            0 <= i < ts.len() ==> b.window_start <= #[trigger] ts[i] && ts[i] < b.window_start
                + b.window_ms,
    ensures
        spec_run(b, ts).capacity == b.capacity,
        spec_run(b, ts).window_start == b.window_start,
        spec_run(b, ts).used == b.used + admitted_count(b, ts),
        b.used + admitted_count(b, ts) <= b.capacity,
    decreases ts.len(),
{
    if ts.len() > 0 {
        let nb = spec_attempt(b, ts[0]).0;
        assert(ts[0] < b.window_start + b.window_ms);
        assert(nb.window_start == b.window_start);
        assert(nb.capacity == b.capacity);
        assert(nb.inv());
        assert(forall|i: int|
            0 <= i < ts.drop_first().len() ==> nb.window_start <= #[trigger] ts.drop_first()[i]
                && ts.drop_first()[i] < nb.window_start + nb.window_ms);
        lemma_window_admission_bound(nb, ts.drop_first());
    }
}

} // verus!
