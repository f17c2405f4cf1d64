use vstd::prelude::*;

verus! {

/// Token amounts are kept in sixty-thousandths of a token, so that a refill
/// of `per_minute` tokens a minute is exactly `per_minute` units a
/// millisecond.
pub const TOKEN_SCALE: u64 = 60_000;

/// A continuous-refill token bucket: capacity `per_minute` tokens, refilled
/// at `per_minute` tokens per 60 s, lazily on each acquisition attempt.
/// Times are monotonic milliseconds.
pub struct RateLimiter {
    tokens: u64,
    max_tokens: u64,
    refill_per_ms: u64,
    last_refill: u64,
}

impl RateLimiter {
    /// Current level, in token units of `TOKEN_SCALE`.
    pub closed spec fn level(&self) -> nat {
        self.tokens as nat
    }

    /// Capacity, in token units of `TOKEN_SCALE`.
    pub closed spec fn capacity(&self) -> nat {
        self.max_tokens as nat
    }

    /// Refill, in token units of `TOKEN_SCALE` per millisecond.
    pub closed spec fn rate(&self) -> nat {
        self.refill_per_ms as nat
    }

    pub closed spec fn last(&self) -> nat {
        self.last_refill as nat
    }

    pub closed spec fn wf(&self) -> bool {
        &&& self.tokens <= self.max_tokens
        &&& self.refill_per_ms <= u32::MAX
        &&& self.max_tokens == self.refill_per_ms * TOKEN_SCALE
    }

    /// Milliseconds since the last refill; none when the clock reads earlier.
    pub open spec fn elapsed(&self, now: u64) -> nat {
        if now > self.last() {
            (now - self.last()) as nat
        } else {
            0
        }
    }

    /// Level after refilling up to `now`, capped at the capacity.
    pub open spec fn refilled(&self, now: u64) -> nat {
        let t = self.level() + self.rate() * self.elapsed(now);
        if t > self.capacity() {
            self.capacity()
        } else {
            t
        }
    }

    /// Whether an attempt at `now` is granted.
    pub open spec fn grants(&self, now: u64) -> bool {
        self.refilled(now) >= TOKEN_SCALE
    }

    /// The state after an attempt at `now`.
    pub closed spec fn after(&self, now: u64) -> RateLimiter {
        let t = self.refilled(now);
        RateLimiter {
            tokens: (if t >= TOKEN_SCALE {
                t - TOKEN_SCALE
            } else {
                t as int
            }) as u64,
            max_tokens: self.max_tokens,
            refill_per_ms: self.refill_per_ms,
            last_refill: if now > self.last_refill {
                now
            } else {
                self.last_refill
            },
        }
    }

    /// A full bucket of `per_minute` tokens, last refilled at `now`.
    pub fn new(per_minute: u32, now: u64) -> (r: RateLimiter)
        ensures
            r.wf(),
            r.level() == per_minute * TOKEN_SCALE,
            r.capacity() == per_minute * TOKEN_SCALE,
            r.rate() == per_minute,
            r.last() == now,
    {
        let max = per_minute as u64 * TOKEN_SCALE;
        RateLimiter { tokens: max, max_tokens: max, refill_per_ms: per_minute as u64, last_refill: now }
    }

    /// Refills for the time elapsed, then takes one token if there is one.
    pub fn try_acquire(&mut self, now: u64) -> (r: bool)
        requires
            old(self).wf(),
        ensures
            final(self).wf(),
            r == old(self).grants(now),
            *final(self) == old(self).after(now),
            final(self).capacity() == old(self).capacity(),
            final(self).rate() == old(self).rate(),
            final(self).last() == (if now > old(self).last() {
                now as nat
            } else {
                old(self).last()
            }),
            final(self).level() == (if r {
                old(self).refilled(now) - TOKEN_SCALE
            } else {
                old(self).refilled(now) as int
            }),
    {
        let elapsed: u64 = if now > self.last_refill {
            now - self.last_refill
        } else {
            0
        };
        assert((elapsed as u128) * (self.refill_per_ms as u128) <= (u64::MAX as u128) * (
        u32::MAX as u128)) by (nonlinear_arith)
            requires
                elapsed <= u64::MAX,
                self.refill_per_ms <= u32::MAX,
        ;
        let gained: u128 = (elapsed as u128) * (self.refill_per_ms as u128);
        let total: u128 = self.tokens as u128 + gained;
        let level: u64 = if total > self.max_tokens as u128 {
            self.max_tokens
        } else {
            total as u64
        };
        assert(elapsed == self.elapsed(now));
        assert(gained == (elapsed as int) * (self.refill_per_ms as int));
        assert(gained == self.rate() * self.elapsed(now)) by {
            assert(self.rate() == self.refill_per_ms as int);
            assert(self.elapsed(now) == elapsed as int);
        }
        assert(level == self.refilled(now));
        if now > self.last_refill {
            self.last_refill = now;
        }
        if level >= TOKEN_SCALE {
            self.tokens = level - TOKEN_SCALE;
            true
        } else {
            self.tokens = level;
            false
        }
    }
}

/// What an attempt at `now` leaves: the same capacity and rate, the last
/// refill moved up to `now`, and one token fewer than the refilled level
/// when the attempt is granted.
pub proof fn lemma_after_state(b: RateLimiter, now: u64)
    requires
        b.wf(),
    ensures
        b.after(now).wf(),
        b.after(now).capacity() == b.capacity(),
        b.after(now).rate() == b.rate(),
        b.after(now).last() == (if now > b.last() {
            now as nat
        } else {
            b.last()
        }),
        b.after(now).level() == (if b.grants(now) {
            b.refilled(now) - TOKEN_SCALE
        } else {
            b.refilled(now) as int
        }),
{
}

/// Number of attempts granted when the bucket `b` sees attempts at `times`,
/// in order.
pub closed spec fn granted(b: RateLimiter, times: Seq<u64>) -> nat
    decreases times.len(),
{
    if times.len() == 0 {
        0
    } else {
        (if b.grants(times[0]) {
            1nat
        } else {
            0nat
        }) + granted(b.after(times[0]), times.drop_first())
    }
}

pub open spec fn nondecreasing(times: Seq<u64>) -> bool {
    forall|i: int, j: int| 0 <= i <= j < times.len() ==> times[i] <= times[j]
}

proof fn lemma_granted_bound(b: RateLimiter, times: Seq<u64>)
    requires
        b.wf(),
        times.len() > 0,
        nondecreasing(times),
        times[0] >= b.last(),
    ensures
        granted(b, times) * TOKEN_SCALE <= b.level() + b.rate() * (times.last() - b.last()),
    decreases times.len(),
{
    let t0 = times[0];
    let b2 = b.after(t0);
    let g0: nat = if b.grants(t0) {
        1
    } else {
        0
    };
    assert(g0 * TOKEN_SCALE + b2.level() == b.refilled(t0));
    assert(b.refilled(t0) <= b.level() + b.rate() * (t0 - b.last()));
    if times.len() > 1 {
        let rest = times.drop_first();
        assert(rest[0] >= b2.last());
        assert(rest.last() == times.last());
        lemma_granted_bound(b2, rest);
        assert(b.rate() * (t0 - b.last()) + b.rate() * (times.last() - t0) == b.rate() * (
        times.last() - b.last())) by (nonlinear_arith)
            requires
                t0 >= b.last(),
                times.last() >= t0,
        ;
        assert(granted(b, times) == g0 + granted(b2, rest));
        assert(granted(b, times) * TOKEN_SCALE == g0 * TOKEN_SCALE + granted(b2, rest)
            * TOKEN_SCALE) by (nonlinear_arith)
            requires
                granted(b, times) == g0 + granted(b2, rest),
        ;
    } else {
        assert(granted(b2, times.drop_first()) == 0);
    }
}

/// Over any run of attempts at nondecreasing times, starting from a bucket
/// last refilled at `b.last()`, no more than the capacity plus the refill
/// over the elapsed time is granted: `granted × TOKEN_SCALE ≤ capacity +
/// rate × Δt`.
pub proof fn lemma_rate_bound(b: RateLimiter, times: Seq<u64>)
    requires
        b.wf(),
        times.len() > 0,
        nondecreasing(times),
        times[0] >= b.last(),
    ensures
        granted(b, times) * TOKEN_SCALE <= b.capacity() + b.rate() * (times.last() - b.last()),
{
    lemma_granted_bound(b, times);
}

} // verus!
