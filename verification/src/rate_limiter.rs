//! Token-bucket rate limiting for probe issuance.
//!
//! The bucket accumulates tokens at a fixed rate up to a burst capacity and
//! hands out one token per probe. Token amounts are tracked in billionths of
//! a token so that refill at `rate` tokens per second over a span measured
//! in nanoseconds is exact. Time is passed in by the caller as nanoseconds
//! since the limiter was created, so the waiting itself stays outside the
//! library while the accounting is verified.

use vstd::prelude::*;

verus! {

/// Token scale: one token, in billionths.
pub const TOKEN_SCALE: u64 = 1_000_000_000;

/// A token-bucket rate limiter.
///
/// Created with an operations-per-second rate and a burst capacity; the
/// bucket starts full. The well-formedness predicate bounds the tokens
/// granted so far: never more than the burst plus the configured rate times
/// the elapsed time.
pub struct RateLimiter {
    rate: u32,
    burst: u32,
    tokens_e9: u64,
    last_ns: u64,
    granted: Ghost<nat>,
}

impl RateLimiter {
    /// Tokens added per second.
    pub closed spec fn spec_rate(self) -> u32 {
        self.rate
    }

    /// Bucket capacity in tokens.
    pub closed spec fn spec_burst(self) -> u32 {
        self.burst
    }

    /// Available tokens, scaled by `TOKEN_SCALE`.
    pub closed spec fn spec_tokens_e9(self) -> u64 {
        self.tokens_e9
    }

    /// The time of the last refill, in nanoseconds since creation.
    pub closed spec fn spec_last_ns(self) -> u64 {
        self.last_ns
    }

    /// How many acquisitions have completed since creation.
    pub closed spec fn spec_granted(self) -> nat {
        self.granted@
    }

    /// Well-formedness: positive configuration, tokens within capacity, and
    /// the accounting bound that makes the rate limit a theorem: tokens
    /// granted plus tokens still available never exceed the burst plus what
    /// the rate has accrued over the elapsed time.
    pub open spec fn wf(self) -> bool {
        &&& self.spec_rate() >= 1
        &&& self.spec_burst() >= 1
        &&& self.spec_tokens_e9() <= self.spec_burst() * TOKEN_SCALE
        &&& self.spec_granted() * TOKEN_SCALE + self.spec_tokens_e9() <= self.spec_burst()
            * TOKEN_SCALE + self.spec_rate() * self.spec_last_ns()
    }

    /// Create a limiter allowing `rate` operations per second, with a burst
    /// capacity equal to the rate. The bucket starts full, so the first
    /// acquisitions up to the burst succeed at once. A zero rate is
    /// rejected by contract: callers that want no limiting omit the
    /// limiter instead.
    pub fn new(rate: u32) -> (r: RateLimiter)
        requires
            rate >= 1,
        ensures
            r.wf(),
            r.spec_rate() == rate,
            r.spec_burst() == rate,
            r.spec_tokens_e9() == rate * TOKEN_SCALE,
            r.spec_granted() == 0,
            r.spec_last_ns() == 0,
    {
        RateLimiter {
            rate,
            burst: rate,
            tokens_e9: rate as u64 * TOKEN_SCALE,
            last_ns: 0,
            granted: Ghost(0),
        }
    }

    /// Create a limiter with a burst capacity beyond the steady rate; the
    /// bucket starts full.
    pub fn with_burst(rate: u32, burst: u32) -> (r: RateLimiter)
        requires
            rate >= 1,
            burst >= 1,
        ensures
            r.wf(),
            r.spec_rate() == rate,
            r.spec_burst() == burst,
            r.spec_tokens_e9() == burst * TOKEN_SCALE,
            r.spec_granted() == 0,
            r.spec_last_ns() == 0,
    {
        RateLimiter {
            rate,
            burst,
            tokens_e9: burst as u64 * TOKEN_SCALE,
            last_ns: 0,
            granted: Ghost(0),
        }
    }

    /// The tokens (scaled) that would be available after refilling at time
    /// `now_ns`; a clock reading behind the last refill adds nothing.
    pub open spec fn spec_tokens_at(self, now_ns: u64) -> int {
        let now = if now_ns > self.spec_last_ns() {
            now_ns as int
        } else {
            self.spec_last_ns() as int
        };
        let grown = self.spec_tokens_e9() + self.spec_rate() * (now - self.spec_last_ns());
        if grown > self.spec_burst() * TOKEN_SCALE {
            self.spec_burst() * TOKEN_SCALE
        } else {
            grown
        }
    }

    /// Try to take one token at time `now_ns` (nanoseconds since creation)
    /// without waiting. Returns whether a token was available; exactly the
    /// successful calls are counted as granted.
    pub fn try_acquire(&mut self, now_ns: u64) -> (r: bool)
        requires
            old(self).wf(),
        ensures
            final(self).wf(),
            final(self).spec_rate() == old(self).spec_rate(),
            final(self).spec_burst() == old(self).spec_burst(),
            r == (old(self).spec_tokens_at(now_ns) >= TOKEN_SCALE),
            r ==> final(self).spec_granted() == old(self).spec_granted() + 1,
            !r ==> final(self).spec_granted() == old(self).spec_granted(),
            final(self).spec_last_ns() == (if now_ns > old(self).spec_last_ns() {
                now_ns
            } else {
                old(self).spec_last_ns()
            }),
    {
        let now: u64 = if now_ns > self.last_ns {
            now_ns
        } else {
            self.last_ns
        };
        let delta: u64 = now - self.last_ns;
        proof {
            assert(delta as int * self.spec_rate() as int <= 0xffff_ffff_ffff_ffff_int
                * 0xffff_ffff_int) by (nonlinear_arith)
                requires
                    delta <= 0xffff_ffff_ffff_ffff,
                    self.spec_rate() <= 0xffff_ffff,
            ;
        }
        let add: u128 = delta as u128 * self.rate as u128;
        let cap: u128 = self.burst as u128 * TOKEN_SCALE as u128;
        let grown: u128 = self.tokens_e9 as u128 + add;
        let refilled: u128 = if grown > cap {
            cap
        } else {
            grown
        };
        proof {
            assert(self.spec_rate() * (now - self.spec_last_ns()) == add) by (nonlinear_arith)
                requires
                    add == delta as int * self.spec_rate() as int,
                    delta == now - self.spec_last_ns(),
            ;
            assert(self.spec_granted() * TOKEN_SCALE + refilled <= self.spec_burst() * TOKEN_SCALE
                + self.spec_rate() * now) by (nonlinear_arith)
                requires
                    self.spec_granted() * TOKEN_SCALE + self.spec_tokens_e9() <= self.spec_burst()
                        * TOKEN_SCALE + self.spec_rate() * self.spec_last_ns(),
                    refilled <= self.spec_tokens_e9() + add,
                    add == self.spec_rate() * (now - self.spec_last_ns()),
                    now >= self.spec_last_ns(),
            ;
        }
        self.tokens_e9 = refilled as u64;
        self.last_ns = now;
        if self.tokens_e9 >= TOKEN_SCALE {
            self.tokens_e9 = self.tokens_e9 - TOKEN_SCALE;
            proof {
                let g = self.granted@;
                assert((g + 1) * TOKEN_SCALE == g * TOKEN_SCALE + TOKEN_SCALE) by (nonlinear_arith);
            }
            self.granted = Ghost(self.granted@ + 1);
            true
        } else {
            false
        }
    }

    /// How long, in nanoseconds from `now_ns`, until a token will be
    /// available; zero when one is available already.
    pub fn nanos_until_ready(&self, now_ns: u64) -> (r: u64)
        requires
            self.wf(),
        ensures
            (r == 0) <==> self.spec_tokens_at(now_ns) >= TOKEN_SCALE,
            self.spec_tokens_at(now_ns) < TOKEN_SCALE ==> r == (TOKEN_SCALE
                - self.spec_tokens_at(now_ns) + self.spec_rate() - 1) / self.spec_rate() as int,
    {
        let now: u64 = if now_ns > self.last_ns {
            now_ns
        } else {
            self.last_ns
        };
        let delta: u64 = now - self.last_ns;
        proof {
            assert(delta as int * self.spec_rate() as int <= 0xffff_ffff_ffff_ffff_int
                * 0xffff_ffff_int) by (nonlinear_arith)
                requires
                    delta <= 0xffff_ffff_ffff_ffff,
                    self.spec_rate() <= 0xffff_ffff,
            ;
        }
        let add: u128 = delta as u128 * self.rate as u128;
        let cap: u128 = self.burst as u128 * TOKEN_SCALE as u128;
        let grown: u128 = self.tokens_e9 as u128 + add;
        let refilled: u128 = if grown > cap {
            cap
        } else {
            grown
        };
        proof {
            assert(self.spec_rate() * (now - self.spec_last_ns()) == add) by (nonlinear_arith)
                requires
                    add == delta as int * self.spec_rate() as int,
                    delta == now - self.spec_last_ns(),
            ;
        }
        if refilled >= TOKEN_SCALE as u128 {
            0
        } else {
            let need: u64 = TOKEN_SCALE - (refilled as u64);
            let r = (need + self.rate as u64 - 1) / self.rate as u64;
            proof {
                assert(r >= 1) by (nonlinear_arith)
                    requires
                        r == (need + self.spec_rate() - 1) as int / self.spec_rate() as int,
                        need >= 1,
                        self.spec_rate() >= 1,
                ;
            }
            r
        }
    }
}

/// The rate limit is a theorem of well-formedness: at any moment, the
/// number of completed acquisitions never exceeds the burst allowance plus
/// the configured rate times the elapsed seconds (elapsed time here in
/// nanoseconds, so the accrued share is `rate * elapsed_ns / 10^9`).
pub proof fn lemma_rate_limit_bound(lim: RateLimiter)
    requires
        lim.wf(),
    ensures
        lim.spec_granted() <= lim.spec_burst() + lim.spec_rate() * lim.spec_last_ns()
            / (TOKEN_SCALE as int),
{
    let g = lim.spec_granted() as int;
    let b = lim.spec_burst() as int;
    let acc = lim.spec_rate() * lim.spec_last_ns();
    let s = TOKEN_SCALE as int;
    assert(g * s <= b * s + acc);
    assert(g <= b + acc / s) by (nonlinear_arith)
        requires
            g * s <= b * s + acc,
            s == 1_000_000_000,
            acc >= 0,
            g >= 0,
            b >= 0,
    ;
}

} // verus!
