//! Per-key token bucket rate limiter.
//!
//! Tokens are held in sixty-thousandths so that refilling stays exact
//! integer arithmetic: a bucket refills `per_minute` scaled tokens per
//! millisecond, which is `per_minute / 60` whole tokens per second. One
//! whole token, `TOKEN_SCALE` scaled units, is spent per allowed call.
use vstd::prelude::*;
use vstd::pervasive::VecAdditionalExecFns;
use vstd::string::*;

verus! {

/// Scaled units per whole token: one token refills in `60000 / per_minute`
/// milliseconds.
pub const TOKEN_SCALE: u64 = 60000;

#[derive(Debug, Clone, Copy)]
pub struct RateLimitHeaders {
    pub limit: u32,
    pub remaining: u32,
    pub reset_seconds: u64,
}

#[derive(Debug, Clone, Copy)]
pub struct RateLimitDecision {
    pub allowed: bool,
    pub headers: RateLimitHeaders,
}

#[derive(Debug)]
struct BucketEntry {
    key: String,
    tokens_scaled: u64,
    last_refill_ms: u64,
}

#[derive(Debug)]
pub struct RateLimiter {
    per_minute: u32,
    burst: u32,
    buckets: Vec<BucketEntry>,
}

impl RateLimiter {
    pub closed spec fn spec_per_minute(self) -> int {
        self.per_minute as int
    }

    pub closed spec fn spec_burst(self) -> int {
        self.burst as int
    }

    /// Bucket capacity in whole tokens: the larger of burst and the
    /// per-minute rate.
    pub closed spec fn spec_capacity_tokens(self) -> int {
        if self.burst >= self.per_minute {
            self.burst as int
        } else {
            self.per_minute as int
        }
    }

    pub closed spec fn spec_capacity_scaled(self) -> int {
        self.spec_capacity_tokens() * TOKEN_SCALE
    }

    pub closed spec fn wf(self) -> bool {
        &&& self.per_minute >= 1
        &&& self.burst >= 1
        &&& forall|i: int|
            0 <= i < self.buckets.len() ==> 0 <= (#[trigger] self.buckets[i].tokens_scaled)
                <= self.spec_capacity_scaled()
        &&& forall|i: int, j: int|
            0 <= i < j < self.buckets.len() ==> (#[trigger] self.buckets[i].key@)
                != (#[trigger] self.buckets[j].key@)
    }

    /// Between refills (the clock not past the bucket's last refill) the
    /// token level does not rise.
    pub closed spec fn spec_last_refill_of(self, key: Seq<char>) -> Option<int> {
        if exists|i: int| 0 <= i < self.buckets.len() && (#[trigger] self.buckets[i].key@) == key {
            let i = choose|i: int|
                0 <= i < self.buckets.len() && (#[trigger] self.buckets[i].key@) == key;
            Some(self.buckets[i].last_refill_ms as int)
        } else {
            None
        }
    }

    pub closed spec fn spec_tokens_of(self, key: Seq<char>) -> Option<int> {
        if exists|i: int| 0 <= i < self.buckets.len() && (#[trigger] self.buckets[i].key@) == key {
            let i = choose|i: int|
                0 <= i < self.buckets.len() && (#[trigger] self.buckets[i].key@) == key;
            Some(self.buckets[i].tokens_scaled as int)
        } else {
            None
        }
    }

    /// The bucket level a check works from, in scaled tokens: the stored
    /// level plus `elapsed_ms * per_minute` scaled tokens of refill, capped
    /// at the capacity; a key without a bucket starts at capacity.
    pub closed spec fn spec_pre_level(self, key: Seq<char>, now_ms: u64) -> int {
        match (self.spec_tokens_of(key), self.spec_last_refill_of(key)) {
            (Some(t0), Some(last)) => {
                let elapsed = if now_ms > last {
                    now_ms - last
                } else {
                    0
                };
                let grown = t0 + elapsed * self.spec_per_minute();
                if grown > self.spec_capacity_scaled() {
                    self.spec_capacity_scaled()
                } else {
                    grown
                }
            },
            _ => self.spec_capacity_scaled(),
        }
    }

    /// Both the per-minute rate and the burst get a floor of one.
    pub fn new(per_minute: u32, burst: u32) -> (r: RateLimiter)
        ensures
            r.wf(),
            r.spec_per_minute() == if per_minute >= 1 {
                per_minute as int
            } else {
                1
            },
            r.spec_burst() == if burst >= 1 {
                burst as int
            } else {
                1
            },
    {
        RateLimiter {
            per_minute: if per_minute >= 1 {
                per_minute
            } else {
                1
            },
            burst: if burst >= 1 {
                burst
            } else {
                1
            },
            buckets: Vec::new(),
        }
    }

    fn find_bucket(&self, key: &String) -> (r: Option<usize>)
        requires
            self.wf(),
        ensures
            match r {
                Some(i) => i < self.buckets.len() && self.buckets[i as int].key@ == key@,
                None => forall|i: int|
                    0 <= i < self.buckets.len() ==> (#[trigger] self.buckets[i].key@) != key@,
            },
    {
        let mut i: usize = 0;
        while i < self.buckets.len()
            invariant
                self.wf(),
                0 <= i <= self.buckets.len(),
                forall|k: int| 0 <= k < i ==> (#[trigger] self.buckets[k].key@) != key@,
            decreases self.buckets.len() - i,
        {
            if self.buckets[i].key.eq(key) {
                return Some(i);
            }
            i += 1;
        }
        None
    }

    /// One rate-limit check: lazily initializes the bucket at capacity,
    /// restores tokens for the elapsed time, caps at capacity, and spends
    /// one token if a whole one is available.
    ///
    /// Tokens stay within `0 ..= capacity`; without any elapsed time (the
    /// clock did not advance past the last refill) they never increase, so
    /// between refills the level is non-increasing.
    pub fn check(&mut self, key: &String, now_ms: u64) -> (d: RateLimitDecision)
        requires
            old(self).wf(),
        ensures
            final(self).wf(),
            final(self).spec_per_minute() == old(self).spec_per_minute(),
            final(self).spec_burst() == old(self).spec_burst(),
            d.headers.limit == old(self).spec_per_minute(),
            final(self).spec_tokens_of(key@) is Some,
            0 <= final(self).spec_tokens_of(key@).unwrap() <= final(self).spec_capacity_scaled(),
            d.allowed ==> final(self).spec_tokens_of(key@).unwrap() <= final(self).spec_capacity_scaled() - TOKEN_SCALE,
            d.headers.remaining == final(self).spec_tokens_of(key@).unwrap() / (TOKEN_SCALE as int),
            // one whole token is spent exactly when a whole one was there
            d.allowed <==> old(self).spec_pre_level(key@, now_ms) >= TOKEN_SCALE,
            final(self).spec_tokens_of(key@).unwrap() == old(self).spec_pre_level(key@, now_ms)
                - (if d.allowed {
                TOKEN_SCALE as int
            } else {
                0
            }),
            !d.allowed ==> final(self).spec_tokens_of(key@).unwrap() < TOKEN_SCALE,
            final(self).spec_tokens_of(key@).unwrap() >= TOKEN_SCALE ==> d.headers.reset_seconds
                == 0,
            final(self).spec_tokens_of(key@).unwrap() < TOKEN_SCALE ==> d.headers.reset_seconds
                >= 1,
            // between refills the level never rises
            spec_no_rise_without_refill(*old(self), *final(self), key@, now_ms),
    {
        let ghost cap_scaled = self.spec_capacity_scaled();
        let capacity_tokens: u64 = if self.burst >= self.per_minute {
            self.burst as u64
        } else {
            self.per_minute as u64
        };
        let capacity_scaled: u64 = capacity_tokens * TOKEN_SCALE;

        let (idx, tokens0, last0): (usize, u64, u64) = match self.find_bucket(key) {
            Some(i) => (i, self.buckets[i].tokens_scaled, self.buckets[i].last_refill_ms),
            None => {
                self.buckets.push(
                    BucketEntry {
                        key: key.clone(),
                        tokens_scaled: capacity_scaled,
                        last_refill_ms: now_ms,
                    },
                );
                (self.buckets.len() - 1, capacity_scaled, now_ms)
            },
        };

        let elapsed: u64 = if now_ms > last0 {
            now_ms - last0
        } else {
            0
        };

        let pm: u64 = self.per_minute as u64;
        proof {
            assert((elapsed as u128) * (pm as u128) <= (u64::MAX as u128) * (u32::MAX as u128))
                by (nonlinear_arith)
                requires
                    elapsed <= u64::MAX,
                    pm <= u32::MAX,
            ;
        }
        let grown: u128 = (tokens0 as u128) + (elapsed as u128) * (pm as u128);
        let restored_tokens: u64 = if grown > capacity_scaled as u128 {
            capacity_scaled
        } else {
            grown as u64
        };

        let allowed = restored_tokens >= TOKEN_SCALE;
        let tokens_after: u64 = if allowed {
            restored_tokens - TOKEN_SCALE
        } else {
            restored_tokens
        };
        let last_after: u64 = if elapsed > 0 {
            now_ms
        } else {
            last0
        };

        self.buckets.set(
            idx,
            BucketEntry { key: key.clone(), tokens_scaled: tokens_after, last_refill_ms: last_after },
        );

        let remaining: u32 = (tokens_after / TOKEN_SCALE) as u32;
        let per_sec_scaled: u64 = pm * 1000;
        let reset_seconds: u64 = if tokens_after >= TOKEN_SCALE {
            0
        } else {
            (TOKEN_SCALE - tokens_after + per_sec_scaled - 1) / per_sec_scaled
        };
        proof {
            if tokens_after < TOKEN_SCALE {
                assert((TOKEN_SCALE - tokens_after + per_sec_scaled - 1) as int
                    / (per_sec_scaled as int) >= 1) by (nonlinear_arith)
                    requires
                        per_sec_scaled >= 1000,
                        tokens_after < TOKEN_SCALE,
                        TOKEN_SCALE == 60000,
                ;
            }
        }

        proof {
            assert(self.buckets[idx as int].key@ == key@);
            assert(forall|i: int|
                0 <= i < self.buckets.len() && (#[trigger] self.buckets[i].key@) == key@ ==> i
                    == idx);
            let prior = *old(self);
            if exists|i: int|
                0 <= i < prior.buckets.len() && (#[trigger] prior.buckets[i].key@) == key@ {
                let oi = choose|i: int|
                    0 <= i < prior.buckets.len() && (#[trigger] prior.buckets[i].key@) == key@;
                assert(prior.buckets[oi].key@ == key@);
                assert(0 <= idx < prior.buckets.len() && prior.buckets[idx as int].key@ == key@);
                assert(oi == idx as int);
                assert(prior.spec_tokens_of(key@) == Some(tokens0 as int));
                assert(prior.spec_last_refill_of(key@) == Some(last0 as int));
                assert(prior.buckets[oi].tokens_scaled <= prior.spec_capacity_scaled());
                assert(capacity_scaled == prior.spec_capacity_scaled());
                if now_ms <= last0 {
                    assert(elapsed == 0);
                    assert((elapsed as u128) * (pm as u128) == 0) by (nonlinear_arith)
                        requires
                            elapsed == 0,
                    ;
                    assert(grown == tokens0 as u128);
                    assert(restored_tokens == tokens0);
                    assert(tokens_after <= tokens0);
                }
            }
            assert(self.spec_tokens_of(key@) == Some(tokens_after as int));
            assert(spec_no_rise_without_refill(prior, *self, key@, now_ms));
            assert((elapsed as u128) * (pm as u128) == (elapsed as int) * (pm as int))
                by (nonlinear_arith)
                requires
                    elapsed >= 0,
                    pm >= 0,
            ;
            assert(prior.spec_pre_level(key@, now_ms) == restored_tokens as int);
        }

        RateLimitDecision {
            allowed,
            headers: RateLimitHeaders { limit: self.per_minute, remaining, reset_seconds },
        }
    }
}

/// Holds when a check without elapsed time did not raise the token level.
pub open spec fn spec_no_rise_without_refill(
    before: RateLimiter,
    after: RateLimiter,
    key: Seq<char>,
    now_ms: u64,
) -> bool {
    match (before.spec_tokens_of(key), after.spec_tokens_of(key), before.spec_last_refill_of(key)) {
        (Some(t0), Some(t1), Some(last)) => now_ms <= last ==> t1 <= t0,
        _ => true,
    }
}

/// Bucket levels always lie between zero and the configured capacity.
pub proof fn lemma_bucket_levels_bounded(r: RateLimiter)
    requires
        r.wf(),
    ensures
        forall|k: Seq<char>|
            (#[trigger] r.spec_tokens_of(k)) is Some ==> 0 <= r.spec_tokens_of(k).unwrap()
                <= r.spec_capacity_scaled(),
{
}

} // verus!
