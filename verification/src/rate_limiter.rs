//! Token bucket rate limiter for per-client message throttling.
//!
//! Each client gets its own bucket, allowing bursts up to the configured
//! capacity while enforcing a long-term rate limit: tokens are consumed on
//! each request and refill with the time that passes.

use vstd::prelude::*;

verus! {

/// A refill rate, in thousandths of a token per second (so `10_000` is ten
/// tokens a second).
#[derive(Debug, Clone, Copy, PartialEq, Eq, Structural)]
pub struct RefillRate {
    pub milli_tokens_per_second: u64,
}

impl RefillRate {
    /// A rate of a whole number of tokens per second.
    pub fn per_second(tokens: u32) -> (r: RefillRate)
        ensures
            r.milli_tokens_per_second == tokens * 1000,
    {
        RefillRate { milli_tokens_per_second: (tokens as u64) * 1000 }
    }
}

/// The number of whole tokens that `elapsed_ms` milliseconds earn at `rate`,
/// capped at `u32::MAX`.
pub open spec fn refill_amount(rate: RefillRate, elapsed_ms: nat) -> nat {
    let earned = elapsed_ms * (rate.milli_tokens_per_second as nat) / 1_000_000;
    if earned > u32::MAX {
        u32::MAX as nat
    } else {
        earned
    }
}

/// The abstract state of a bucket.
pub struct BucketState {
    pub tokens: nat,
    pub last_refill_ms: nat,
    pub rate: RefillRate,
    pub burst: nat,
}

/// The state after refilling at time `now`: nothing happens unless time has
/// passed and it earned at least one token; then the refill time moves to
/// `now` and the earned tokens are added, up to `burst`.
pub open spec fn refilled(s: BucketState, now: nat) -> BucketState {
    let elapsed = if now > s.last_refill_ms {
        (now - s.last_refill_ms) as nat
    } else {
        0
    };
    let earned = refill_amount(s.rate, elapsed);
    if elapsed == 0 || earned == 0 {
        s
    } else {
        let sum = s.tokens + earned;
        BucketState {
            tokens: if sum > s.burst {
                s.burst
            } else {
                sum
            },
            last_refill_ms: now,
            ..s
        }
    }
}

/// Whether a request at time `now` is allowed.
pub open spec fn acquires(s: BucketState, now: nat) -> bool {
    refilled(s, now).tokens > 0
}

/// The state after a request at time `now`.
pub open spec fn after_acquire(s: BucketState, now: nat) -> BucketState {
    let r = refilled(s, now);
    if r.tokens > 0 {
        BucketState { tokens: (r.tokens - 1) as nat, ..r }
    } else {
        r
    }
}

/// The truncation of a `usize` burst to the bucket's `u32` counter.
pub open spec fn burst_u32(burst: usize) -> nat {
    (burst as nat) % 0x1_0000_0000
}

/// A token bucket.  Its tokens never exceed its burst capacity.
pub struct TokenBucket {
    tokens: u32,
    last_refill_ms: u64,
    rate: RefillRate,
    burst: u32,
}

impl View for TokenBucket {
    type V = BucketState;

    closed spec fn view(&self) -> BucketState {
        BucketState {
            tokens: self.tokens as nat,
            last_refill_ms: self.last_refill_ms as nat,
            rate: self.rate,
            burst: self.burst as nat,
        }
    }
}

/// Milliseconds since the Unix epoch, from `SystemTime::elapsed` on
/// `UNIX_EPOCH` (the machine's clock now, less the epoch); a clock set before
/// the epoch reads as `0`.  Nothing is stated of the value: it is the
/// machine's clock.
#[verifier::external_body]
fn clock_ms() -> u64 {
    match std::time::UNIX_EPOCH.elapsed() {
        Ok(d) => d.as_millis() as u64,
        Err(_) => 0,
    }
}

impl TokenBucket {
    #[verifier::type_invariant]
    spec fn tokens_within_burst(self) -> bool {
        self.tokens <= self.burst
    }

    /// Creates a bucket, full, whose refill clock starts at `now_ms`.
    pub fn new_at(rate: RefillRate, burst: usize, now_ms: u64) -> (b: TokenBucket)
        ensures
            b@ == (BucketState {
                tokens: burst_u32(burst),
                last_refill_ms: now_ms as nat,
                rate,
                burst: burst_u32(burst),
            }),
    {
        let burst32 = (burst as u64 % 0x1_0000_0000) as u32;
        TokenBucket { tokens: burst32, last_refill_ms: now_ms, rate, burst: burst32 }
    }

    /// Creates a bucket, full, whose refill clock starts now.
    ///
    /// * `rate` - token refill rate
    /// * `burst` - maximum tokens (initial and cap)
    pub fn new(rate: RefillRate, burst: usize) -> (b: TokenBucket)
        ensures
            b@.tokens == burst_u32(burst),
            b@.burst == burst_u32(burst),
            b@.rate == rate,
    {
        let now = clock_ms();
        Self::new_at(rate, burst, now)
    }

    fn earned(&self, elapsed_ms: u64) -> (n: u32)
        ensures
            n == refill_amount(self.rate, elapsed_ms as nat),
    {
        let a = elapsed_ms as u128;
        let r = self.rate.milli_tokens_per_second as u128;
        assert(a * r <= u64::MAX * u64::MAX) by (nonlinear_arith)
            requires
                a <= u64::MAX,
                r <= u64::MAX,
        ;
        let earned: u128 = a * r / 1_000_000;
        if earned > u32::MAX as u128 {
            u32::MAX
        } else {
            earned as u32
        }
    }

    /// Refills the tokens that the time since the last refill has earned.
    fn refill_at(&mut self, now_ms: u64)
        ensures
            final(self)@ == refilled(old(self)@, now_ms as nat),
    {
        proof {
            use_type_invariant(&*self);
        }
        let elapsed_ms = now_ms.saturating_sub(self.last_refill_ms);
        if elapsed_ms == 0 {
            return;
        }
        let refill = self.earned(elapsed_ms);
        if refill == 0 {
            return;
        }
        let sum = self.tokens.saturating_add(refill);
        let new_tokens = if sum > self.burst {
            self.burst
        } else {
            sum
        };
        assert(sum == self.tokens + refill || (sum == u32::MAX && self.tokens + refill
            > u32::MAX));
        self.last_refill_ms = now_ms;
        self.tokens = new_tokens;
    }

    /// Attempts to take a token at time `now_ms`, after refilling the tokens
    /// earned since the last refill: `true` when a token was taken (the
    /// request is allowed), `false` when none was left.
    pub fn try_acquire_at(&mut self, now_ms: u64) -> (ok: bool)
        ensures
            ok == acquires(old(self)@, now_ms as nat),
            final(self)@ == after_acquire(old(self)@, now_ms as nat),
            old(self)@.tokens <= old(self)@.burst,
            final(self)@.tokens <= final(self)@.burst,
    {
        proof {
            use_type_invariant(&*self);
        }
        self.refill_at(now_ms);
        proof {
            use_type_invariant(&*self);
        }
        if self.tokens == 0 {
            false
        } else {
            self.tokens = self.tokens - 1;
            true
        }
    }

    /// Attempts to take a token now (see [`TokenBucket::try_acquire_at`]).
    pub fn try_acquire(&mut self) -> (ok: bool)
        ensures
            exists|now: nat|
                ok == acquires(old(self)@, now) && final(self)@ == after_acquire(old(self)@, now),
    {
        let now = clock_ms();
        self.try_acquire_at(now)
    }
}

// ---------------------------------------------------------------------------
/// The state after `k` requests at time `now`, and how many were allowed.
pub open spec fn acquire_times(s: BucketState, now: nat, k: nat) -> (BucketState, nat)
    decreases k,
{
    if k == 0 {
        (s, 0)
    } else {
        let (t, n) = acquire_times(s, now, (k - 1) as nat);
        (after_acquire(t, now), if acquires(t, now) {
            n + 1
        } else {
            n
        })
    }
}

proof fn lemma_refilled_at_last_refill(s: BucketState)
    ensures
        refilled(s, s.last_refill_ms) == s,
{
}

proof fn lemma_burst_at_one_instant(s: BucketState, k: nat)
    requires
        s.tokens <= s.burst,
    ensures
        acquire_times(s, s.last_refill_ms, k).0.last_refill_ms == s.last_refill_ms,
        acquire_times(s, s.last_refill_ms, k).0.rate == s.rate,
        acquire_times(s, s.last_refill_ms, k).0.burst == s.burst,
        acquire_times(s, s.last_refill_ms, k).0.tokens == if k <= s.tokens {
            (s.tokens - k) as nat
        } else {
            0
        },
        acquire_times(s, s.last_refill_ms, k).1 == if k <= s.tokens {
            k
        } else {
            s.tokens
        },
    decreases k,
{
    if k > 0 {
        lemma_burst_at_one_instant(s, (k - 1) as nat);
        let t = acquire_times(s, s.last_refill_ms, (k - 1) as nat).0;
        lemma_refilled_at_last_refill(t);
    }
}

/// Burst law: a bucket holding `t` tokens allows exactly `t` of any `k`
/// requests made at the instant of its last refill, and then is empty; a
/// bucket that was just created allows exactly its burst capacity.
pub proof fn law_burst_allows_exactly_the_tokens(s: BucketState, k: nat)
    requires
        s.tokens <= s.burst,
    ensures
        acquire_times(s, s.last_refill_ms, k).1 == if k <= s.tokens {
            k
        } else {
            s.tokens
        },
        k >= s.tokens ==> acquire_times(s, s.last_refill_ms, k).0.tokens == 0,
{
    lemma_burst_at_one_instant(s, k);
}

/// Cap law: refilling never takes the tokens above the burst capacity, and
/// a request never does either.
pub proof fn law_tokens_never_exceed_burst(s: BucketState, now: nat)
    requires
        s.tokens <= s.burst,
    ensures
        refilled(s, now).tokens <= s.burst,
        after_acquire(s, now).tokens <= s.burst,
        refilled(s, now).burst == s.burst,
        after_acquire(s, now).burst == s.burst,
{
}

/// Refill law: once time has earned at least one token since the last
/// refill, a bucket with a non-zero capacity allows the next request, even if
/// it was empty.
pub proof fn law_refill_allows_after_waiting(s: BucketState, now: nat)
    requires
        s.burst >= 1,
        now > s.last_refill_ms,
        refill_amount(s.rate, (now - s.last_refill_ms) as nat) >= 1,
    ensures
        acquires(s, now),
{
}

/// Refill law: refilling adds what the elapsed time earned to the tokens
/// left, up to the burst capacity, and restarts the refill clock; it never
/// loses a token.  Time that earns nothing leaves the bucket as it was.
pub proof fn law_refill_adds_earned_tokens(s: BucketState, now: nat)
    requires
        s.tokens <= s.burst,
    ensures
        refilled(s, now).tokens >= s.tokens,
        refilled(s, now).burst == s.burst,
        refilled(s, now).rate == s.rate,
        now > s.last_refill_ms && refill_amount(s.rate, (now - s.last_refill_ms) as nat) >= 1 ==> {
            let e = refill_amount(s.rate, (now - s.last_refill_ms) as nat);
            &&& refilled(s, now).tokens == if s.tokens + e <= s.burst {
                s.tokens + e
            } else {
                s.burst
            }
            &&& refilled(s, now).last_refill_ms == now
        },
        !(now > s.last_refill_ms && refill_amount(s.rate, (now - s.last_refill_ms) as nat) >= 1)
            ==> refilled(s, now) == s,
{
}

/// A request at `now` is allowed exactly when the tokens left plus those the
/// elapsed time earned (capped at the burst) are at least one, and it takes
/// exactly one of them.
pub proof fn law_request_takes_one_earned_or_left_token(s: BucketState, now: nat)
    requires
        s.tokens <= s.burst,
    ensures
        ({
            let e = if now > s.last_refill_ms {
                refill_amount(s.rate, (now - s.last_refill_ms) as nat)
            } else {
                0
            };
            let available = if s.tokens + e <= s.burst {
                s.tokens + e
            } else {
                s.burst
            };
            &&& acquires(s, now) <==> available >= 1
            &&& acquires(s, now) ==> after_acquire(s, now).tokens == available - 1
            &&& !acquires(s, now) ==> after_acquire(s, now).tokens == 0
        }),
{
}

} // verus!
