//! The token bucket that paces every outbound API call.
//!
//! Time is read off a monotonic clock in microseconds and tokens are kept
//! in millionths, so that a rate of `r` tokens per second refills `r`
//! millionths per microsecond and all arithmetic is exact.
use vstd::prelude::*;

verus! {

/// Millionths in one token, and microseconds in one second.
pub const MICROS: u64 = 1_000_000;

/// Default capacity and refill rate, in requests per second.
pub const DEFAULT_RATE: u32 = 40;

/// How long a caller that got no token waits before it asks again.
pub const BACKOFF_MILLIS: u64 = 50;

/// The answer to a request for one token.
#[derive(Clone, Copy, Debug, PartialEq, Eq, Structural)]
pub enum Acquire {
    /// One token was taken; the call may go out.
    Granted,
    /// The bucket holds less than one token; ask again after the delay.
    RetryAfter { millis: u64 },
}

/// Mathematical model of a token bucket.
pub ghost struct Bucket {
    /// Most tokens the bucket holds.
    pub capacity: nat,
    /// Tokens per second.
    pub rate: nat,
    /// Millionths of a token in the bucket.
    pub tokens: nat,
    /// Time of the latest refill, in microseconds.
    pub last: nat,
}

impl Bucket {
    /// The bucket never holds more than its capacity.
    pub open spec fn wf(self) -> bool {
        self.tokens <= self.capacity * MICROS
    }

    /// The bucket refilled at `now`: what `rate` gives for the time since
    /// the latest refill comes in, up to the capacity. A time before the
    /// latest refill changes nothing.
    pub open spec fn refilled(self, now: nat) -> Bucket {
        if now <= self.last {
            self
        } else {
            let filled = self.tokens + (now - self.last) * self.rate;
            Bucket {
                tokens: if filled <= self.capacity * MICROS {
                    filled as nat
                } else {
                    self.capacity * (MICROS as nat)
                },
                last: now,
                ..self
            }
        }
    }

    /// Whether a request at `now` gets a token.
    pub open spec fn grants(self, now: nat) -> bool {
        self.refilled(now).tokens >= MICROS
    }

    /// The bucket after a request at `now`.
    pub open spec fn after_request(self, now: nat) -> Bucket {
        let r = self.refilled(now);
        if r.tokens >= MICROS {
            Bucket { tokens: (r.tokens - MICROS) as nat, ..r }
        } else {
            r
        }
    }

    /// The bucket after requests at the given times, one after the other.
    pub open spec fn after_requests(self, times: Seq<nat>) -> Bucket
        decreases times.len(),
    {
        if times.len() == 0 {
            self
        } else {
            self.after_request(times[0]).after_requests(times.drop_first())
        }
    }

    /// How many of the requests at the given times get a token.
    pub open spec fn granted(self, times: Seq<nat>) -> nat
        decreases times.len(),
    {
        if times.len() == 0 {
            0
        } else {
            (if self.grants(times[0]) {
                1nat
            } else {
                0nat
            }) + self.after_request(times[0]).granted(times.drop_first())
        }
    }
}

/// The token bucket.
#[derive(Debug)]
pub struct RateLimiter {
    capacity: u32,
    refill_rate: u32,
    tokens: u64,
    last_refill: u64,
}

impl View for RateLimiter {
    type V = Bucket;

    closed spec fn view(&self) -> Bucket {
        Bucket {
            capacity: self.capacity as nat,
            rate: self.refill_rate as nat,
            tokens: self.tokens as nat,
            last: self.last_refill as nat,
        }
    }
}

impl RateLimiter {
    /// The invariant of the limiter.
    #[verifier::type_invariant]
    closed spec fn inv(self) -> bool {
        self.tokens <= self.capacity * MICROS
    }

    /// A full bucket that holds `requests_per_second` tokens and refills at
    /// that rate, started at `now`.
    pub fn new(requests_per_second: u32, now: u64) -> (r: RateLimiter)
        ensures
            r@ == (Bucket {
                capacity: requests_per_second as nat,
                rate: requests_per_second as nat,
                tokens: requests_per_second as nat * (MICROS as nat),
                last: now as nat,
            }),
            r@.wf(),
    {
        assert(requests_per_second * MICROS <= u32::MAX * MICROS) by (nonlinear_arith)
            requires
                requests_per_second <= u32::MAX,
        ;
        RateLimiter {
            capacity: requests_per_second,
            refill_rate: requests_per_second,
            tokens: requests_per_second as u64 * MICROS,
            last_refill: now,
        }
    }

    /// Most tokens the bucket holds.
    pub fn capacity(&self) -> (r: u32)
        ensures
            r == self@.capacity,
    {
        self.capacity
    }

    /// Tokens per second that come in.
    pub fn refill_rate(&self) -> (r: u32)
        ensures
            r == self@.rate,
    {
        self.refill_rate
    }

    /// Whole tokens in the bucket as of the latest request.
    pub fn available(&self) -> (r: u64)
        ensures
            r == self@.tokens / (MICROS as nat),
    {
        self.tokens / MICROS
    }

    /// One request for a token at `now`, in microseconds of a monotonic
    /// clock: refills the bucket for the time that has passed, then takes
    /// one token if one is there.
    pub fn acquire(&mut self, now: u64) -> (r: Acquire)
        ensures
            final(self)@ == old(self)@.after_request(now as nat),
            final(self)@.wf(),
            old(self)@.wf(),
            old(self)@.grants(now as nat) ==> r == Acquire::Granted,
            !old(self)@.grants(now as nat) ==> r == (Acquire::RetryAfter {
                millis: BACKOFF_MILLIS,
            }),
    {
        proof {
            use_type_invariant(&*self);
        }
        let cap: u64 = self.capacity as u64 * MICROS;
        let mut tokens = self.tokens;
        let mut last = self.last_refill;
        if now > self.last_refill {
            let elapsed: u64 = now - self.last_refill;
            assert(elapsed * self.refill_rate <= u64::MAX * u32::MAX) by (nonlinear_arith)
                requires
                    elapsed <= u64::MAX,
                    self.refill_rate <= u32::MAX,
            ;
            let filled: u128 = self.tokens as u128 + elapsed as u128 * self.refill_rate as u128;
            tokens = if filled <= cap as u128 {
                filled as u64
            } else {
                cap
            };
            last = now;
        }
        if tokens >= MICROS {
            self.tokens = tokens - MICROS;
            self.last_refill = last;
            Acquire::Granted
        } else {
            self.tokens = tokens;
            self.last_refill = last;
            Acquire::RetryAfter { millis: BACKOFF_MILLIS }
        }
    }
}

/// Requests never move the latest refill back, nor past the latest of the
/// request times; and what they take, together with what is left, is at
/// most what was there and what came in since.
pub proof fn lemma_requests_are_paid(b: Bucket, times: Seq<nat>, end: nat)
    requires
        forall|k: int| 0 <= k < times.len() ==> #[trigger] times[k] <= end,
    ensures
        b.last <= b.after_requests(times).last,
        b.after_requests(times).last <= end || b.after_requests(times).last == b.last,
        b.granted(times) * MICROS + b.after_requests(times).tokens <= b.tokens + (
        b.after_requests(times).last - b.last) * b.rate,
        b.after_requests(times).rate == b.rate,
        b.after_requests(times).capacity == b.capacity,
    decreases times.len(),
{
    if times.len() > 0 {
        let b1 = b.after_request(times[0]);
        let rest = times.drop_first();
        assert forall|k: int| 0 <= k < rest.len() implies #[trigger] rest[k] <= end by {
            assert(rest[k] == times[k + 1]);
        }
        lemma_requests_are_paid(b1, rest, end);
        let bn = b1.after_requests(rest);
        assert(times[0] <= end);
        assert((bn.last - b1.last) * b.rate + (b1.last - b.last) * b.rate == (bn.last - b.last)
            * b.rate) by (nonlinear_arith);
    }
}

/// The bound of the token bucket: of the requests that fall into a window
/// of `window` microseconds, at most `capacity + rate * window` get a
/// token, counted here in millionths of a token per microsecond. This
/// holds of every window, the short ones too.
pub proof fn law_window_bound(b: Bucket, times: Seq<nat>, start: nat, window: nat)
    requires
        b.wf(),
        forall|k: int| 0 <= k < times.len() ==> start <= #[trigger] times[k] <= start + window,
    ensures
        b.granted(times) * MICROS <= b.capacity * MICROS + b.rate * window,
{
    if times.len() > 0 {
        let b1 = b.after_request(times[0]);
        let rest = times.drop_first();
        assert forall|k: int| 0 <= k < rest.len() implies #[trigger] rest[k] <= start
            + window by {
            assert(rest[k] == times[k + 1]);
        }
        lemma_requests_are_paid(b1, rest, start + window);
        let bn = b1.after_requests(rest);
        let g0 = if b.grants(times[0]) {
            1nat
        } else {
            0nat
        };
        assert(g0 * MICROS + b1.tokens <= b.capacity * MICROS);
        assert(start <= times[0]);
        assert(bn.last - b1.last <= window);
        assert((bn.last - b1.last) * b.rate <= b.rate * window) by (nonlinear_arith)
            requires
                0 <= bn.last - b1.last <= window,
        ;
        assert((g0 + b1.granted(rest)) * MICROS == g0 * MICROS + b1.granted(rest) * MICROS)
            by (nonlinear_arith);
    } else {
        assert(b.rate * window >= 0) by (nonlinear_arith);
    }
}

/// After an idle time that is long enough to fill the bucket, a burst of
/// `capacity` requests at one instant is granted in full.
pub proof fn law_full_bucket_grants(b: Bucket, now: nat)
    requires
        b.wf(),
        b.capacity >= 1,
        now > b.last,
        b.tokens + (now - b.last) * b.rate >= b.capacity * MICROS,
    ensures
        b.grants(now),
        b.after_request(now).tokens == (b.capacity - 1) * MICROS,
{
    assert(b.capacity * MICROS >= MICROS) by (nonlinear_arith)
        requires
            b.capacity >= 1,
    ;
    assert((b.capacity - 1) * MICROS == b.capacity * MICROS - MICROS) by (nonlinear_arith);
}

} // verus!
