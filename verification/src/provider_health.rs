//! Per-provider request accounting: a token-bucket rate limiter and a
//! circuit breaker fed by success and error counts.

use vstd::prelude::*;
use std::time::Instant;

verus! {

/// Consecutive errors that open the circuit.
pub const CIRCUIT_BREAKER_THRESHOLD: u32 = 5;
/// Seconds after which an open circuit lets requests through again.
pub const CIRCUIT_BREAKER_RESET_SECS: u64 = 30;
/// Requests per minute allowed when a provider sets no limit of its own.
pub const DEFAULT_MAX_RPM: u32 = 60;

#[verifier::external_type_specification]
#[verifier::external_body]
pub struct ExInstant(Instant);

/// `chrono::Utc::now().timestamp_millis()`: the wall clock, in
/// milliseconds since the Unix epoch. Nothing is stated of its value.
#[verifier::external_body]
fn clock_millis() -> (now: i64) {
    chrono::Utc::now().timestamp_millis()
}

/// `chrono::Utc::now().timestamp()`: the wall clock, in seconds since the
/// Unix epoch. Nothing is stated of its value.
#[verifier::external_body]
pub(crate) fn clock_secs() -> (now: i64) {
    chrono::Utc::now().timestamp()
}

/// `std::time::Instant::now`. Nothing is stated of the instant.
#[verifier::external_body]
pub(crate) fn instant_now() -> (now: Instant) {
    Instant::now()
}

/// `Instant::elapsed`, in nanoseconds: the time passed since `t`. It
/// depends on the clock; nothing is stated.
#[verifier::external_body]
pub(crate) fn elapsed_nanos(t: &Instant) -> (ns: u128) {
    t.elapsed().as_nanos()
}

/// A token bucket: up to `max_tokens` requests, refilled by one token every
/// `refill_interval_ms` milliseconds. A bucket of size 0 never limits.
pub struct TokenBucket {
    tokens: u32,
    max_tokens: u32,
    last_refill: i64,
    refill_interval_ms: u64,
}

/// The plain state of a bucket: tokens left, size, last refill time and
/// refill interval.
pub struct BucketState {
    pub tokens: u32,
    pub max_tokens: u32,
    pub last_refill: i64,
    pub refill_interval_ms: u64,
}

/// The bucket after a refill at time `now`: when at least one interval has
/// passed, the whole intervals elapsed are added (as a `u32`, cut to its low
/// 32 bits) up to the size, and the refill time becomes `now`.
pub open spec fn refill_spec(b: BucketState, now: i64) -> BucketState {
    let elapsed = now - b.last_refill;
    if elapsed < b.refill_interval_ms {
        b
    } else {
        let add = ((elapsed / (b.refill_interval_ms as int)) % 0x1_0000_0000) as u32;
        if add == 0 {
            b
        } else {
            BucketState {
                tokens: if b.tokens + add < b.max_tokens { (b.tokens + add) as u32 } else { b.max_tokens },
                last_refill: now,
                ..b
            }
        }
    }
}

/// The bucket after one request at time `now`, and whether it may go ahead.
pub open spec fn acquire_spec(b: BucketState, now: i64) -> (BucketState, bool) {
    if b.max_tokens == 0 {
        (b, true)
    } else {
        let r = refill_spec(b, now);
        if r.tokens == 0 {
            (r, false)
        } else {
            (BucketState { tokens: (r.tokens - 1) as u32, ..r }, true)
        }
    }
}

impl TokenBucket {
    /// The bucket's plain state.
    pub closed spec fn state(&self) -> BucketState {
        BucketState {
            tokens: self.tokens,
            max_tokens: self.max_tokens,
            last_refill: self.last_refill,
            refill_interval_ms: self.refill_interval_ms,
        }
    }

    /// A bucket that refills: its size is zero (no limit) or its interval is
    /// at least one millisecond.
    pub open spec fn wf(&self) -> bool {
        self.state().max_tokens == 0 || self.state().refill_interval_ms > 0
    }

    /// A full bucket for `max_rpm` requests per minute, last refilled at
    /// time `now` (milliseconds).
    pub fn new_at(max_rpm: u32, now: i64) -> (b: Self)
        ensures
            b.state() == (BucketState {
                tokens: max_rpm,
                max_tokens: max_rpm,
                last_refill: now,
                refill_interval_ms: if max_rpm > 0 { (60_000int / (max_rpm as int)) as u64 } else { 0 },
            }),
    {
        let refill_interval_ms = if max_rpm > 0 { 60_000 / max_rpm as u64 } else { 0 };
        TokenBucket { tokens: max_rpm, max_tokens: max_rpm, last_refill: now, refill_interval_ms }
    }

    /// A full bucket for `max_rpm` requests per minute, last refilled now.
    pub fn new(max_rpm: u32) -> (b: Self)
        ensures
            b.state().tokens == max_rpm,
            b.state().max_tokens == max_rpm,
            b.state().refill_interval_ms == if max_rpm > 0 { (60_000int / (max_rpm as int)) as u64 } else { 0 },
    {
        Self::new_at(max_rpm, clock_millis())
    }

    /// Takes a token for a request made at time `now`, refilling first;
    /// false when none is left.
    pub fn try_acquire_at(&mut self, now: i64) -> (allowed: bool)
        requires
            old(self).wf(),
        ensures
            (final(self).state(), allowed) == acquire_spec(old(self).state(), now),
    {
        if self.max_tokens == 0 {
            return true;
        }
        self.refill_at(now);
        if self.tokens == 0 {
            return false;
        }
        self.tokens = self.tokens - 1;
        true
    }

    /// Takes a token for a request made now, refilling first; false when
    /// none is left. What the clock reads is not known here: the outcome is
    /// the one of `try_acquire_at` for some reading.
    pub fn try_acquire(&mut self) -> (allowed: bool)
        requires
            old(self).wf(),
        ensures
            exists|now: i64| (final(self).state(), allowed) == #[trigger] acquire_spec(old(self).state(), now),
    {
        if self.max_tokens == 0 {
            assert((self.state(), true) == acquire_spec(self.state(), 0i64));
            return true;
        }
        let now = clock_millis();
        self.try_acquire_at(now)
    }

    /// Adds the tokens earned since the last refill, as of time `now`.
    fn refill_at(&mut self, now: i64)
        requires
            old(self).wf(),
            old(self).state().max_tokens > 0,
        ensures
            final(self).state() == refill_spec(old(self).state(), now),
    {
        let elapsed: i128 = now as i128 - self.last_refill as i128;
        if elapsed < self.refill_interval_ms as i128 {
            return;
        }
        let add: u32 = ((elapsed as u128 / self.refill_interval_ms as u128) % 0x1_0000_0000) as u32;
        proof {
            let e = elapsed as int;
            let d = self.refill_interval_ms as int;
            assert(e >= 0 && d > 0);
            assert((elapsed as u128 / self.refill_interval_ms as u128) as int == e / d);
        }
        if add == 0 {
            return;
        }
        self.last_refill = now;
        let sum: u64 = self.tokens as u64 + add as u64;
        self.tokens = if sum < self.max_tokens as u64 { sum as u32 } else { self.max_tokens };
    }
}

/// Success and error counts of one provider, with its circuit breaker.
pub struct ProviderMetrics {
    total_requests: u64,
    total_errors: u64,
    consecutive_errors: u32,
    avg_latency_fixed: u64,
    circuit_open: bool,
    opened_at: Option<Instant>,
}

/// Largest latency, in thousandths of a millisecond, that the moving
/// average takes without overflow.
pub open spec fn max_latency_fixed() -> u64 {
    (u64::MAX / 1000) as u64
}

/// The moving average after a request that took `latency_fixed`
/// thousandths of a millisecond: 3% of the new value, 97% of the old.
pub open spec fn next_average(current: u64, latency_fixed: u64) -> u64 {
    ((30 * latency_fixed + 970 * current) / 1000) as u64
}

/// The breaker after an error: one more in the streak (counted modulo
/// 2^32), and the circuit opens when the streak reaches the threshold.
pub open spec fn breaker_after_error(consecutive: u32, open: bool) -> (u32, bool) {
    (consecutive.wrapping_add(1), open || consecutive + 1 >= CIRCUIT_BREAKER_THRESHOLD)
}

/// Whether a provider takes requests: with an open circuit only once the
/// reset window has passed, else while the error streak is below the
/// threshold.
pub open spec fn breaker_healthy(consecutive: u32, open: bool, reset_window_passed: bool) -> bool {
    if open { reset_window_passed } else { consecutive < CIRCUIT_BREAKER_THRESHOLD }
}

impl ProviderMetrics {
    /// Requests recorded (counted modulo 2^64).
    pub closed spec fn requests(&self) -> u64 {
        self.total_requests
    }

    /// Errors recorded (counted modulo 2^64).
    pub closed spec fn errors(&self) -> u64 {
        self.total_errors
    }

    /// Errors since the last success (counted modulo 2^32).
    pub closed spec fn consecutive(&self) -> u32 {
        self.consecutive_errors
    }

    /// Moving average latency, in thousandths of a millisecond.
    pub closed spec fn average(&self) -> u64 {
        self.avg_latency_fixed
    }

    /// Whether the circuit is open.
    pub closed spec fn open(&self) -> bool {
        self.circuit_open
    }

    /// Whether the circuit has an opening time (it has one exactly when open).
    pub closed spec fn has_opening_time(&self) -> bool {
        self.opened_at is Some
    }

    /// The average stays in the range where the next update cannot overflow.
    pub open spec fn wf(&self) -> bool {
        &&& self.average() <= max_latency_fixed()
        &&& self.open() == self.has_opening_time()
    }

    /// Fresh counters, closed circuit.
    pub fn new() -> (m: Self)
        ensures
            m.wf(),
            m.requests() == 0,
            m.errors() == 0,
            m.consecutive() == 0,
            m.average() == 0,
            !m.open(),
    {
        ProviderMetrics {
            total_requests: 0,
            total_errors: 0,
            consecutive_errors: 0,
            avg_latency_fixed: 0,
            circuit_open: false,
            opened_at: None,
        }
    }

    /// Records a success that took `latency_fixed` thousandths of a
    /// millisecond: the error streak ends and the circuit closes.
    pub fn record_success(&mut self, latency_fixed: u64)
        requires
            old(self).wf(),
            latency_fixed <= max_latency_fixed(),
        ensures
            final(self).wf(),
            final(self).requests() == old(self).requests().wrapping_add(1),
            final(self).errors() == old(self).errors(),
            final(self).consecutive() == 0,
            final(self).average() == next_average(old(self).average(), latency_fixed),
            !final(self).open(),
    {
        self.total_requests = self.total_requests.wrapping_add(1);
        self.consecutive_errors = 0;
        proof {
            assert(30 * latency_fixed + 970 * self.avg_latency_fixed <= 1000 * max_latency_fixed()) by (nonlinear_arith)
                requires
                    latency_fixed <= max_latency_fixed(),
                    self.avg_latency_fixed <= max_latency_fixed(),
            {
            }
            assert((30 * latency_fixed + 970 * self.avg_latency_fixed) / 1000 <= max_latency_fixed()) by (nonlinear_arith)
                requires
                    30 * latency_fixed + 970 * self.avg_latency_fixed <= 1000 * max_latency_fixed(),
            {
            }
        }
        self.avg_latency_fixed = (30 * latency_fixed + 970 * self.avg_latency_fixed) / 1000;
        if self.circuit_open {
            self.circuit_open = false;
            self.opened_at = None;
        }
    }

    /// Records an error: the circuit opens, from now, once the streak
    /// reaches the threshold.
    pub fn record_error(&mut self)
        requires
            old(self).wf(),
        ensures
            final(self).wf(),
            final(self).requests() == old(self).requests().wrapping_add(1),
            final(self).errors() == old(self).errors().wrapping_add(1),
            (final(self).consecutive(), final(self).open()) == breaker_after_error(old(self).consecutive(), old(self).open()),
            final(self).average() == old(self).average(),
    {
        self.total_requests = self.total_requests.wrapping_add(1);
        self.total_errors = self.total_errors.wrapping_add(1);
        let consecutive: u64 = self.consecutive_errors as u64 + 1;
        self.consecutive_errors = self.consecutive_errors.wrapping_add(1);
        if consecutive >= CIRCUIT_BREAKER_THRESHOLD as u64 {
            if !self.circuit_open {
                self.circuit_open = true;
                self.opened_at = Some(instant_now());
            }
        }
    }

    /// Health once it is known whether the reset window has passed since the
    /// circuit opened: an open circuit is healthy only after the window; a
    /// closed one while the error streak is under the threshold.
    pub fn is_healthy_given(&self, reset_window_passed: bool) -> (healthy: bool)
        requires
            self.wf(),
        ensures
            healthy == breaker_healthy(self.consecutive(), self.open(), reset_window_passed),
    {
        if self.circuit_open {
            return reset_window_passed;
        }
        self.consecutive_errors < CIRCUIT_BREAKER_THRESHOLD
    }

    /// Whether the provider may take requests now. For an open circuit the
    /// answer rests on the clock.
    pub fn is_healthy(&self) -> (healthy: bool)
        requires
            self.wf(),
        ensures
            !self.open() ==> healthy == (self.consecutive() < CIRCUIT_BREAKER_THRESHOLD),
    {
        let passed = match &self.opened_at {
            Some(t) => elapsed_nanos(t) > CIRCUIT_BREAKER_RESET_SECS as u128 * 1_000_000_000,
            None => false,
        };
        self.is_healthy_given(passed)
    }

    /// Requests recorded.
    pub fn total_requests(&self) -> (n: u64)
        ensures
            n == self.requests(),
    {
        self.total_requests
    }

    /// Errors recorded.
    pub fn total_errors(&self) -> (n: u64)
        ensures
            n == self.errors(),
    {
        self.total_errors
    }

    /// Errors since the last success.
    pub fn consecutive_errors(&self) -> (n: u32)
        ensures
            n == self.consecutive(),
    {
        self.consecutive_errors
    }

    /// Whether the circuit is open.
    pub fn circuit_open(&self) -> (b: bool)
        ensures
            b == self.open(),
    {
        self.circuit_open
    }

    /// Moving average latency, in thousandths of a millisecond.
    pub fn avg_latency_fixed(&self) -> (n: u64)
        ensures
            n == self.average(),
    {
        self.avg_latency_fixed
    }
}

} // verus!
