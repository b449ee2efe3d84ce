//! Paces the worker loop to a target tick rate.
//!
//! The limiter itself is pure bookkeeping over a millisecond clock that the
//! caller reads: `tick` computes how long the caller must sleep so that at
//! least one period lies between consecutive tick returns, and it re-arms
//! from the moment the tick returns, so a slow iteration is never caught up
//! by shortening later waits.

use vstd::arithmetic::div_mod::*;
use vstd::arithmetic::mul::*;
use vstd::prelude::*;

verus! {

/// Milliseconds of one pacing period at `rate` thousandths of a tick per
/// second: the ceiling of `1_000_000 / rate`, so the period is never shorter
/// than the exact target.
pub open spec fn spec_period_ms(rate: int) -> int {
    (1_000_000 + rate - 1) / rate
}

/// A period covers the exact target: `period * rate >= 1_000_000`.
pub proof fn lemma_period_covers_rate(rate: int)
    requires
        1 <= rate,
    ensures
        spec_period_ms(rate) * rate >= 1_000_000,
        1 <= spec_period_ms(rate) <= 1_000_000,
{
    let a = 1_000_000 + rate - 1;
    let q = a / rate;
    lemma_fundamental_div_mod(a, rate);
    lemma_mod_bound(a, rate);
    assert(q * rate == rate * q) by (nonlinear_arith);
    // upper bound: a <= 1_000_000 * rate, so q <= 1_000_000
    assert(a <= 1_000_000 * rate) by (nonlinear_arith)
        requires
            1 <= rate,
            a == 1_000_000 + rate - 1,
    ;
    lemma_div_is_ordered(a, 1_000_000 * rate, rate);
    lemma_div_multiples_vanish(1_000_000, rate);
    // lower bound: a >= rate, so q >= 1
    lemma_div_is_ordered(rate, a, rate);
    lemma_div_by_self(rate);
}

/// Paces a loop to `tick_rate` thousandths of a tick per second over a
/// millisecond clock supplied by the caller.
pub struct FramerateLimiter {
    /// The moment the previous tick returned.
    pub previous_tick: u64,
    /// Target rate, in thousandths of a tick per second; never zero.
    pub tick_rate: u32,
}

impl FramerateLimiter {
    /// The limiter's rate is usable.
    pub open spec fn well_formed(&self) -> bool {
        1 <= self.tick_rate
    }

    /// The recorded moment the previous tick returned.
    pub open spec fn spec_previous_tick(&self) -> u64 {
        self.previous_tick
    }

    /// This limiter's period in milliseconds.
    pub open spec fn spec_period(&self) -> int {
        spec_period_ms(self.tick_rate as int)
    }

    /// A limiter that paces to `tick_rate`, as if its last tick returned at
    /// `now_ms`.
    pub fn new(tick_rate: u32, now_ms: u64) -> (r: FramerateLimiter)
        requires
            1 <= tick_rate,
        ensures
            r.well_formed(),
            r.tick_rate == tick_rate,
            r.spec_previous_tick() == now_ms,
    {
        FramerateLimiter { previous_tick: now_ms, tick_rate }
    }

    /// This limiter's period in milliseconds.
    pub fn period_ms(&self) -> (r: u64)
        requires
            self.well_formed(),
        ensures
            r == self.spec_period(),
            1 <= r <= 1_000_000,
    {
        proof {
            lemma_period_covers_rate(self.tick_rate as int);
        }
        (1_000_000u64 + (self.tick_rate as u64) - 1) / (self.tick_rate as u64)
    }

    /// One pacing step.  Reading the clock at `now_ms`, the caller must
    /// sleep `wait_ms` so that this tick returns no earlier than one period
    /// after the previous tick returned; the limiter then records `now_ms +
    /// wait_ms` as the moment this tick returned.  The wait is never
    /// negative and never longer than one period, and a tick that arrives
    /// late is never compensated by shortening later waits.
    pub fn tick(&mut self, now_ms: u64) -> (wait_ms: u64)
        requires
            old(self).well_formed(),
            now_ms + 1_000_000 <= u64::MAX,
        ensures
            final(self).well_formed(),
            final(self).tick_rate == old(self).tick_rate,
            0 <= wait_ms <= old(self).spec_period(),
            final(self).spec_previous_tick() == now_ms + wait_ms,
            old(self).spec_previous_tick() <= now_ms ==> ({
                let target = old(self).spec_previous_tick() + old(self).spec_period();
                if now_ms >= target {
                    wait_ms == 0
                } else {
                    now_ms + wait_ms == target
                }
            }),
            now_ms < old(self).spec_previous_tick() ==> wait_ms == old(self).spec_period(),
    {
        let period = self.period_ms();
        let elapsed: u64 = if now_ms >= self.previous_tick {
            now_ms - self.previous_tick
        } else {
            0
        };
        let wait: u64 = if period > elapsed {
            period - elapsed
        } else {
            0
        };
        self.previous_tick = now_ms + wait;
        wait
    }
}

/// Pacing law: across `n` consecutive tick returns, each at least one period
/// after the one before — which `tick` guarantees whenever the clock is
/// monotone — the total elapsed time covers `n - 1` exact periods of the
/// target rate: `elapsed_ms * rate >= (n - 1) * 1_000_000`.  Waits are never
/// shortened to catch up after a slow iteration.
pub proof fn lemma_paced_ticks(times: Seq<int>, rate: int, n: int)
    requires
        1 <= rate,
        1 <= n <= times.len(),
        forall|i: int|
            1 <= i < times.len() ==> #[trigger] times[i] >= times[i - 1] + spec_period_ms(rate),
    ensures
        (times[n - 1] - times[0]) * rate >= (n - 1) * 1_000_000,
    decreases n,
{
    let period = spec_period_ms(rate);
    lemma_period_covers_rate(rate);
    if n == 1 {
        assert((times[0] - times[0]) * rate == 0) by (nonlinear_arith);
    } else {
        lemma_paced_ticks(times, rate, n - 1);
        assert(times[n - 1] >= times[n - 2] + period);
        let prev_span = times[n - 2] - times[0];
        let span = times[n - 1] - times[0];
        assert(span >= prev_span + period);
        lemma_mul_inequality(prev_span + period, span, rate);
        lemma_mul_is_distributive_add_other_way(rate, prev_span, period);
        assert((n - 2) * 1_000_000 + 1_000_000 == (n - 1) * 1_000_000) by (nonlinear_arith);
    }
}

} // verus!
