//! Turning successive readings of a cumulative byte counter into a rate.

use vstd::prelude::*;

verus! {

/// The nanoseconds in one second. Every timestamp is a reading of a monotonic
/// clock in nanoseconds.
pub const NANOS_PER_SECOND: u64 = 1_000_000_000;

/// The bytes gained between two readings of a cumulative counter. A reading
/// below its predecessor (the counter was reset) counts as no gain at all.
pub open spec fn delta_spec(previous: u64, current: u64) -> nat {
    if current >= previous {
        (current - previous) as nat
    } else {
        0
    }
}

/// The rate, in whole bytes per second, of `delta` bytes gained in `elapsed`
/// nanoseconds: the quotient rounded down, and held at `u64::MAX` where it
/// would not fit.
pub open spec fn rate_spec(delta: nat, elapsed: nat) -> nat
    recommends
        elapsed > 0,
{
    let exact = delta * (NANOS_PER_SECOND as nat) / elapsed;
    if exact > u64::MAX {
        u64::MAX as nat
    } else {
        exact
    }
}

/// Subtracts `previous` from `current`, stopping at zero.
pub fn counter_delta(previous: u64, current: u64) -> (delta: u64)
    ensures
        delta == delta_spec(previous, current),
{
    current.saturating_sub(previous)
}

/// The rate of `delta` bytes over `elapsed_nanos` nanoseconds, in whole bytes
/// per second.
pub fn rate_per_second(delta: u64, elapsed_nanos: u64) -> (rate: u64)
    requires
        elapsed_nanos > 0,
    ensures
        rate == rate_spec(delta as nat, elapsed_nanos as nat),
{
    let scaled: u128 = (delta as u128) * (NANOS_PER_SECOND as u128);
    let exact: u128 = scaled / (elapsed_nanos as u128);
    if exact > u64::MAX as u128 {
        u64::MAX
    } else {
        exact as u64
    }
}

/// What a sampler remembers between two ticks.
#[derive(Clone, Copy, Debug)]
pub struct RateSampler {
    /// The counter value seen by the latest sample.
    pub previous: u64,
    /// The timestamp of the latest sample, in nanoseconds.
    pub previous_time: u64,
    /// The rate that the latest sample returned; zero before the first one.
    pub last_rate: u64,
}

impl RateSampler {
    /// The rate that a sample at `now`, reading `current`, returns. Where the
    /// clock has advanced it is the gain since the latest sample over the
    /// time since then; where it has not, the rate returned last is repeated.
    pub open spec fn next_rate(self, current: u64, now: u64) -> nat {
        if now > self.previous_time {
            rate_spec(delta_spec(self.previous, current), (now - self.previous_time) as nat)
        } else {
            self.last_rate as nat
        }
    }

    /// The sampler after a sample at `now` that read `current`.
    pub open spec fn after(self, current: u64, now: u64) -> RateSampler {
        RateSampler {
            previous: current,
            previous_time: now,
            last_rate: self.next_rate(current, now) as u64,
        }
    }

    /// A sampler whose baseline is the counter value `initial` read at `now`.
    pub fn new(initial: u64, now: u64) -> (sampler: RateSampler)
        ensures
            sampler == (RateSampler { previous: initial, previous_time: now, last_rate: 0 }),
    {
        RateSampler { previous: initial, previous_time: now, last_rate: 0 }
    }

    /// Takes one sample: `current` is the counter's value and `now` the
    /// clock's reading at this tick. Returns the rate in whole bytes per
    /// second and moves the baseline to this reading.
    pub fn sample(&mut self, current: u64, now: u64) -> (rate: u64)
        ensures
            rate == old(self).next_rate(current, now),
            *final(self) == old(self).after(current, now),
    {
        let rate: u64 = if now > self.previous_time {
            rate_per_second(counter_delta(self.previous, current), now - self.previous_time)
        } else {
            self.last_rate
        };
        self.previous = current;
        self.previous_time = now;
        self.last_rate = rate;
        rate
    }
}

/// What one tick reads: the counter's value and the clock's.
pub struct Reading {
    /// The value of the byte counter.
    pub counter: u64,
    /// The reading of the monotonic clock, in nanoseconds.
    pub time: u64,
}

impl RateSampler {
    /// The sampler after it has sampled `readings` one by one, in order.
    pub open spec fn after_all(self, readings: Seq<Reading>) -> RateSampler
        decreases readings.len(),
    {
        if readings.len() == 0 {
            self
        } else {
            self.after_all(readings.drop_last()).after(
                readings.last().counter,
                readings.last().time,
            )
        }
    }

    /// The counter value that sample number `i` of `readings` is held
    /// against: that of the sample before it, or the sampler's own baseline.
    pub open spec fn counter_before(self, readings: Seq<Reading>, i: int) -> u64 {
        if i == 0 {
            self.previous
        } else {
            readings[i - 1].counter
        }
    }

    /// The timestamp that sample number `i` of `readings` is held against.
    pub open spec fn time_before(self, readings: Seq<Reading>, i: int) -> u64 {
        if i == 0 {
            self.previous_time
        } else {
            readings[i - 1].time
        }
    }

    /// The gain in bytes that sample number `i` of `readings` computes.
    pub open spec fn delta_at(self, readings: Seq<Reading>, i: int) -> nat {
        delta_spec(self.after_all(readings.take(i)).previous, readings[i].counter)
    }

    /// The rate that sample number `i` of `readings` returns.
    pub open spec fn rate_at(self, readings: Seq<Reading>, i: int) -> nat {
        self.after_all(readings.take(i)).next_rate(readings[i].counter, readings[i].time)
    }
}

/// No gain means no rate, and no rate is beyond `u64::MAX`.
pub proof fn lemma_rate_spec_bounds(delta: nat, elapsed: nat)
    requires
        elapsed > 0,
    ensures
        rate_spec(delta, elapsed) <= u64::MAX,
        rate_spec(0, elapsed) == 0,
{
    assert(0 * (NANOS_PER_SECOND as nat) / elapsed == 0) by (nonlinear_arith)
        requires
            elapsed > 0,
    ;
}

/// The rate is the largest whole number of bytes per second that the gain
/// covers: at that rate no more than `delta` bytes pass in `elapsed`
/// nanoseconds, and below `u64::MAX` one byte per second more would pass more
/// than `delta`.
pub proof fn lemma_rate_spec_floor(delta: nat, elapsed: nat)
    requires
        elapsed > 0,
    ensures
        rate_spec(delta, elapsed) * elapsed <= delta * NANOS_PER_SECOND,
        rate_spec(delta, elapsed) < u64::MAX ==> delta * NANOS_PER_SECOND < (rate_spec(
            delta,
            elapsed,
        ) + 1) * elapsed,
{
    let scaled = delta * (NANOS_PER_SECOND as nat);
    let exact = scaled / elapsed;
    assert(exact * elapsed <= scaled < (exact + 1) * elapsed) by (nonlinear_arith)
        requires
            elapsed > 0,
            exact == scaled / elapsed,
    ;
    if exact > u64::MAX {
        assert(u64::MAX * elapsed <= exact * elapsed) by (nonlinear_arith)
            requires
                u64::MAX < exact,
                elapsed > 0,
        ;
    }
}

/// Each sample is held against the one before it: after `i` samples the
/// baseline is the reading of sample `i - 1`, and the rate remembered is the
/// rate that this sample returned.
pub proof fn lemma_baseline_follows(sampler: RateSampler, readings: Seq<Reading>, i: int)
    requires
        0 <= i <= readings.len(),
    ensures
        sampler.after_all(readings.take(i)).previous == sampler.counter_before(readings, i),
        sampler.after_all(readings.take(i)).previous_time == sampler.time_before(readings, i),
        i > 0 ==> sampler.after_all(readings.take(i)).last_rate == sampler.rate_at(readings, i - 1),
        i == 0 ==> sampler.after_all(readings.take(i)) == sampler,
{
    if i > 0 {
        let taken = readings.take(i);
        assert(taken.drop_last() =~= readings.take(i - 1));
        assert(taken.last() == readings[i - 1]);
        let before = sampler.after_all(readings.take(i - 1));
        if readings[i - 1].time > before.previous_time {
            lemma_rate_spec_bounds(
                delta_spec(before.previous, readings[i - 1].counter),
                (readings[i - 1].time - before.previous_time) as nat,
            );
        }
    }
}

/// A counter that never falls is measured exactly: where sample `i` reads no
/// less than the reading before it, the gain it computes is the difference of
/// the two, and where the clock has advanced as well, the rate it returns is
/// that gain over the time between them.
pub proof fn lemma_monotonic_delta(sampler: RateSampler, readings: Seq<Reading>, i: int)
    requires
        0 <= i < readings.len(),
        sampler.counter_before(readings, i) <= readings[i].counter,
    ensures
        sampler.delta_at(readings, i) == readings[i].counter - sampler.counter_before(readings, i),
        sampler.delta_at(readings, i) >= 0,
        sampler.time_before(readings, i) < readings[i].time ==> sampler.rate_at(readings, i)
            == rate_spec(
            (readings[i].counter - sampler.counter_before(readings, i)) as nat,
            (readings[i].time - sampler.time_before(readings, i)) as nat,
        ),
{
    lemma_baseline_follows(sampler, readings, i);
}

/// A counter that fell back is no gain: where sample `i` reads less than the
/// reading before it, the gain it computes is zero, and where the clock has
/// advanced, so is the rate it returns.
pub proof fn lemma_reset_yields_zero(sampler: RateSampler, readings: Seq<Reading>, i: int)
    requires
        0 <= i < readings.len(),
        readings[i].counter < sampler.counter_before(readings, i),
    ensures
        sampler.delta_at(readings, i) == 0,
        sampler.time_before(readings, i) < readings[i].time ==> sampler.rate_at(readings, i) == 0,
{
    lemma_baseline_follows(sampler, readings, i);
    if sampler.time_before(readings, i) < readings[i].time {
        lemma_rate_spec_bounds(0, (readings[i].time - sampler.time_before(readings, i)) as nat);
    }
}

/// A clock that stood still divides nothing: where sample `i` carries the
/// timestamp of the reading before it (or an earlier one), it returns the
/// rate of the sample before it, and the first sample returns the rate that
/// the sampler started with, which is zero for a new sampler.
pub proof fn lemma_zero_elapsed_repeats(sampler: RateSampler, readings: Seq<Reading>, i: int)
    requires
        0 <= i < readings.len(),
        readings[i].time <= sampler.time_before(readings, i),
    ensures
        i > 0 ==> sampler.rate_at(readings, i) == sampler.rate_at(readings, i - 1),
        i == 0 ==> sampler.rate_at(readings, i) == sampler.last_rate,
{
    lemma_baseline_follows(sampler, readings, i);
}

} // verus!
