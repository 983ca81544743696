use rust_network_monitor::sampler::{counter_delta, rate_per_second, RateSampler, NANOS_PER_SECOND};

const SECOND: u64 = NANOS_PER_SECOND;

#[test]
fn delta_of_a_growing_counter_is_the_difference() {
    assert_eq!(counter_delta(0, 0), 0);
    assert_eq!(counter_delta(0, 1000), 1000);
    assert_eq!(counter_delta(1000, 1500), 500);
    assert_eq!(counter_delta(0, u64::MAX), u64::MAX);
}

#[test]
fn delta_after_a_reset_is_zero() {
    assert_eq!(counter_delta(1000, 999), 0);
    assert_eq!(counter_delta(u64::MAX, 0), 0);
    assert_eq!(counter_delta(5, 3), 0);
}

#[test]
fn rate_is_bytes_over_seconds_rounded_down() {
    assert_eq!(rate_per_second(1000, SECOND), 1000);
    assert_eq!(rate_per_second(1500, SECOND / 2), 3000);
    assert_eq!(rate_per_second(1000, 2 * SECOND), 500);
    assert_eq!(rate_per_second(10, 3 * SECOND), 3);
    assert_eq!(rate_per_second(1, 3 * SECOND), 0);
    assert_eq!(rate_per_second(0, 1), 0);
    assert_eq!(rate_per_second(7, 1), 7 * SECOND);
}

#[test]
fn rate_stops_at_the_largest_value() {
    assert_eq!(rate_per_second(u64::MAX, 1), u64::MAX);
    assert_eq!(rate_per_second(u64::MAX, SECOND), u64::MAX);
    assert_eq!(rate_per_second(u64::MAX, 2 * SECOND), u64::MAX / 2);
    assert_eq!(rate_per_second(u64::MAX, u64::MAX), SECOND);
}

#[test]
fn a_new_sampler_holds_its_baseline() {
    let sampler = RateSampler::new(42, 7);
    assert_eq!(sampler.previous, 42);
    assert_eq!(sampler.previous_time, 7);
    assert_eq!(sampler.last_rate, 0);
}

#[test]
fn monotonic_counter_gives_exact_rates() {
    let values: [u64; 5] = [0, 1000, 1000, 4000, 4096];
    let mut sampler = RateSampler::new(values[0], 0);
    let mut tick: u64 = 1;
    while (tick as usize) < values.len() {
        let rate = sampler.sample(values[tick as usize], tick * SECOND);
        assert_eq!(rate, values[tick as usize] - values[tick as usize - 1]);
        assert_eq!(sampler.previous, values[tick as usize]);
        assert_eq!(sampler.previous_time, tick * SECOND);
        assert_eq!(sampler.last_rate, rate);
        tick += 1;
    }
}

#[test]
fn reset_gives_one_zero_sample_then_recovers() {
    let mut sampler = RateSampler::new(0, 0);
    assert_eq!(sampler.sample(5000, SECOND), 5000);
    assert_eq!(sampler.sample(100, 2 * SECOND), 0);
    assert_eq!(sampler.previous, 100);
    assert_eq!(sampler.sample(600, 3 * SECOND), 500);
}

#[test]
fn zero_elapsed_on_the_first_sample_gives_zero() {
    let mut sampler = RateSampler::new(0, SECOND);
    assert_eq!(sampler.sample(1000, SECOND), 0);
    assert_eq!(sampler.previous, 1000);
    assert_eq!(sampler.previous_time, SECOND);
}

#[test]
fn zero_elapsed_repeats_the_rate_before() {
    let mut sampler = RateSampler::new(0, 0);
    let first = sampler.sample(1000, SECOND);
    assert_eq!(first, 1000);
    let second = sampler.sample(9000, SECOND);
    assert_eq!(second, first);
    assert_eq!(sampler.last_rate, first);
    let third = sampler.sample(9000, SECOND);
    assert_eq!(third, first);
}

#[test]
fn a_clock_that_went_back_repeats_the_rate_before() {
    let mut sampler = RateSampler::new(0, 5 * SECOND);
    assert_eq!(sampler.sample(2000, 6 * SECOND), 2000);
    assert_eq!(sampler.sample(3000, 4 * SECOND), 2000);
    assert_eq!(sampler.previous_time, 4 * SECOND);
    assert_eq!(sampler.sample(3500, 5 * SECOND), 500);
}

#[test]
fn sub_second_ticks_scale_the_rate() {
    let mut sampler = RateSampler::new(0, 0);
    assert_eq!(sampler.sample(100, SECOND / 10), 1000);
    assert_eq!(sampler.sample(100 + 333, SECOND / 10 + SECOND / 3), 999);
}
