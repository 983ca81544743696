use rust_network_monitor::smoother::Smoother;

#[test]
fn running_means_while_the_window_fills() {
    let mut smoother = Smoother::new(5);
    assert_eq!(smoother.push(10), 10);
    assert_eq!(smoother.push(20), 15);
    assert_eq!(smoother.push(30), 20);
}

#[test]
fn a_full_window_evicts_its_oldest_rate() {
    let mut smoother = Smoother::new(5);
    assert_eq!(smoother.push(10), 10);
    assert_eq!(smoother.push(20), 15);
    assert_eq!(smoother.push(30), 20);
    assert_eq!(smoother.push(40), 25);
    assert_eq!(smoother.push(50), 30);
    assert_eq!(smoother.push(60), 40);
}

#[test]
fn the_mean_is_rounded_down() {
    let mut smoother = Smoother::new(3);
    assert_eq!(smoother.push(1), 1);
    assert_eq!(smoother.push(2), 1);
    assert_eq!(smoother.push(2), 1);
    assert_eq!(smoother.push(3), 2);
}

#[test]
fn the_mean_of_the_largest_rates_does_not_overflow() {
    let mut smoother = Smoother::new(4);
    for _ in 0..10 {
        assert_eq!(smoother.push(u64::MAX), u64::MAX);
    }
    // (3 * (2^64 - 1)) / 4, rounded down.
    assert_eq!(smoother.push(0), 13_835_058_055_282_163_711);
}

#[test]
fn a_window_of_one_does_not_smooth() {
    let mut smoother = Smoother::new(1);
    assert_eq!(smoother.push(100), 100);
    assert_eq!(smoother.push(7), 7);
    assert_eq!(smoother.push(0), 0);
}

#[test]
fn the_mean_stays_between_the_smallest_and_the_largest() {
    let mut smoother = Smoother::new(5);
    let raw: [u64; 9] = [500, 1200, 800, 800, 10_000, 3, 999, 1000, 1001];
    let mut seen: Vec<u64> = Vec::new();
    for value in raw {
        seen.push(value);
        let window = &seen[seen.len().saturating_sub(5)..];
        let mean = smoother.push(value);
        assert!(mean >= *window.iter().min().unwrap());
        assert!(mean <= *window.iter().max().unwrap());
        assert_eq!(mean, window.iter().sum::<u64>() / window.len() as u64);
    }
}
