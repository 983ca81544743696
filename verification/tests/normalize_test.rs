use rust_network_monitor::normalize::normalize;

#[test]
fn rates_become_percentages_of_the_largest() {
    assert_eq!(normalize(&[10, 20, 30]), vec![33, 66, 100]);
    assert_eq!(normalize(&[1, 3]), vec![33, 100]);
    assert_eq!(normalize(&[50, 100, 25, 0]), vec![50, 100, 25, 0]);
    assert_eq!(normalize(&[7]), vec![100]);
}

#[test]
fn uniform_scaling_leaves_the_percentages() {
    assert_eq!(normalize(&[10, 20, 30]), normalize(&[100, 200, 300]));
    let base: [u64; 6] = [3, 1, 4, 1, 5, 9];
    for factor in [1u64, 2, 7, 1000, 123_456_789] {
        let scaled: Vec<u64> = base.iter().map(|value| value * factor).collect();
        assert_eq!(normalize(&scaled), normalize(&base));
    }
}

#[test]
fn all_zero_input_gives_all_zero_output() {
    assert_eq!(normalize(&[0, 0, 0]), vec![0, 0, 0]);
    assert_eq!(normalize(&[0]), vec![0]);
}

#[test]
fn empty_input_gives_empty_output() {
    assert_eq!(normalize(&[]), Vec::<u64>::new());
}

#[test]
fn the_largest_rates_do_not_overflow() {
    assert_eq!(normalize(&[u64::MAX, u64::MAX / 2, 0, 1]), vec![100, 49, 0, 0]);
    assert_eq!(normalize(&[u64::MAX, u64::MAX - 1]), vec![100, 99]);
}

#[test]
fn no_percentage_is_above_one_hundred() {
    let values: [u64; 8] = [12, 0, 999, 1000, 1, 500, 750, 1000];
    let scaled = normalize(&values);
    assert_eq!(scaled.len(), values.len());
    for (value, percent) in values.iter().zip(scaled.iter()) {
        assert!(*percent <= 100);
        assert_eq!(*percent, value * 100 / 1000);
    }
}
