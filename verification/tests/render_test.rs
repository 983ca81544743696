use rust_network_monitor::render::human_readable;

#[test]
fn bytes_per_second_up_to_one_kilobyte() {
    assert_eq!(human_readable(0), "0.00 B/s");
    assert_eq!(human_readable(7), "7.00 B/s");
    assert_eq!(human_readable(512), "512.00 B/s");
    assert_eq!(human_readable(1024), "1024.00 B/s");
}

#[test]
fn kilobytes_start_above_one_kilobyte() {
    assert_eq!(human_readable(1025), "1.00 KB/s");
    assert_eq!(human_readable(1536), "1.50 KB/s");
    assert_eq!(human_readable(2048), "2.00 KB/s");
    assert_eq!(human_readable(1024 * 1024), "1024.00 KB/s");
}

#[test]
fn megabytes_start_above_one_megabyte() {
    assert_eq!(human_readable(1024 * 1024 + 1), "1.00 MB/s");
    assert_eq!(human_readable(1_572_864), "1.50 MB/s");
    assert_eq!(human_readable(10 * 1024 * 1024), "10.00 MB/s");
    assert_eq!(human_readable(u64::MAX), "17592186044416.00 MB/s");
}

#[test]
fn a_tie_goes_to_the_even_hundredth() {
    // 1152 / 1024 = 1.125 and 1408 / 1024 = 1.375, each halfway between two hundredths.
    assert_eq!(human_readable(1152), "1.12 KB/s");
    assert_eq!(human_readable(1408), "1.38 KB/s");
}

#[test]
fn rounding_carries_into_the_whole_part() {
    // 1048575 / 1024 = 1023.999...
    assert_eq!(human_readable(1_048_575), "1024.00 KB/s");
}

#[test]
fn agrees_with_float_formatting_on_whole_rates() {
    let mut rate: u64 = 0;
    while rate < 4_000_000 {
        let as_float = rate as f64;
        let expected = if as_float > 1024.0 * 1024.0 {
            format!("{:.2} MB/s", as_float / (1024.0 * 1024.0))
        } else if as_float > 1024.0 {
            format!("{:.2} KB/s", as_float / 1024.0)
        } else {
            format!("{:.2} B/s", as_float)
        };
        assert_eq!(human_readable(rate), expected);
        rate += 37;
    }
    for rate in [1152u64, 1408, 1664, 1_179_648, 1_441_792, 3_276_800, 123_456_789_012] {
        let as_float = rate as f64;
        let expected = if as_float > 1024.0 * 1024.0 {
            format!("{:.2} MB/s", as_float / (1024.0 * 1024.0))
        } else {
            format!("{:.2} KB/s", as_float / 1024.0)
        };
        assert_eq!(human_readable(rate), expected);
    }
}
