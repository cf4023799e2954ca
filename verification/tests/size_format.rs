use file_explorer::size::{human_readable_size, SizeUnit};
use file_explorer::text::num_digits;

#[test]
fn humanize_zero_is_zero_bytes() {
    let h = human_readable_size(0);
    assert_eq!(h.whole, 0);
    assert_eq!(h.hundredths, 0);
    assert_eq!(h.unit, SizeUnit::B);
    assert_eq!(h.unit.text(), "B");
}

#[test]
fn humanize_1536_is_one_and_a_half_kb() {
    let h = human_readable_size(1536);
    assert_eq!(h.whole, 1);
    assert_eq!(h.hundredths, 50);
    assert_eq!(h.unit, SizeUnit::KB);
    assert_eq!(h.unit.text(), "KB");
}

#[test]
fn humanize_keeps_value_below_1024_until_pb() {
    let cases: [u64; 7] = [
        1,
        1023,
        1024,
        1024 * 1024 - 1,
        7 * 1024 * 1024 * 1024,
        1024u64.pow(5),
        u64::MAX,
    ];
    for b in cases {
        let h = human_readable_size(b);
        if h.unit != SizeUnit::PB {
            assert!(h.whole < 1024, "value {} for input {}", h.whole, b);
        }
        assert!(h.hundredths < 100);
    }
}

#[test]
fn humanize_unit_is_first_that_fits() {
    assert_eq!(human_readable_size(1023).unit, SizeUnit::B);
    assert_eq!(human_readable_size(1024).unit, SizeUnit::KB);
    assert_eq!(human_readable_size(1024 * 1024).unit, SizeUnit::MB);
    assert_eq!(human_readable_size(1024u64.pow(3)).unit, SizeUnit::GB);
    assert_eq!(human_readable_size(1024u64.pow(4)).unit, SizeUnit::TB);
    assert_eq!(human_readable_size(1024u64.pow(5)).unit, SizeUnit::PB);
    assert_eq!(human_readable_size(u64::MAX).unit, SizeUnit::PB);
}

#[test]
fn humanize_pb_can_exceed_1024() {
    let h = human_readable_size(u64::MAX);
    assert_eq!(h.unit, SizeUnit::PB);
    assert_eq!(h.whole, u64::MAX / 1024u64.pow(5));
    assert!(h.whole >= 1024 * 16 - 1);
}

#[test]
fn humanize_truncates_the_fraction() {
    // 1535 bytes are 1.4990... KB; the two decimals are truncated, not
    // rounded.
    let h = human_readable_size(1535);
    assert_eq!(h.whole, 1);
    assert_eq!(h.hundredths, 49);
    assert_eq!(h.unit, SizeUnit::KB);
}

#[test]
fn num_digits_counts_decimal_digits() {
    assert_eq!(num_digits(0), 1);
    assert_eq!(num_digits(9), 1);
    assert_eq!(num_digits(10), 2);
    assert_eq!(num_digits(5000), 4);
    assert_eq!(num_digits(u64::MAX), 20);
}
