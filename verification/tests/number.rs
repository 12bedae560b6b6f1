use reckless::number::{parse_i32, parse_natural, parse_u64, parse_usize, render, render_signed};

const SAMPLES: [&str; 28] = [
    "", "+", "-", "0", "-0", "+0", "7", "+7", "-7", "007", "12a", " 12", "12 ", "1_000", "--1", "+-1", "2147483647",
    "2147483648", "-2147483648", "-2147483649", "18446744073709551615", "18446744073709551616",
    "+18446744073709551615", "99999999999999999999999999", "-1", "0x10", "\u{0661}", "1.0",
];

#[test]
fn numbers_are_read_as_the_standard_library_reads_them() {
    for s in SAMPLES {
        assert_eq!(parse_i32(s), s.parse::<i32>().ok(), "{:?}", s);
        assert_eq!(parse_u64(s), s.parse::<u64>().ok(), "{:?}", s);
        assert_eq!(parse_usize(s), s.parse::<usize>().ok(), "{:?}", s);
    }
}

#[test]
fn signs_belong_to_integers_only() {
    assert_eq!(parse_i32("-42"), Some(-42));
    assert_eq!(parse_i32("+42"), Some(42));
    assert_eq!(parse_u64("-42"), None);
    assert_eq!(parse_u64("+42"), Some(42));
    assert_eq!(parse_i32("-"), None);
}

#[test]
fn a_bound_is_kept() {
    assert_eq!(parse_natural("255", 255), Some(255));
    assert_eq!(parse_natural("256", 255), None);
    assert_eq!(parse_natural("0000000000000000000000000000255", 255), Some(255));
}

#[test]
fn numbers_are_written_as_the_standard_library_writes_them() {
    for n in [0u64, 1, 9, 10, 11, 99, 100, 262144, 4294967296, u64::MAX] {
        assert_eq!(render(n), n.to_string());
        assert_eq!(parse_u64(&render(n)), Some(n));
    }
    for n in [0i32, 5, -5, 10, -10, i32::MAX, i32::MIN] {
        assert_eq!(render_signed(n), n.to_string());
        assert_eq!(parse_i32(&render_signed(n)), Some(n));
    }
}
