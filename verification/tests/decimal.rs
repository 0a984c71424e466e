use rustis::decimal::{parse_i64, parse_u64, render_i64, render_usize};

#[test]
fn render_i64_writes_decimal() {
    assert_eq!(render_i64(0), b"0".to_vec());
    assert_eq!(render_i64(7), b"7".to_vec());
    assert_eq!(render_i64(10), b"10".to_vec());
    assert_eq!(render_i64(-1), b"-1".to_vec());
    assert_eq!(render_i64(9007199254740993), b"9007199254740993".to_vec());
    assert_eq!(render_i64(i64::MAX), b"9223372036854775807".to_vec());
    assert_eq!(render_i64(i64::MIN), b"-9223372036854775808".to_vec());
}

#[test]
fn render_usize_writes_decimal() {
    assert_eq!(render_usize(0), b"0".to_vec());
    assert_eq!(render_usize(13), b"13".to_vec());
    assert_eq!(render_usize(100200), b"100200".to_vec());
}

#[test]
fn parse_i64_reads_signs_and_digits() {
    assert_eq!(parse_i64(b"0"), Some(0));
    assert_eq!(parse_i64(b"42"), Some(42));
    assert_eq!(parse_i64(b"+42"), Some(42));
    assert_eq!(parse_i64(b"-42"), Some(-42));
    assert_eq!(parse_i64(b"007"), Some(7));
    assert_eq!(parse_i64(b"-0"), Some(0));
}

#[test]
fn parse_i64_ignores_white_space_at_the_ends() {
    assert_eq!(parse_i64(b"  42 "), Some(42));
    assert_eq!(parse_i64(b"5\r\n"), Some(5));
    assert_eq!(parse_i64(b"\t-3\x0b\x0c"), Some(-3));
    assert_eq!(parse_i64(b"4 2"), None);
    assert_eq!(parse_i64(b"- 2"), None);
}

#[test]
fn parse_i64_knows_the_range() {
    assert_eq!(parse_i64(b"9223372036854775807"), Some(i64::MAX));
    assert_eq!(parse_i64(b"-9223372036854775808"), Some(i64::MIN));
    assert_eq!(parse_i64(b"9223372036854775808"), None);
    assert_eq!(parse_i64(b"-9223372036854775809"), None);
    assert_eq!(parse_i64(b"99999999999999999999999999"), None);
    assert_eq!(parse_i64(b"00000000000000000000000000001"), Some(1));
}

#[test]
fn parse_i64_rejects_what_is_no_number() {
    assert_eq!(parse_i64(b""), None);
    assert_eq!(parse_i64(b"   "), None);
    assert_eq!(parse_i64(b"-"), None);
    assert_eq!(parse_i64(b"+"), None);
    assert_eq!(parse_i64(b"--1"), None);
    assert_eq!(parse_i64(b"1a"), None);
    assert_eq!(parse_i64(b"a1"), None);
    assert_eq!(parse_i64(b"1.5"), None);
    assert_eq!(parse_i64(b"5\xff"), None);
}

#[test]
fn parse_u64_reads_unsigned_numbers_only() {
    assert_eq!(parse_u64(b"0"), Some(0));
    assert_eq!(parse_u64(b"100"), Some(100));
    assert_eq!(parse_u64(b"+100"), Some(100));
    assert_eq!(parse_u64(b"18446744073709551615"), Some(u64::MAX));
    assert_eq!(parse_u64(b"18446744073709551616"), None);
    assert_eq!(parse_u64(b"-1"), None);
    assert_eq!(parse_u64(b" 1"), None);
    assert_eq!(parse_u64(b""), None);
    assert_eq!(parse_u64(b"+"), None);
    assert_eq!(parse_u64(b"12x"), None);
}

#[test]
fn parse_reads_back_what_render_wrote() {
    for n in [0i64, 1, -1, 9, 10, -10, 99, 100, 12345, -98765, i64::MAX, i64::MIN] {
        assert_eq!(parse_i64(&render_i64(n)), Some(n));
    }
}
