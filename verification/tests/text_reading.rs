use surflux_terminal::json::{parse_i64, parse_u64};
use surflux_terminal::text::is_white_space;

#[test]
fn white_space_agrees_with_std() {
    for v in 0u32..=0x10FFFF {
        if let Some(c) = char::from_u32(v) {
            assert_eq!(is_white_space(c), c.is_whitespace(), "{v:#x}");
        }
    }
}

#[test]
fn integers_read_as_std_reads_them() {
    let texts = [
        "", "+", "-", "0", "+0", "-0", "42", "+42", "-42", "4 2", "1a", " 1", "007",
        "9223372036854775807", "9223372036854775808", "-9223372036854775808", "-9223372036854775809",
        "18446744073709551615", "18446744073709551616", "99999999999999999999999999999",
        "-99999999999999999999999999999", "--1", "+-1", "١٢",
    ];
    for t in texts {
        assert_eq!(parse_i64(t), t.parse::<i64>().ok(), "{t:?}");
        assert_eq!(parse_u64(t), t.parse::<u64>().ok(), "{t:?}");
    }
    assert_eq!(parse_i64("-9223372036854775808"), Some(i64::MIN));
    assert_eq!(parse_u64("18446744073709551615"), Some(u64::MAX));
}
