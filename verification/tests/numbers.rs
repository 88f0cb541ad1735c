use std::cmp::Ordering;

use surflux_terminal::decimal::Decimal;
use surflux_terminal::detail::int_to_text;
use surflux_terminal::number::{
    decimal_sign, format_volume_decimal, text_sign, volume_scale, Sign,
    VolumeScale,
};

fn dec(mantissa: i128, scale: u32) -> Decimal {
    Decimal { mantissa, scale, negative: mantissa < 0 }
}

fn as_real(d: Decimal) -> rust_decimal::Decimal {
    let mut x = rust_decimal::Decimal::from_i128_with_scale(d.mantissa, d.scale);
    x.set_sign_negative(d.negative);
    x
}

#[test]
fn decimal_text_as_rust_decimal_writes_it() {
    assert_eq!(dec(150, 2).to_string(), "1.50");
    assert_eq!(dec(-7, 0).to_string(), "-7");
    assert_eq!(dec(5, 3).to_string(), "0.005");
}

#[test]
fn trunc_and_integral() {
    assert_eq!(dec(1000, 2).trunc(), dec(10, 0));
    assert_eq!(dec(-1999, 3).trunc(), dec(-1, 0));
    assert!(dec(1000, 2).is_integral());
    assert!(!dec(1005, 2).is_integral());
    assert!(dec(-300, 2).is_integral());
}

#[test]
fn integer_text() {
    assert_eq!(int_to_text(0), "0");
    assert_eq!(int_to_text(-120), "-120");
    assert_eq!(int_to_text(i64::MIN), i64::MIN.to_string());
    assert_eq!(int_to_text(i64::MAX), i64::MAX.to_string());
}

#[test]
fn signs_of_text_and_decimals() {
    assert!("-1.5".negative());
    assert!("0.00".zero());
    assert!("+0".zero());
    assert!("12".positive());
    assert!(!"-0".positive());
    assert_eq!(text_sign("-3"), Ordering::Less);
    assert_eq!(text_sign("0.0"), Ordering::Equal);
    assert_eq!(text_sign("3"), Ordering::Greater);
    assert!(dec(5, 1).positive());
    assert!(dec(-5, 1).negative());
    assert!(dec(0, 3).zero());
    assert_eq!(decimal_sign(&dec(-1, 0)), Ordering::Less);
    assert_eq!(decimal_sign(&dec(0, 0)), Ordering::Equal);
    assert_eq!(decimal_sign(&dec(7, 2)), Ordering::Greater);
}

#[test]
fn whole_volume_scales() {
    assert_eq!(volume_scale(0), VolumeScale::Empty);
    assert_eq!(volume_scale(999), VolumeScale::Units);
    assert_eq!(volume_scale(1_000), VolumeScale::Thousands);
    assert_eq!(volume_scale(1_234_567), VolumeScale::Millions);
    assert_eq!(volume_scale(5_000_000_000), VolumeScale::Billions);
}

#[test]
fn decimal_volume_short_forms() {
    assert_eq!(format_volume_decimal(dec(0, 0)), "--");
    assert_eq!(format_volume_decimal(dec(1_234_567, 0)), "1.23M");
    assert_eq!(format_volume_decimal(dec(-1_234_567, 0)), "1.23M");
    assert_eq!(format_volume_decimal(dec(999, 0)), "999");
    assert_eq!(format_volume_decimal(dec(5, 1)), "0.5");
    assert_eq!(format_volume_decimal(dec(12_345_678, 7)), "1.23");
    let v = dec(2_345_678_901_234, 0);
    let expected = format!(
        "{}B",
        (as_real(v) / rust_decimal::Decimal::from(1_000_000_000u64)).round_dp(2)
    );
    assert_eq!(format_volume_decimal(v), expected);
    assert_eq!(format_volume_decimal(dec(1_500, 0)), format!(
        "{}K",
        (rust_decimal::Decimal::from(1_500u64) / rust_decimal::Decimal::from(1_000u64)).round_dp(2)
    ));
    assert_eq!(format_volume_decimal(dec(1234567, 6)), "1.23");
    let largest = Decimal { mantissa: (1i128 << 96) - 1, scale: 0, negative: false };
    assert!(format_volume_decimal(largest).ends_with('B'));
}

#[test]
fn negative_zero_reads_as_below_zero() {
    let neg_zero = Decimal { mantissa: 0, scale: 2, negative: true };
    assert_eq!(decimal_sign(&neg_zero), Ordering::Less);
    assert!(neg_zero.negative());
    assert!(!neg_zero.positive());
    assert!(neg_zero.zero());
    assert_eq!(neg_zero.to_string(), "-0.00");
    assert_eq!(neg_zero.to_string(), as_real(neg_zero).to_string());
    assert_eq!(format_volume_decimal(neg_zero), "--");
    assert_eq!(decimal_sign(&dec(0, 2)), Ordering::Equal);
}

#[test]
fn volume_suffix_follows_magnitude() {
    assert_eq!(format_volume_decimal(dec(0, 0)), "--");
    assert_eq!(format_volume_decimal(dec(999, 0)), "999");
    assert_eq!(format_volume_decimal(dec(-999, 0)), format_volume_decimal(dec(999, 0)));
    assert!(format_volume_decimal(dec(1_000, 0)).ends_with('K'));
    assert!(format_volume_decimal(dec(-1_000_000, 0)).ends_with('M'));
    assert!(format_volume_decimal(dec(2_000_000_000, 0)).ends_with('B'));
    assert_eq!(format_volume_decimal(dec(5, 1)), "0.5");
}

/// The text rule the library states for rust_decimal's `Display`, written out
/// here to hold it against rust_decimal itself.
fn stated_text(m: i128, scale: u32, negative: bool) -> String {
    let digits = if m == 0 { String::new() } else { m.unsigned_abs().to_string() };
    let p = if digits.len() >= scale as usize {
        digits
    } else {
        "0".repeat(scale as usize - digits.len()) + &digits
    };
    let w = p.len() - scale as usize;
    let body = if scale == 0 {
        if p.is_empty() { "0".to_string() } else { p }
    } else {
        let whole = if w == 0 { "0".to_string() } else { p[..w].to_string() };
        format!("{whole}.{}", &p[w..])
    };
    format!("{}{body}", if negative { "-" } else { "" })
}

#[test]
fn decimal_text_matches_rust_decimal() {
    for (m, sc, neg) in [(0i128, 0u32, false), (0, 0, true), (0, 3, false), (0, 2, true), (5, 3, true),
        (-5, 3, true), (1234567, 2, false), (-1234567, 0, true), (100, 2, false), ((1i128 << 96) - 1, 28, false),
        (-((1i128 << 96) - 1), 5, true), (7, 1, false), (123, 3, false), (1, 28, false)] {
        let d = Decimal { mantissa: m, scale: sc, negative: neg };
        assert_eq!(as_real(d).to_string(), stated_text(m, sc, neg), "{m} {sc} {neg}");
        assert_eq!(d.to_string(), stated_text(m, sc, neg));
    }
}

/// The normalizing rule the library states for rust_decimal's `normalize`.
fn stated_normalized(mut m: i128, mut scale: u32, negative: bool) -> (i128, u32, bool) {
    if m == 0 {
        return (0, 0, false);
    }
    while scale > 0 && m % 10 == 0 {
        m /= 10;
        scale -= 1;
    }
    (m, scale, negative)
}

#[test]
fn normalize_matches_rust_decimal() {
    for (m, sc, neg) in [(0i128, 3u32, true), (0, 0, false), (1500, 3, false), (-1500, 3, true),
        (1500, 0, false), (10, 1, false), (123000, 2, false), (-7, 4, true)] {
        let d = Decimal { mantissa: m, scale: sc, negative: neg };
        let n = as_real(d).normalize();
        assert_eq!((n.mantissa(), n.scale(), n.is_sign_negative()), stated_normalized(m, sc, neg), "{m} {sc}");
    }
}
