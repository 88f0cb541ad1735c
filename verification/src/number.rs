use vstd::prelude::*;

use core::cmp::Ordering;

use crate::decimal::{
    lemma_decimal_text_shape, lemma_normalized, lemma_pow10_positive, max_scale, pow10, checked_div, decimal_lt, decimal_normalized, decimal_quotient, decimal_rounded, decimal_text, normalize,
    round_dp, to_text, Decimal,
};
use crate::text::{chars_of, push_str};

verus! {

// ---------------------------------------------------------------------------
// Signs of numbers and of numbers written as text
// ---------------------------------------------------------------------------

/// Whether a number is above, below or at zero.
pub trait Sign {
    fn positive(&self) -> bool;

    fn negative(&self) -> bool;

    fn zero(&self) -> bool;
}

/// A character that may appear in the text of a zero.
pub open spec fn zero_char(c: char) -> bool {
    c == '0' || c == '.' || c == '+' || c == '-'
}

/// A text reads as negative where it starts with `-`.
pub open spec fn text_negative(s: Seq<char>) -> bool {
    s.len() > 0 && s[0] == '-'
}

/// A text reads as zero where it is made of zeros, points and signs only.
pub open spec fn text_zero(s: Seq<char>) -> bool {
    forall|i: int| 0 <= i < s.len() ==> zero_char(#[trigger] s[i])
}

impl Sign for str {
    fn positive(&self) -> (r: bool)
        ensures
            r == !(text_negative(self@) || text_zero(self@)),
    {
        !(self.negative() || self.zero())
    }

    fn negative(&self) -> (r: bool)
        ensures
            r == text_negative(self@),
    {
        let v = chars_of(self);
        v.len() > 0 && v[0] == '-'
    }

    fn zero(&self) -> (r: bool)
        ensures
            r == text_zero(self@),
    {
        let v = chars_of(self);
        let mut i: usize = 0;
        while i < v.len()
            invariant
                i <= v.len(),
                v@ == self@,
                forall|j: int| 0 <= j < i ==> zero_char(#[trigger] v@[j]),
            decreases v.len() - i,
        {
            let c = v[i];
            if !(c == '0' || c == '.' || c == '+' || c == '-') {
                return false;
            }
            i = i + 1;
        }
        true
    }
}

impl Sign for Decimal {
    fn positive(&self) -> (r: bool)
        ensures
            r == (!self.negative && self.mantissa != 0),
    {
        !self.is_sign_negative() && !self.is_zero()
    }

    fn negative(&self) -> (r: bool)
        ensures
            r == self.negative,
    {
        self.is_sign_negative()
    }

    fn zero(&self) -> (r: bool)
        ensures
            r == (self.mantissa == 0),
    {
        self.is_zero()
    }
}

/// The sign of a number written as text: below zero where it starts with `-`,
/// zero where it is made of zeros, points and signs only, above otherwise.
pub fn text_sign(s: &str) -> (r: Ordering)
    ensures
        r == (if text_negative(s@) {
            Ordering::Less
        } else if text_zero(s@) {
            Ordering::Equal
        } else {
            Ordering::Greater
        }),
{
    if s.negative() {
        Ordering::Less
    } else if s.zero() {
        Ordering::Equal
    } else {
        Ordering::Greater
    }
}

/// The sign of a decimal: below zero where its sign flag is set (a negative
/// zero too), zero, or above zero.
pub fn decimal_sign(d: &Decimal) -> (r: Ordering)
    ensures
        r == (if d.negative {
            Ordering::Less
        } else if d.mantissa == 0 {
            Ordering::Equal
        } else {
            Ordering::Greater
        }),
{
    if d.negative() {
        Ordering::Less
    } else if d.zero() {
        Ordering::Equal
    } else {
        Ordering::Greater
    }
}

// ---------------------------------------------------------------------------
// Short forms of volumes
// ---------------------------------------------------------------------------

/// How a whole volume is written: `--` for none, as it is below a thousand,
/// else in thousands, millions or billions.
#[derive(Clone, Copy, Debug, PartialEq, Eq, Structural)]
pub enum VolumeScale {
    Empty,
    Units,
    Thousands,
    Millions,
    Billions,
}

pub open spec fn volume_scale_spec(volume: u64) -> VolumeScale {
    if volume == 0 {
        VolumeScale::Empty
    } else if volume >= 1_000_000_000 {
        VolumeScale::Billions
    } else if volume >= 1_000_000 {
        VolumeScale::Millions
    } else if volume >= 1_000 {
        VolumeScale::Thousands
    } else {
        VolumeScale::Units
    }
}

/// How a whole volume is written (see `volume_scale_spec`).
pub fn volume_scale(volume: u64) -> (r: VolumeScale)
    ensures
        r == volume_scale_spec(volume),
{
    if volume == 0 {
        VolumeScale::Empty
    } else if volume >= 1_000_000_000 {
        VolumeScale::Billions
    } else if volume >= 1_000_000 {
        VolumeScale::Millions
    } else if volume >= 1_000 {
        VolumeScale::Thousands
    } else {
        VolumeScale::Units
    }
}

pub open spec fn whole(n: int) -> Decimal {
    Decimal { mantissa: n as i128, scale: 0, negative: n < 0 }
}

/// A volume in the unit `unit` with two decimals, followed by `suffix`.
pub open spec fn in_unit(a: Decimal, unit: int, suffix: Seq<char>) -> Option<Seq<char>> {
    match decimal_quotient(a, whole(unit)) {
        Some(q) => Some(decimal_text(decimal_rounded(q, 2)) + suffix),
        None => None,
    }
}

/// The short form of a decimal volume, its sign dropped: `--` for zero; in
/// billions, millions or thousands with two decimals from a thousand on;
/// below that with two decimals, or six below one, trailing zeros dropped.
/// `None` where the division by the unit fails (which `format_volume_decimal`
/// shows it never does for a well-formed volume).
pub open spec fn volume_text(v: Decimal) -> Option<Seq<char>> {
    let a = v.abs_spec();
    if v.mantissa == 0 {
        Some("--"@)
    } else if a.scaled() >= whole(1_000_000_000).scaled() {
        in_unit(a, 1_000_000_000, "B"@)
    } else if a.scaled() >= whole(1_000_000).scaled() {
        in_unit(a, 1_000_000, "M"@)
    } else if a.scaled() >= whole(1_000).scaled() {
        in_unit(a, 1_000, "K"@)
    } else {
        let precision: u32 = if a.scaled() < whole(1).scaled() { 6 } else { 2 };
        Some(decimal_text(decimal_normalized(decimal_rounded(a, precision))))
    }
}

fn unit_text(a: &Decimal, unit: u64, suffix: &str) -> (r: String)
    requires
        a.wf(),
        unit == 1_000 || unit == 1_000_000 || unit == 1_000_000_000,
        suffix@.len() == 1,
    ensures
        in_unit(*a, unit as int, suffix@) == Some(r@),
        r@.len() >= 2,
        r@.last() == suffix@[0],
{
    let u = Decimal::from_u64(unit);
    proof {
        lemma_pow10_positive(max_scale() as nat);
        assert(u.abs_spec().scaled() >= pow10(max_scale() as nat)) by (nonlinear_arith)
            requires
                u.abs_spec().scaled() == unit * pow10(max_scale() as nat),
                unit >= 1,
                pow10(max_scale() as nat) >= 1,
        ;
    }
    match checked_div(a, &u) {
        Some(q) => {
            let rounded = round_dp(&q, 2);
            let mut s = to_text(&rounded);
            push_str(&mut s, suffix);
            s
        },
        None => String::new(),
    }
}

/// The unit a volume is written in from a thousand on (a billion, a million
/// or a thousand), none below.
pub open spec fn volume_unit(a: Decimal) -> int {
    if a.scaled() >= whole(1_000_000_000).scaled() {
        1_000_000_000
    } else if a.scaled() >= whole(1_000_000).scaled() {
        1_000_000
    } else if a.scaled() >= whole(1_000).scaled() {
        1_000
    } else {
        1
    }
}

/// The short form of a decimal volume (see `volume_text`): `--` exactly for
/// zero, and a `B`, `M` or `K` at the end exactly from a billion, a million
/// or a thousand on.
pub fn format_volume_decimal(volume: Decimal) -> (r: String)
    requires
        volume.wf(),
    ensures
        volume_text(volume) == Some(r@),
        (r@ == "--"@) <==> volume.mantissa == 0,
        r@.len() > 0,
        (r@.last() == 'B') <==> (volume.mantissa != 0 && volume_unit(volume.abs_spec()) == 1_000_000_000),
        (r@.last() == 'M') <==> (volume.mantissa != 0 && volume_unit(volume.abs_spec()) == 1_000_000),
        (r@.last() == 'K') <==> (volume.mantissa != 0 && volume_unit(volume.abs_spec()) == 1_000),
{
    proof {
        reveal_strlit("--");
        reveal_strlit("B");
        reveal_strlit("M");
        reveal_strlit("K");
    }
    if volume.is_zero() {
        return "--".to_string();
    }
    let a = volume.abs();
    if !decimal_lt(&a, &Decimal::from_u64(1_000_000_000)) {
        unit_text(&a, 1_000_000_000, "B")
    } else if !decimal_lt(&a, &Decimal::from_u64(1_000_000)) {
        unit_text(&a, 1_000_000, "M")
    } else if !decimal_lt(&a, &Decimal::from_u64(1_000)) {
        unit_text(&a, 1_000, "K")
    } else {
        let precision: u32 = if decimal_lt(&a, &Decimal::from_u64(1)) {
            6
        } else {
            2
        };
        let rounded = round_dp(&a, precision);
        let n = normalize(&rounded);
        proof {
            lemma_normalized(rounded);
            lemma_decimal_text_shape(n);
        }
        to_text(&n)
    }
}

/// A volume and its negation are written alike.
pub proof fn lemma_volume_text_sign(v: Decimal, w: Decimal)
    requires
        w.mantissa == -v.mantissa,
        w.scale == v.scale,
    ensures
        volume_text(v) == volume_text(w),
{
    assert(v.abs_spec() == w.abs_spec());
}

} // verus!
