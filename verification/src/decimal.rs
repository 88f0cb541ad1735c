use vstd::prelude::*;

use crate::json::is_digit;

verus! {

/// Largest magnitude of a mantissa: 96 bits.
pub open spec fn max_mantissa() -> int {
    0xFFFF_FFFF_FFFF_FFFF_FFFF_FFFFint
}

/// Largest scale (number of fractional decimal digits).
pub open spec fn max_scale() -> int {
    28
}

pub open spec fn pow10(n: nat) -> int
    decreases n,
{
    if n == 0 {
        1
    } else {
        10 * pow10((n - 1) as nat)
    }
}

pub proof fn lemma_pow10_positive(n: nat)
    ensures
        pow10(n) >= 1,
    decreases n,
{
    if n > 0 {
        lemma_pow10_positive((n - 1) as nat);
    }
}

/// A fixed-point decimal number `mantissa / 10^scale`, held as the plain
/// values that `rust_decimal::Decimal` is made of (`mantissa()`, `scale()`
/// and `is_sign_negative()`). The sign flag is set for numbers below zero,
/// and also for the negative zero that rust_decimal can give.
/// `==` compares the three values: `1.0` and `1` are different representations
/// of one number (see `same_value`).
#[derive(Clone, Copy, Debug, PartialEq, Eq, Structural)]
pub struct Decimal {
    pub mantissa: i128,
    pub scale: u32,
    pub negative: bool,
}

impl Decimal {
    /// The mantissa fits in 96 bits, the scale is at most 28, and a number
    /// other than zero carries the sign of its mantissa.
    pub open spec fn wf(self) -> bool {
        &&& -max_mantissa() <= self.mantissa <= max_mantissa()
        &&& self.scale <= max_scale()
        &&& self.mantissa != 0 ==> self.negative == (self.mantissa < 0)
    }

    /// The value times `10^28`: an exact integer that orders decimals by value.
    pub open spec fn scaled(self) -> int {
        self.mantissa * pow10((max_scale() - self.scale) as nat)
    }

    /// `self` and `other` denote the same number (what `==` on decimals means).
    pub open spec fn same_value(self, other: Decimal) -> bool {
        self.scaled() == other.scaled()
    }

    pub open spec fn abs_spec(self) -> Decimal {
        Decimal {
            mantissa: (if self.mantissa < 0 { -self.mantissa } else { self.mantissa as int }) as i128,
            scale: self.scale,
            negative: false,
        }
    }

    /// `Decimal::from_i128_with_scale`, which panics outside the range; that
    /// range is required here.
    pub fn from_i128_with_scale(mantissa: i128, scale: u32) -> (r: Decimal)
        requires
            -max_mantissa() <= mantissa <= max_mantissa(),
            scale <= max_scale(),
        ensures
            r.wf(),
            r.mantissa == mantissa,
            r.scale == scale,
            r.negative == (mantissa < 0),
    {
        Decimal { mantissa, scale, negative: mantissa < 0 }
    }

    /// `Decimal::ZERO`.
    pub fn zero() -> (r: Decimal)
        ensures
            r.wf(),
            r.mantissa == 0,
            r.scale == 0,
            !r.negative,
    {
        Decimal { mantissa: 0, scale: 0, negative: false }
    }

    /// `Decimal::from` an `i64`.
    pub fn from_i64(v: i64) -> (r: Decimal)
        ensures
            r.wf(),
            r.mantissa == v,
            r.scale == 0,
            r.negative == (v < 0),
    {
        Decimal { mantissa: v as i128, scale: 0, negative: v < 0 }
    }

    /// `Decimal::from` a `u64`.
    pub fn from_u64(v: u64) -> (r: Decimal)
        ensures
            r.wf(),
            r.mantissa == v,
            r.scale == 0,
            !r.negative,
    {
        Decimal { mantissa: v as i128, scale: 0, negative: false }
    }

    pub fn is_zero(&self) -> (r: bool)
        ensures
            r == (self.mantissa == 0),
    {
        self.mantissa == 0
    }

    /// The sign flag: set below zero and for a negative zero.
    pub fn is_sign_negative(&self) -> (r: bool)
        ensures
            r == self.negative,
    {
        self.negative
    }

    /// Whether the number is whole: no fractional digit is non-zero.
    pub open spec fn is_integral_spec(self) -> bool {
        let a = self.mantissa as int;
        (if a >= 0 { a } else { -a }) % pow10(self.scale as nat) == 0
    }

    /// The whole part, truncated toward zero, with scale 0 and the sign flag
    /// kept (what `Decimal::trunc` gives).
    pub open spec fn trunc_spec(self) -> Decimal {
        let p = pow10(self.scale as nat);
        let a = self.mantissa as int;
        let m = if a >= 0 { a / p } else { -((-a) / p) };
        Decimal { mantissa: m as i128, scale: 0, negative: self.negative }
    }

    /// Whether the number is whole (its fractional part is zero).
    pub fn is_integral(&self) -> (r: bool)
        requires
            self.wf(),
        ensures
            r == self.is_integral_spec(),
    {
        let p = pow10_exec(self.scale) as u128;
        let u: u128 = if self.mantissa >= 0 {
            self.mantissa as u128
        } else {
            (-self.mantissa) as u128
        };
        u % p == 0
    }

    /// The whole part, truncated toward zero, with scale 0.
    pub fn trunc(&self) -> (r: Decimal)
        requires
            self.wf(),
        ensures
            r == self.trunc_spec(),
            r.wf(),
    {
        let p = pow10_exec(self.scale);
        proof {
            lemma_pow10_positive(self.scale as nat);
        }
        let m: i128 = if self.mantissa >= 0 {
            self.mantissa / p
        } else {
            -((-self.mantissa) / p)
        };
        proof {
            let a: int = if self.mantissa >= 0 { self.mantissa as int } else { -self.mantissa };
            assert(0 <= a / (p as int) <= a) by (nonlinear_arith)
                requires
                    a >= 0,
                    p >= 1,
            ;
        }
        Decimal { mantissa: m, scale: 0, negative: self.negative }
    }

    /// The text of the number, as `rust_decimal` writes it (its `Display`).
    pub fn to_string(&self) -> (r: String)
        requires
            self.wf(),
        ensures
            r@ == decimal_text(*self),
    {
        to_text(self)
    }

    /// Absolute value: the sign is dropped (a negative zero too), the scale
    /// kept.
    pub fn abs(&self) -> (r: Decimal)
        requires
            self.wf(),
        ensures
            r == self.abs_spec(),
            r.wf(),
    {
        if self.mantissa < 0 {
            Decimal { mantissa: -self.mantissa, scale: self.scale, negative: false }
        } else {
            Decimal { mantissa: self.mantissa, scale: self.scale, negative: false }
        }
    }
}

/// `10^28`, the largest power of ten a scale reaches.
pub proof fn lemma_pow10_28()
    ensures
        pow10(28) == 10_000_000_000_000_000_000_000_000_000int,
{
    reveal_with_fuel(pow10, 29);
}

/// `10^n` for a scale `n`.
pub fn pow10_exec(n: u32) -> (r: i128)
    requires
        n <= max_scale(),
    ensures
        r == pow10(n as nat),
        r >= 1,
{
    proof {
        lemma_pow10_28();
    }
    let mut r: i128 = 1;
    let mut i: u32 = 0;
    while i < n
        invariant
            i <= n <= max_scale(),
            r == pow10(i as nat),
            r >= 1,
            r * pow10((28 - i) as nat) == pow10(28),
            pow10(28) == 10_000_000_000_000_000_000_000_000_000int,
        decreases n - i,
    {
        proof {
            let rest = pow10((27 - i) as nat);
            lemma_pow10_positive((27 - i) as nat);
            assert(pow10((28 - i) as nat) == 10 * rest);
            assert(r * 10 <= pow10(28)) by (nonlinear_arith)
                requires
                    r * (10 * rest) == pow10(28),
                    rest >= 1,
                    r >= 1,
            ;
            assert((r * 10) * rest == pow10(28)) by (nonlinear_arith)
                requires
                    r * (10 * rest) == pow10(28),
            ;
        }
        r = r * 10;
        i = i + 1;
    }
    r
}

// ---------------------------------------------------------------------------
// Operations computed by rust_decimal
// ---------------------------------------------------------------------------

/// The result of `rust_decimal::Decimal::checked_mul`.
pub uninterp spec fn decimal_product(a: Decimal, b: Decimal) -> Option<Decimal>;

/// The result of `rust_decimal::Decimal::checked_add`.
pub uninterp spec fn decimal_sum(a: Decimal, b: Decimal) -> Option<Decimal>;

/// The result of `rust_decimal::Decimal::checked_sub`.
pub uninterp spec fn decimal_difference(a: Decimal, b: Decimal) -> Option<Decimal>;

/// The result of `rust_decimal::Decimal::checked_div`.
pub uninterp spec fn decimal_quotient(a: Decimal, b: Decimal) -> Option<Decimal>;

/// The result of `rust_decimal::Decimal::round_dp` (banker's rounding).
pub uninterp spec fn decimal_rounded(a: Decimal, dp: u32) -> Decimal;

/// What `rust_decimal::Decimal::normalize` gives: zero as a plain `0`;
/// otherwise the trailing zeros of the mantissa dropped, one for each step
/// the scale goes down, while the scale is above zero.
pub open spec fn decimal_normalized(a: Decimal) -> Decimal
    decreases a.scale,
{
    if a.mantissa == 0 {
        Decimal { mantissa: 0, scale: 0, negative: false }
    } else if a.scale > 0 && a.mantissa % 10 == 0 {
        decimal_normalized(Decimal { mantissa: (a.mantissa / 10) as i128, scale: (a.scale - 1) as u32, negative: a.negative })
    } else {
        a
    }
}

/// The digits of a natural number, most significant first; none for zero.
pub open spec fn digits_of(n: nat) -> Seq<char>
    decreases n,
{
    if n == 0 {
        Seq::empty()
    } else {
        digits_of(n / 10).push((48 + n % 10) as char)
    }
}

/// `s` with zeros put in front up to the length `len`.
pub open spec fn zero_padded(s: Seq<char>, len: int) -> Seq<char> {
    if s.len() >= len {
        s
    } else {
        Seq::new((len - s.len()) as nat, |i: int| '0') + s
    }
}

/// The text that `Display` for `rust_decimal::Decimal` writes: the digits of
/// the mantissa's magnitude, padded with zeros to at least `scale` of them,
/// with a point before the last `scale` (and a `0` before a leading point), a
/// lone `0` where there is no digit at all, and `-` in front where the sign
/// flag is set.
pub open spec fn decimal_text(a: Decimal) -> Seq<char> {
    let m: int = if a.mantissa < 0 { -a.mantissa } else { a.mantissa as int };
    let p = zero_padded(digits_of(m as nat), a.scale as int);
    let w = p.len() - a.scale;
    let body = if a.scale == 0 {
        if p.len() == 0 { seq!['0'] } else { p }
    } else {
        (if w == 0 { seq!['0'] } else { p.take(w) }) + seq!['.'] + p.skip(w)
    };
    (if a.negative { seq!['-'] } else { Seq::empty() }) + body
}

/// The form of a decimal's text: not empty, made of digits and points, with a
/// `-` allowed in front only, and ending in a digit.
pub open spec fn decimal_text_shape(t: Seq<char>) -> bool {
    &&& t.len() > 0
    &&& is_digit(t.last())
    &&& forall|i: int| 0 <= i < t.len() ==> is_digit(#[trigger] t[i]) || t[i] == '.' || (i == 0 && t[i] == '-')
}

/// The result of parsing a string with `rust_decimal::Decimal::from_str`.
pub uninterp spec fn decimal_parsed(s: Seq<char>) -> Option<Decimal>;

proof fn lemma_digits_are_digits(n: nat)
    ensures
        forall|i: int| 0 <= i < digits_of(n).len() ==> is_digit(#[trigger] digits_of(n)[i]),
    decreases n,
{
    if n > 0 {
        lemma_digits_are_digits(n / 10);
        let k: nat = 48 + n % 10;
        assert(48 <= k <= 57);
        assert((k as char) as int == k);
        assert(is_digit(k as char));
        assert(digits_of(n) == digits_of(n / 10).push(k as char));
    }
}

/// The text of a decimal has the form `decimal_text_shape`, and starts with
/// `-` exactly where the sign flag is set.
pub proof fn lemma_decimal_text_shape(a: Decimal)
    ensures
        decimal_text_shape(decimal_text(a)),
        (decimal_text(a)[0] == '-') == a.negative,
{
    let m: int = if a.mantissa < 0 { -a.mantissa } else { a.mantissa as int };
    let d = digits_of(m as nat);
    lemma_digits_are_digits(m as nat);
    let p = zero_padded(d, a.scale as int);
    assert forall|i: int| 0 <= i < p.len() implies is_digit(#[trigger] p[i]) by {
        if d.len() < a.scale {
            let z = Seq::new((a.scale - d.len()) as nat, |j: int| '0');
            assert(p == z + d);
            if i >= z.len() {
                assert(p[i] == d[i - z.len()]);
            }
        }
    }
    let w = p.len() - a.scale;
    assert(p.len() >= a.scale);
    let body = if a.scale == 0 {
        if p.len() == 0 { seq!['0'] } else { p }
    } else {
        (if w == 0 { seq!['0'] } else { p.take(w) }) + seq!['.'] + p.skip(w)
    };
    let sign: Seq<char> = if a.negative { seq!['-'] } else { Seq::empty() };
    let t = decimal_text(a);
    assert(t == sign + body);
    assert(body.len() > 0);
    assert(is_digit(body.last()));
    assert(forall|i: int| 0 <= i < body.len() ==> is_digit(#[trigger] body[i]) || body[i] == '.');
    assert(is_digit(body[0]));
    assert forall|i: int| 0 <= i < t.len() implies is_digit(#[trigger] t[i]) || t[i] == '.' || (i == 0
        && t[i] == '-') by {
        if i >= sign.len() {
            assert(t[i] == body[i - sign.len()]);
        }
    }
    assert(t.last() == body.last());
}

/// Normalizing keeps a decimal well formed and the number it denotes, and
/// leaves no negative zero.
pub proof fn lemma_normalized(a: Decimal)
    requires
        a.wf(),
    ensures
        decimal_normalized(a).wf(),
        decimal_normalized(a).same_value(a),
        decimal_normalized(a).mantissa == 0 ==> !decimal_normalized(a).negative,
    decreases a.scale,
{
    if a.mantissa == 0 {
    } else if a.scale > 0 && a.mantissa % 10 == 0 {
        let m = a.mantissa as int;
        let b = Decimal { mantissa: (a.mantissa / 10) as i128, scale: (a.scale - 1) as u32, negative: a.negative };
        assert(m == 10 * (m / 10));
        assert(b.mantissa as int == m / 10);
        assert(b.mantissa != 0);
        assert(b.mantissa < 0 <==> m < 0);
        assert(-max_mantissa() <= m / 10 <= max_mantissa());
        assert(b.wf());
        let e = (max_scale() - a.scale) as nat;
        assert((max_scale() - b.scale) as nat == e + 1);
        assert(pow10(e + 1) == 10 * pow10(e));
        assert(b.scaled() == (m / 10) * pow10(e + 1));
        assert((m / 10) * (10 * pow10(e)) == (10 * (m / 10)) * pow10(e)) by (nonlinear_arith);
        assert(b.scaled() == a.scaled());
        lemma_normalized(b);
    }
}

/// Calls `PartialOrd::lt` of `rust_decimal::Decimal`, which compares the numbers
/// the two decimals denote, whatever their scales.
#[verifier::external_body]
pub(crate) fn decimal_lt(a: &Decimal, b: &Decimal) -> (r: bool)
    requires
        a.wf(),
        b.wf(),
    ensures
        r == (a.scaled() < b.scaled()),
{
    let mut x = rust_decimal::Decimal::from_i128_with_scale(a.mantissa, a.scale);
    x.set_sign_negative(a.negative);
    let mut y = rust_decimal::Decimal::from_i128_with_scale(b.mantissa, b.scale);
    y.set_sign_negative(b.negative);
    x < y
}

/// Calls `rust_decimal::Decimal::checked_mul`; every decimal it gives back is
/// well formed, the rest is the name `decimal_product`.
#[verifier::external_body]
pub(crate) fn checked_mul(a: &Decimal, b: &Decimal) -> (r: Option<Decimal>)
    requires
        a.wf(),
        b.wf(),
    ensures
        r == decimal_product(*a, *b),
        r matches Some(d) ==> d.wf(),
{
    let mut x = rust_decimal::Decimal::from_i128_with_scale(a.mantissa, a.scale);
    x.set_sign_negative(a.negative);
    let mut y = rust_decimal::Decimal::from_i128_with_scale(b.mantissa, b.scale);
    y.set_sign_negative(b.negative);
    x.checked_mul(y).map(|d| Decimal { mantissa: d.mantissa(), scale: d.scale(), negative: d.is_sign_negative() })
}

/// Calls `rust_decimal::Decimal::checked_add`; every decimal it gives back is
/// well formed, the rest is the name `decimal_sum`.
#[verifier::external_body]
pub(crate) fn checked_add(a: &Decimal, b: &Decimal) -> (r: Option<Decimal>)
    requires
        a.wf(),
        b.wf(),
    ensures
        r == decimal_sum(*a, *b),
        r matches Some(d) ==> d.wf(),
{
    let mut x = rust_decimal::Decimal::from_i128_with_scale(a.mantissa, a.scale);
    x.set_sign_negative(a.negative);
    let mut y = rust_decimal::Decimal::from_i128_with_scale(b.mantissa, b.scale);
    y.set_sign_negative(b.negative);
    x.checked_add(y).map(|d| Decimal { mantissa: d.mantissa(), scale: d.scale(), negative: d.is_sign_negative() })
}

/// Calls `rust_decimal::Decimal::checked_sub`; every decimal it gives back is
/// well formed, the rest is the name `decimal_difference`.
#[verifier::external_body]
pub(crate) fn checked_sub(a: &Decimal, b: &Decimal) -> (r: Option<Decimal>)
    requires
        a.wf(),
        b.wf(),
    ensures
        r == decimal_difference(*a, *b),
        r matches Some(d) ==> d.wf(),
{
    let mut x = rust_decimal::Decimal::from_i128_with_scale(a.mantissa, a.scale);
    x.set_sign_negative(a.negative);
    let mut y = rust_decimal::Decimal::from_i128_with_scale(b.mantissa, b.scale);
    y.set_sign_negative(b.negative);
    x.checked_sub(y).map(|d| Decimal { mantissa: d.mantissa(), scale: d.scale(), negative: d.is_sign_negative() })
}

/// Calls `rust_decimal::Decimal::checked_div`; it gives `None` for a zero
/// divisor, and fails otherwise only where the quotient's whole part does not
/// fit in 96 bits, so never for a divisor of magnitude at least one. Every
/// decimal it gives back is well formed; the rest is the name
/// `decimal_quotient`.
#[verifier::external_body]
pub(crate) fn checked_div(a: &Decimal, b: &Decimal) -> (r: Option<Decimal>)
    requires
        a.wf(),
        b.wf(),
    ensures
        r == decimal_quotient(*a, *b),
        b.mantissa == 0 ==> r is None,
        b.abs_spec().scaled() >= pow10(max_scale() as nat) ==> r is Some,
        r matches Some(d) ==> d.wf(),
{
    let mut x = rust_decimal::Decimal::from_i128_with_scale(a.mantissa, a.scale);
    x.set_sign_negative(a.negative);
    let mut y = rust_decimal::Decimal::from_i128_with_scale(b.mantissa, b.scale);
    y.set_sign_negative(b.negative);
    x.checked_div(y).map(|d| Decimal { mantissa: d.mantissa(), scale: d.scale(), negative: d.is_sign_negative() })
}

/// Calls `rust_decimal::Decimal::round_dp`; the result is well formed and is
/// the name `decimal_rounded`.
#[verifier::external_body]
pub(crate) fn round_dp(a: &Decimal, dp: u32) -> (r: Decimal)
    requires
        a.wf(),
    ensures
        r == decimal_rounded(*a, dp),
        r.wf(),
{
    let mut x = rust_decimal::Decimal::from_i128_with_scale(a.mantissa, a.scale);
    x.set_sign_negative(a.negative);
    let d = x.round_dp(dp);
    Decimal { mantissa: d.mantissa(), scale: d.scale(), negative: d.is_sign_negative() }
}

/// Calls `rust_decimal::Decimal::normalize`; the result is
/// `decimal_normalized` of the argument (see `lemma_normalized` for what
/// follows from that).
#[verifier::external_body]
pub(crate) fn normalize(a: &Decimal) -> (r: Decimal)
    requires
        a.wf(),
    ensures
        r == decimal_normalized(*a),
{
    let mut x = rust_decimal::Decimal::from_i128_with_scale(a.mantissa, a.scale);
    x.set_sign_negative(a.negative);
    let d = x.normalize();
    Decimal { mantissa: d.mantissa(), scale: d.scale(), negative: d.is_sign_negative() }
}

/// Calls `ToString::to_string` on a `rust_decimal::Decimal`, whose `Display`
/// writes the text that `decimal_text` describes (no width or precision is
/// asked for).
#[verifier::external_body]
pub(crate) fn to_text(a: &Decimal) -> (r: String)
    requires
        a.wf(),
    ensures
        r@ == decimal_text(*a),
{
    let mut x = rust_decimal::Decimal::from_i128_with_scale(a.mantissa, a.scale);
    x.set_sign_negative(a.negative);
    x.to_string()
}

/// Calls `str::parse::<rust_decimal::Decimal>`; the result is the name
/// `decimal_parsed`, and every decimal it gives back is well formed.
#[verifier::external_body]
pub(crate) fn parse_decimal(s: &str) -> (r: Option<Decimal>)
    ensures
        r == decimal_parsed(s@),
        r matches Some(d) ==> d.wf(),
{
    s.parse::<rust_decimal::Decimal>().ok().map(|d| Decimal { mantissa: d.mantissa(), scale: d.scale(), negative: d.is_sign_negative() })
}

} // verus!
