use vstd::prelude::*;

use crate::text::{
    chars_of, contains_chars, contains_seq, lower_chars, lower_seq, string_from_chars, trim_chars,
    trim_seq,
};

verus! {

/// A JSON number as `serde_json::Number` reports it: as an `i64` where it is
/// one, as a `u64` where it is one, and the text it is written as.
#[derive(Clone, Debug)]
pub struct JsonNumber {
    pub as_i64: Option<i64>,
    pub as_u64: Option<u64>,
    pub text: String,
}

/// A JSON value. Arrays and objects carry, besides their items, the text that
/// `serde_json` writes for them.
#[derive(Debug)]
pub enum JsonValue {
    Null,
    Bool(bool),
    Number(JsonNumber),
    String(String),
    Array(Vec<JsonValue>, String),
    Object(Vec<(String, JsonValue)>, String),
}

// ---------------------------------------------------------------------------
// Flags that mark a margin pool
// ---------------------------------------------------------------------------

/// A string that, trimmed and lower-cased, is one of the words that mean yes.
pub open spec fn truthy_text(s: Seq<char>) -> bool {
    let t = lower_seq(trim_seq(s));
    t == "true"@ || t == "1"@ || t == "yes"@ || t == "y"@ || t == "margin"@
}

/// Whether a flag reads as set: `true`, a non-zero integer, or a word that
/// means yes.
pub open spec fn truthy(v: JsonValue) -> bool {
    match v {
        JsonValue::Bool(b) => b,
        JsonValue::Number(n) => n.as_i64 is Some && n.as_i64->0 != 0,
        JsonValue::String(s) => truthy_text(s@),
        _ => false,
    }
}

/// A string that, trimmed and lower-cased, holds `margin`.
pub open spec fn margin_text(s: Seq<char>) -> bool {
    contains_seq(lower_seq(trim_seq(s)), "margin"@)
}

/// Whether a string anywhere in a value (an item of an array, a value of an
/// object, at any depth) holds `margin`.
pub open spec fn contains_margin(v: JsonValue) -> bool
    decreases v,
{
    match v {
        JsonValue::String(s) => margin_text(s@),
        JsonValue::Array(items, _) => items_contain_margin(items@),
        JsonValue::Object(entries, _) => entries_contain_margin(entries@),
        _ => false,
    }
}

pub open spec fn items_contain_margin(vs: Seq<JsonValue>) -> bool
    decreases vs,
{
    if vs.len() == 0 {
        false
    } else {
        contains_margin(vs[0]) || items_contain_margin(vs.drop_first())
    }
}

pub open spec fn entries_contain_margin(es: Seq<(String, JsonValue)>) -> bool
    decreases es,
{
    if es.len() == 0 {
        false
    } else {
        contains_margin(es[0].1) || entries_contain_margin(es.drop_first())
    }
}

fn equals_text(t: &Vec<char>, word: &str) -> (r: bool)
    ensures
        r == (t@ == word@),
{
    let w = chars_of(word);
    crate::text::eq_chars(t, &w)
}

/// Whether a flag value reads as set.
pub fn value_truthy(value: &JsonValue) -> (r: bool)
    ensures
        r == truthy(*value),
{
    match value {
        JsonValue::Bool(b) => *b,
        JsonValue::Number(n) => match n.as_i64 {
            Some(i) => i != 0,
            None => false,
        },
        JsonValue::String(s) => {
            let v = chars_of(s.as_str());
            let t = lower_chars(&trim_chars(&v));
            equals_text(&t, "true") || equals_text(&t, "1") || equals_text(&t, "yes")
                || equals_text(&t, "y") || equals_text(&t, "margin")
        },
        _ => false,
    }
}

fn text_has_margin(s: &String) -> (r: bool)
    ensures
        r == margin_text(s@),
{
    let v = chars_of(s.as_str());
    let t = lower_chars(&trim_chars(&v));
    let m = chars_of("margin");
    contains_chars(&t, &m)
}

/// Whether a string anywhere in the value holds `margin`.
pub fn value_contains_margin(value: &JsonValue) -> (r: bool)
    ensures
        r == contains_margin(*value),
    decreases value,
{
    match value {
        JsonValue::String(s) => text_has_margin(s),
        JsonValue::Array(items, text) => {
            let mut i: usize = 0;
            assert(items@.skip(0) =~= items@);
            while i < items.len()
                invariant
                    i <= items.len(),
                    *value == JsonValue::Array(*items, *text),
                    contains_margin(*value) == items_contain_margin(items@),
                    items_contain_margin(items@) == items_contain_margin(items@.skip(i as int)),
                decreases items.len() - i,
            {
                assert(items@.skip(i as int).drop_first() =~= items@.skip(i + 1));
                proof {
                    assert(decreases_to!(*value => items@[i as int]));
                }
                if value_contains_margin(&items[i]) {
                    return true;
                }
                i = i + 1;
            }
            false
        },
        JsonValue::Object(entries, text) => {
            let mut i: usize = 0;
            assert(entries@.skip(0) =~= entries@);
            while i < entries.len()
                invariant
                    i <= entries.len(),
                    *value == JsonValue::Object(*entries, *text),
                    contains_margin(*value) == entries_contain_margin(entries@),
                    entries_contain_margin(entries@) == entries_contain_margin(entries@.skip(i as int)),
                decreases entries.len() - i,
            {
                assert(entries@.skip(i as int).drop_first() =~= entries@.skip(i + 1));
                proof {
                    assert(decreases_to!(*value => entries@[i as int].1));
                }
                if value_contains_margin(&entries[i].1) {
                    return true;
                }
                i = i + 1;
            }
            false
        },
        _ => false,
    }
}

// ---------------------------------------------------------------------------
// Integers written as text
// ---------------------------------------------------------------------------

pub open spec fn is_digit(c: char) -> bool {
    '0' <= c && c <= '9'
}

/// The value of a string of decimal digits.
pub open spec fn digits_value(s: Seq<char>) -> int
    decreases s.len(),
{
    if s.len() == 0 {
        0
    } else {
        digits_value(s.drop_last()) * 10 + (s.last() as int - '0' as int)
    }
}

/// Whether the text starts with a `-` that Rust's integer `from_str` reads as
/// a sign (for a signed type only).
pub open spec fn int_negative(s: Seq<char>, signed: bool) -> bool {
    signed && s.len() > 0 && s[0] == '-'
}

/// The text after the sign that Rust's integer `from_str` accepts: an
/// optional `+` (or, for a signed type, `-`).
pub open spec fn int_body(s: Seq<char>, signed: bool) -> Seq<char> {
    if s.len() > 0 && (s[0] == '+' || int_negative(s, signed)) {
        s.drop_first()
    } else {
        s
    }
}

/// The integer a text denotes as Rust's integer `from_str` reads it: an
/// optional `+` (or, for a signed type, `-`) followed by one or more ASCII
/// digits, and nothing else.
pub open spec fn int_text(s: Seq<char>, signed: bool) -> Option<int> {
    let body = int_body(s, signed);
    if body.len() > 0 && (forall|i: int| 0 <= i < body.len() ==> is_digit(#[trigger] body[i])) {
        Some(if int_negative(s, signed) { -digits_value(body) } else { digits_value(body) })
    } else {
        None
    }
}

/// A magnitude beyond every 64-bit integer.
pub open spec fn beyond_64_bits() -> int {
    0x1_0000_0000_0000_0000
}

proof fn lemma_digits_value_prefix(s: Seq<char>, i: int)
    requires
        0 <= i <= s.len(),
        forall|j: int| 0 <= j < s.len() ==> is_digit(#[trigger] s[j]),
    ensures
        0 <= digits_value(s.take(i)) <= digits_value(s),
    decreases s.len(),
{
    if s.len() > 0 {
        let t = s.drop_last();
        assert forall|j: int| 0 <= j < t.len() implies is_digit(#[trigger] t[j]) by {
            assert(t[j] == s[j]);
        }
        if i < s.len() {
            lemma_digits_value_prefix(t, i);
            assert(t.take(i) == s.take(i));
        } else {
            lemma_digits_value_prefix(t, t.len() as int);
            assert(t.take(t.len() as int) == t);
            assert(s.take(i) == s);
        }
    } else {
        assert(s.take(i) == s);
    }
}

/// Reads a text as Rust's integer `from_str` does: `None` where it is no
/// integer; else whether it is negative, and its magnitude where that is at
/// most `beyond_64_bits`, something larger otherwise.
fn read_int(s: &str, signed: bool) -> (r: Option<(bool, u128)>)
    ensures
        r is None <==> int_text(s@, signed) is None,
        r matches Some((neg, m)) ==> {
            &&& neg == int_negative(s@, signed)
            &&& m <= beyond_64_bits() ==> m == digits_value(int_body(s@, signed))
            &&& m > beyond_64_bits() ==> digits_value(int_body(s@, signed)) > beyond_64_bits()
        },
{
    let v = chars_of(s);
    let neg = signed && v.len() > 0 && v[0] == '-';
    let start: usize = if v.len() > 0 && (v[0] == '+' || neg) { 1 } else { 0 };
    let ghost body = int_body(s@, signed);
    assert(body == v@.skip(start as int));
    if start >= v.len() {
        return None;
    }
    let mut i: usize = start;
    while i < v.len()
        invariant
            start <= i <= v.len(),
            body == v@.skip(start as int),
            body == int_body(s@, signed),
            forall|j: int| start <= j < i ==> is_digit(#[trigger] v@[j]),
        decreases v.len() - i,
    {
        if !('0' <= v[i] && v[i] <= '9') {
            assert(body[i - start] == v@[i as int]);
            assert(!is_digit(body[i - start]));
            assert(!(forall|j: int| 0 <= j < body.len() ==> is_digit(#[trigger] body[j])));
            return None;
        }
        i = i + 1;
    }
    assert forall|j: int| 0 <= j < body.len() implies is_digit(#[trigger] body[j]) by {
        assert(body[j] == v@[j + start]);
    }
    let mut m: u128 = 0;
    let mut k: usize = start;
    while k < v.len()
        invariant
            start <= k <= v.len(),
            body == v@.skip(start as int),
            body == int_body(s@, signed),
            neg == int_negative(s@, signed),
            forall|j: int| 0 <= j < body.len() ==> is_digit(#[trigger] body[j]),
            m == digits_value(body.take(k - start)),
            m <= beyond_64_bits(),
        decreases v.len() - k,
    {
        assert(body[k - start] == v@[k as int]);
        assert(is_digit(body[k - start]));
        let d = (v[k] as u32 - '0' as u32) as u128;
        assert(body.take(k - start + 1).drop_last() == body.take(k - start));
        let next = m * 10 + d;
        assert(next == digits_value(body.take(k - start + 1)));
        if next > 0x1_0000_0000_0000_0000 {
            proof {
                lemma_digits_value_prefix(body, k - start + 1);
                assert(body.len() > 0);
            }
            return Some((neg, next));
        }
        m = next;
        k = k + 1;
    }
    assert(body.take(body.len() as int) == body);
    Some((neg, m))
}

/// What `str::parse::<i64>` gives: the integer the text denotes, where it
/// fits.
pub open spec fn parse_i64_spec(s: Seq<char>) -> Option<i64> {
    match int_text(s, true) {
        Some(v) => if i64::MIN <= v <= i64::MAX {
            Some(v as i64)
        } else {
            None
        },
        None => None,
    }
}

/// What `str::parse::<u64>` gives: the integer the text denotes, where it
/// fits.
pub open spec fn parse_u64_spec(s: Seq<char>) -> Option<u64> {
    match int_text(s, false) {
        Some(v) => if 0 <= v <= u64::MAX {
            Some(v as u64)
        } else {
            None
        },
        None => None,
    }
}

/// Reads an `i64` as `str::parse::<i64>` does (see `parse_i64_spec`).
pub fn parse_i64(s: &str) -> (r: Option<i64>)
    ensures
        r == parse_i64_spec(s@),
{
    match read_int(s, true) {
        None => None,
        Some((neg, m)) => {
            if neg {
                if m <= 0x8000_0000_0000_0000 {
                    if m == 0x8000_0000_0000_0000 {
                        Some(i64::MIN)
                    } else {
                        Some(-(m as i64))
                    }
                } else {
                    None
                }
            } else if m <= 0x7FFF_FFFF_FFFF_FFFF {
                Some(m as i64)
            } else {
                None
            }
        },
    }
}

/// Reads a `u64` as `str::parse::<u64>` does (see `parse_u64_spec`).
pub fn parse_u64(s: &str) -> (r: Option<u64>)
    ensures
        r == parse_u64_spec(s@),
{
    match read_int(s, false) {
        None => None,
        Some((_, m)) => if m <= 0xFFFF_FFFF_FFFF_FFFF {
            Some(m as u64)
        } else {
            None
        },
    }
}

/// The text with surrounding white space removed.
pub fn trimmed(s: &str) -> (r: String)
    ensures
        r@ == trim_seq(s@),
{
    string_from_chars(&trim_chars(&chars_of(s)))
}

// ---------------------------------------------------------------------------
// Fields given as a number or as a string
// ---------------------------------------------------------------------------

/// Why a field could not be read.
#[derive(Clone, Copy, Debug, PartialEq, Eq, Structural)]
pub enum FieldError {
    /// A number that is not an integer of the type.
    NotAnInteger,
    /// A string that does not read as an integer of the type.
    InvalidInteger,
    /// Neither a number, nor a string, nor null.
    WrongType,
}

/// How an integer field reads: a number as an `i64`, a trimmed string parsed,
/// null as zero.
pub open spec fn i64_field(v: JsonValue) -> Result<i64, FieldError> {
    match v {
        JsonValue::Number(n) => match n.as_i64 {
            Some(i) => Ok(i),
            None => Err(FieldError::NotAnInteger),
        },
        JsonValue::String(s) => match parse_i64_spec(trim_seq(s@)) {
            Some(i) => Ok(i),
            None => Err(FieldError::InvalidInteger),
        },
        JsonValue::Null => Ok(0),
        _ => Err(FieldError::WrongType),
    }
}

/// How a non-negative integer field reads: a number as a `u64` (or a
/// non-negative `i64`), a trimmed string parsed, null as zero.
pub open spec fn u64_field(v: JsonValue) -> Result<u64, FieldError> {
    match v {
        JsonValue::Number(n) => match n.as_u64 {
            Some(u) => Ok(u),
            None => match n.as_i64 {
                Some(i) => if i >= 0 {
                    Ok(i as u64)
                } else {
                    Err(FieldError::NotAnInteger)
                },
                None => Err(FieldError::NotAnInteger),
            },
        },
        JsonValue::String(s) => match parse_u64_spec(trim_seq(s@)) {
            Some(u) => Ok(u),
            None => Err(FieldError::InvalidInteger),
        },
        JsonValue::Null => Ok(0),
        _ => Err(FieldError::WrongType),
    }
}

/// How a text field reads: a string as it is, a number as it is written,
/// null as the empty text, anything else as the JSON written for it.
pub open spec fn string_field(v: JsonValue) -> Seq<char> {
    match v {
        JsonValue::String(s) => s@,
        JsonValue::Number(n) => n.text@,
        JsonValue::Null => Seq::empty(),
        JsonValue::Bool(b) => if b {
            "true"@
        } else {
            "false"@
        },
        JsonValue::Array(_, t) => t@,
        JsonValue::Object(_, t) => t@,
    }
}

/// Reads an `i64` field given as a number or as a string.
pub fn i64_from_number_or_string(value: &JsonValue) -> (r: Result<i64, FieldError>)
    ensures
        r == i64_field(*value),
{
    match value {
        JsonValue::Number(n) => match n.as_i64 {
            Some(i) => Ok(i),
            None => Err(FieldError::NotAnInteger),
        },
        JsonValue::String(s) => {
            let t = trimmed(s.as_str());
            match parse_i64(t.as_str()) {
                Some(i) => Ok(i),
                None => Err(FieldError::InvalidInteger),
            }
        },
        JsonValue::Null => Ok(0),
        _ => Err(FieldError::WrongType),
    }
}

/// Reads a `u64` field given as a number or as a string.
pub fn u64_from_number_or_string(value: &JsonValue) -> (r: Result<u64, FieldError>)
    ensures
        r == u64_field(*value),
{
    match value {
        JsonValue::Number(n) => match n.as_u64 {
            Some(u) => Ok(u),
            None => match n.as_i64 {
                Some(i) => if i >= 0 {
                    Ok(i as u64)
                } else {
                    Err(FieldError::NotAnInteger)
                },
                None => Err(FieldError::NotAnInteger),
            },
        },
        JsonValue::String(s) => {
            let t = trimmed(s.as_str());
            match parse_u64(t.as_str()) {
                Some(u) => Ok(u),
                None => Err(FieldError::InvalidInteger),
            }
        },
        JsonValue::Null => Ok(0),
        _ => Err(FieldError::WrongType),
    }
}

/// Reads a text field given as a number or as a string.
pub fn string_from_number_or_string(value: &JsonValue) -> (r: String)
    ensures
        r@ == string_field(*value),
{
    proof {
        reveal_strlit("true");
        reveal_strlit("false");
    }
    match value {
        JsonValue::String(s) => s.clone(),
        JsonValue::Number(n) => n.text.clone(),
        JsonValue::Null => String::new(),
        JsonValue::Bool(b) => if *b {
            "true".to_string()
        } else {
            "false".to_string()
        },
        JsonValue::Array(_, t) => t.clone(),
        JsonValue::Object(_, t) => t.clone(),
    }
}

} // verus!
