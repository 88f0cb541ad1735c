use vstd::prelude::*;

use crate::decimal::{
    checked_div, checked_mul, checked_sub, decimal_difference, decimal_lt, decimal_product, decimal_quotient,
    decimal_rounded, decimal_text, round_dp, to_text, Decimal,
};
use crate::text::push_str;
use crate::types::QuoteData;

verus! {

/// Whether a price moved up, down or not at all.
#[derive(Clone, Copy, Debug, PartialEq, Eq, Structural)]
pub enum Trend {
    Down,
    Flat,
    Up,
}

pub open spec fn zero_decimal() -> Decimal {
    Decimal { mantissa: 0, scale: 0, negative: false }
}

/// Every price of the quote is a well-formed decimal.
pub open spec fn quote_wf(q: QuoteData) -> bool {
    &&& q.last_done matches Some(d) ==> d.wf()
    &&& q.prev_close matches Some(d) ==> d.wf()
    &&& q.open matches Some(d) ==> d.wf()
}

/// The first price where there is one, else the second.
pub open spec fn either(a: Option<Decimal>, b: Option<Decimal>) -> Option<Decimal> {
    if a is Some {
        a
    } else {
        b
    }
}

/// A price, kept only where it is above zero.
pub open spec fn above_zero(p: Option<Decimal>) -> Option<Decimal> {
    match p {
        Some(d) => if d.mantissa > 0 {
            Some(d)
        } else {
            None
        },
        None => None,
    }
}

/// The price a watchlist shows: the last price, else the previous close,
/// where above zero; zero otherwise.
pub open spec fn shown_price(q: QuoteData) -> Decimal {
    match above_zero(either(q.last_done, q.prev_close)) {
        Some(p) => p,
        None => zero_decimal(),
    }
}

/// The change since the previous close and its percentage with two decimals,
/// where both the current price (the last, else the open) and the previous
/// close are above zero; zeros otherwise. `None` where the arithmetic
/// overflows.
pub open spec fn price_change(q: QuoteData) -> Option<(Decimal, Decimal)> {
    match (above_zero(either(q.last_done, q.open)), above_zero(q.prev_close)) {
        (Some(price), Some(prev)) => match decimal_difference(price, prev) {
            Some(inc) => match decimal_quotient(inc, prev) {
                Some(ratio) => match decimal_product(ratio, Decimal { mantissa: 100, scale: 0, negative: false }) {
                    Some(pct) => Some((inc, decimal_rounded(pct, 2))),
                    None => None,
                },
                None => None,
            },
            None => None,
        },
        _ => Some((zero_decimal(), zero_decimal())),
    }
}

/// The text of a percentage change: `-` where the change carries the sign
/// flag (below zero, or a negative zero), the
/// percentage without sign (as a whole number where it is one), then `%`.
pub open spec fn change_text(inc: Decimal, pct: Decimal) -> Seq<char> {
    let sign = if !inc.negative { Seq::<char>::empty() } else { "-"@ };
    let a = pct.abs_spec();
    let digits = if pct.is_integral_spec() { decimal_text(a.trunc_spec()) } else { decimal_text(a) };
    sign + digits + "%"@
}

/// The trend of a change, by its sign (a negative zero reads as down).
pub open spec fn trend_of(d: Decimal) -> Trend {
    if d.negative {
        Trend::Down
    } else if d.mantissa == 0 {
        Trend::Flat
    } else {
        Trend::Up
    }
}

/// The trend a selected row is highlighted with: the shown price against the
/// previous close, where both are above zero; flat otherwise.
pub open spec fn highlight_trend(q: QuoteData) -> Trend {
    match (above_zero(either(q.last_done, q.prev_close)), above_zero(q.prev_close)) {
        (Some(p), Some(c)) => if p.scaled() < c.scaled() {
            Trend::Down
        } else if p.scaled() == c.scaled() {
            Trend::Flat
        } else {
            Trend::Up
        },
        _ => Trend::Flat,
    }
}

/// The figures of a watchlist row.
#[derive(Debug)]
pub struct WatchRow {
    pub price: Decimal,
    pub change: Decimal,
    pub change_text: String,
    pub trend: Trend,
}

fn pick(a: Option<Decimal>, b: Option<Decimal>) -> (r: Option<Decimal>)
    ensures
        r == either(a, b),
{
    if a.is_some() {
        a
    } else {
        b
    }
}

fn keep_above_zero(p: Option<Decimal>) -> (r: Option<Decimal>)
    ensures
        r == above_zero(p),
{
    match p {
        Some(d) => if d.mantissa > 0 {
            Some(d)
        } else {
            None
        },
        None => None,
    }
}

/// The figures a watchlist row shows for a pool's quote: the price, the
/// change, its text and its trend. `None` where the change overflows.
pub fn watch_row(q: &QuoteData) -> (r: Option<WatchRow>)
    requires
        quote_wf(*q),
    ensures
        r is None <==> price_change(*q) is None,
        r matches Some(row) ==> {
            &&& row.price == shown_price(*q)
            &&& price_change(*q) matches Some((c, p)) && {
                &&& row.change == c
                &&& row.change_text@ == change_text(c, p)
                &&& row.trend == trend_of(c)
            }
        },
{
    proof {
        reveal_strlit("-");
        reveal_strlit("%");
    }
    let price = match keep_above_zero(pick(q.last_done, q.prev_close)) {
        Some(p) => p,
        None => Decimal::zero(),
    };
    let (inc, pct) = match (keep_above_zero(pick(q.last_done, q.open)), keep_above_zero(q.prev_close)) {
        (Some(current), Some(prev)) => {
            let inc = match checked_sub(&current, &prev) {
                Some(d) => d,
                None => return None,
            };
            let ratio = match checked_div(&inc, &prev) {
                Some(d) => d,
                None => return None,
            };
            let hundred = Decimal::from_i64(100);
            let pct = match checked_mul(&ratio, &hundred) {
                Some(d) => d,
                None => return None,
            };
            (inc, round_dp(&pct, 2))
        },
        _ => (Decimal::zero(), Decimal::zero()),
    };
    let mut text = if !inc.is_sign_negative() {
        String::new()
    } else {
        "-".to_string()
    };
    let a = pct.abs();
    let digits = if pct.is_integral() {
        to_text(&a.trunc())
    } else {
        to_text(&a)
    };
    push_str(&mut text, digits.as_str());
    push_str(&mut text, "%");
    let trend = if inc.is_sign_negative() {
        Trend::Down
    } else if inc.mantissa == 0 {
        Trend::Flat
    } else {
        Trend::Up
    };
    Some(WatchRow { price, change: inc, change_text: text, trend })
}

/// The trend a selected row is highlighted with (see `highlight_trend`).
pub fn row_highlight(q: &QuoteData) -> (r: Trend)
    requires
        quote_wf(*q),
    ensures
        r == highlight_trend(*q),
{
    match (keep_above_zero(pick(q.last_done, q.prev_close)), keep_above_zero(q.prev_close)) {
        (Some(p), Some(c)) => if decimal_lt(&p, &c) {
            Trend::Down
        } else if decimal_lt(&c, &p) {
            Trend::Up
        } else {
            Trend::Flat
        },
        _ => Trend::Flat,
    }
}

// ---------------------------------------------------------------------------
// Figures of the pool screen
// ---------------------------------------------------------------------------

/// The order of two prices by value.
pub open spec fn compare(p: Decimal, q: Decimal) -> Trend {
    if p.scaled() < q.scaled() {
        Trend::Down
    } else if p.scaled() == q.scaled() {
        Trend::Flat
    } else {
        Trend::Up
    }
}

fn compare_prices(p: &Decimal, q: &Decimal) -> (r: Trend)
    requires
        p.wf(),
        q.wf(),
    ensures
        r == compare(*p, *q),
{
    if decimal_lt(p, q) {
        Trend::Down
    } else if decimal_lt(q, p) {
        Trend::Up
    } else {
        Trend::Flat
    }
}

/// What the title of the pool screen shows of the price.
#[derive(Clone, Copy, Debug, PartialEq, Eq, Structural)]
pub enum HeaderFigures {
    /// No price above zero.
    Empty,
    /// A price, but no previous close to compare it with.
    PriceOnly(Decimal),
    /// The price, its change since the previous close, and that change as a
    /// fraction of the previous close.
    Change(Decimal, Decimal, Decimal),
}

/// The title's figures: the shown price (the last, else the previous close)
/// against the previous close, where both are above zero. `None` where the
/// arithmetic overflows.
pub open spec fn header_figures_spec(q: QuoteData) -> Option<HeaderFigures> {
    match (above_zero(either(q.last_done, q.prev_close)), above_zero(q.prev_close)) {
        (Some(price), Some(prev)) => match decimal_difference(price, prev) {
            Some(inc) => match decimal_quotient(inc, prev) {
                Some(ratio) => Some(HeaderFigures::Change(price, inc, ratio)),
                None => None,
            },
            None => None,
        },
        (Some(price), None) => Some(HeaderFigures::PriceOnly(price)),
        _ => Some(HeaderFigures::Empty),
    }
}

/// The title's figures (see `header_figures_spec`).
pub fn header_figures(q: &QuoteData) -> (r: Option<HeaderFigures>)
    requires
        quote_wf(*q),
    ensures
        r == header_figures_spec(*q),
{
    match (keep_above_zero(pick(q.last_done, q.prev_close)), keep_above_zero(q.prev_close)) {
        (Some(price), Some(prev)) => {
            let inc = match checked_sub(&price, &prev) {
                Some(d) => d,
                None => return None,
            };
            match checked_div(&inc, &prev) {
                Some(ratio) => Some(HeaderFigures::Change(price, inc, ratio)),
                None => None,
            }
        },
        (Some(price), None) => Some(HeaderFigures::PriceOnly(price)),
        _ => Some(HeaderFigures::Empty),
    }
}

/// A price line of the pool screen: the price where above zero, else the
/// previous close where above zero; with a trend (against the previous
/// close) only where both are above zero.
pub open spec fn price_item_spec(price: Option<Decimal>, prev_close: Option<Decimal>) -> (Option<Decimal>, Option<Trend>) {
    match (above_zero(price), above_zero(prev_close)) {
        (Some(p), Some(c)) => (Some(p), Some(compare(p, c))),
        (Some(p), None) => (Some(p), None),
        (None, Some(c)) => (Some(c), None),
        _ => (None, None),
    }
}

/// A price line of the pool screen (see `price_item_spec`).
pub fn price_item(price: Option<Decimal>, prev_close: Option<Decimal>) -> (r: (Option<Decimal>, Option<Trend>))
    requires
        price matches Some(d) ==> d.wf(),
        prev_close matches Some(d) ==> d.wf(),
    ensures
        r == price_item_spec(price, prev_close),
{
    match (keep_above_zero(price), keep_above_zero(prev_close)) {
        (Some(p), Some(c)) => (Some(p), Some(compare_prices(&p, &c))),
        (Some(p), None) => (Some(p), None),
        (None, Some(c)) => (Some(c), None),
        _ => (None, None),
    }
}

/// The trend of an order-book level: its price against the previous close
/// (whatever its sign), flat without one.
pub fn level_trend(price: Decimal, prev_close: Option<Decimal>) -> (r: Trend)
    requires
        price.wf(),
        prev_close matches Some(d) ==> d.wf(),
    ensures
        r == match prev_close {
            Some(c) => compare(price, c),
            None => Trend::Flat,
        },
{
    match prev_close {
        Some(c) => compare_prices(&price, &c),
        None => Trend::Flat,
    }
}

} // verus!
