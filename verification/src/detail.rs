use vstd::prelude::*;

use crate::decimal::{checked_div, decimal_quotient, max_scale, Decimal};
use crate::keys::Key;
use crate::text::{push_char, push_str};
use crate::types::{Depth, KlineType, QuoteData, TradeData, TradeDirection};

verus! {

// ---------------------------------------------------------------------------
// Integers written in decimal
// ---------------------------------------------------------------------------

/// The character of a decimal digit.
pub open spec fn digit_char(d: u64) -> char {
    ((d + 48) as u8) as char
}

/// The decimal digits of a natural number, most significant first.
pub open spec fn nat_digits(n: u64) -> Seq<char>
    decreases n,
{
    if n < 10 {
        seq![digit_char(n)]
    } else {
        nat_digits(n / 10).push(digit_char(n % 10))
    }
}

/// An integer written in decimal, `-` before a negative one.
pub open spec fn int_text(n: i64) -> Seq<char> {
    if n < 0 {
        seq!['-'] + nat_digits((-(n as int)) as u64)
    } else {
        nat_digits(n as u64)
    }
}

fn push_digits(s: &mut String, n: u64)
    ensures
        final(s)@ == old(s)@ + nat_digits(n),
    decreases n,
{
    if n >= 10 {
        push_digits(s, n / 10);
    }
    let d: u64 = n % 10;
    push_char(s, ((d + 48) as u8) as char);
    proof {
        assert(final(s)@ =~= old(s)@ + nat_digits(n)) by {
            if n >= 10 {
            }
        }
    }
}

/// Writes an integer in decimal.
pub fn int_to_text(n: i64) -> (r: String)
    ensures
        r@ == int_text(n),
{
    let mut s = String::new();
    if n < 0 {
        push_char(&mut s, '-');
        let m: u64 = if n == i64::MIN {
            9_223_372_036_854_775_808
        } else {
            (-n) as u64
        };
        push_digits(&mut s, m);
        assert(s@ =~= seq!['-'] + nat_digits(m));
    } else {
        push_digits(&mut s, n as u64);
        assert(s@ =~= nat_digits(n as u64));
    }
    s
}

// ---------------------------------------------------------------------------
// The candlestick chart
// ---------------------------------------------------------------------------

/// A move on the pool screen: left goes one candlestick further back, right
/// one forward (never before the latest), tab to the next longer period,
/// back-tab to the next shorter one.
pub open spec fn chart_nav_spec(key: Key, index: usize, kline_type: KlineType) -> (usize, KlineType) {
    match key {
        Key::Left => (if index < usize::MAX { (index + 1) as usize } else { usize::MAX }, kline_type),
        Key::Right => (if index > 0 { (index - 1) as usize } else { 0 }, kline_type),
        _ => (index, kline_type),
    }
}

/// The chart position and period after a move (see `chart_nav_spec`); the
/// period follows `KlineType::next` and `KlineType::prev`, and where
/// `reset_on_period` the position goes back to the latest candlestick when
/// the period changes.
pub fn chart_nav(key: Key, index: usize, kline_type: KlineType, reset_on_period: bool) -> (r: (usize, KlineType))
    ensures
        key != Key::Tab && key != Key::BackTab ==> r == chart_nav_spec(key, index, kline_type),
        key == Key::Tab ==> r.0 == (if reset_on_period { 0 } else { index }) && r.1.ordinal() == if kline_type.ordinal() < 8 {
            kline_type.ordinal() + 1
        } else {
            8
        },
        key == Key::BackTab ==> r.0 == (if reset_on_period { 0 } else { index }) && r.1.ordinal() == if kline_type.ordinal() > 0 {
            kline_type.ordinal() - 1
        } else {
            0
        },
{
    let kept: usize = if reset_on_period {
        0
    } else {
        index
    };
    match key {
        Key::Left => (index.saturating_add(1), kline_type),
        Key::Right => (index.saturating_sub(1), kline_type),
        Key::Tab => (kept, kline_type.next()),
        Key::BackTab => (kept, kline_type.prev()),
        _ => (index, kline_type),
    }
}

/// Columns of the chart's price axis.
pub open spec fn y_axis_width() -> int {
    17
}

/// The candlesticks that fit beside the price axis, the page the selected
/// one is on and its place on it; all zero where none fits.
pub open spec fn chart_page_spec(area_width: u16, selected: usize) -> (usize, usize, usize) {
    if area_width > y_axis_width() {
        let w = (area_width - y_axis_width()) as usize;
        (w, (selected / w) as usize, (selected % w) as usize)
    } else {
        (0, 0, 0)
    }
}

pub fn chart_page(area_width: u16, selected: usize) -> (r: (usize, usize, usize))
    ensures
        r == chart_page_spec(area_width, selected),
{
    if area_width > 17 {
        let w = (area_width - 17) as usize;
        (w, selected / w, selected % w)
    } else {
        (0, 0, 0)
    }
}

// ---------------------------------------------------------------------------
// Figures of the pool screen
// ---------------------------------------------------------------------------

/// The average price of the day: turnover over volume, where both are above
/// zero (`None` where that division overflows); else the last price, else the
/// open.
pub open spec fn average_price_spec(q: QuoteData, base_decimals: u32) -> Option<Option<Decimal>> {
    let volume = Decimal { mantissa: q.volume as i128, scale: base_decimals, negative: false };
    if q.volume > 0 && q.quote_volume.mantissa > 0 {
        match decimal_quotient(q.quote_volume, volume) {
            Some(a) => Some(Some(a)),
            None => None,
        }
    } else {
        Some(if q.last_done is Some { q.last_done } else { q.open })
    }
}

/// The average price of the day (see `average_price_spec`).
pub fn average_price(q: &QuoteData, base_decimals: u32) -> (r: Option<Option<Decimal>>)
    requires
        base_decimals <= max_scale(),
        q.quote_volume.wf(),
    ensures
        r == average_price_spec(*q, base_decimals),
{
    let volume = Decimal::from_i128_with_scale(q.volume as i128, base_decimals);
    if q.volume > 0 && q.quote_volume.mantissa > 0 {
        match checked_div(&q.quote_volume, &volume) {
            Some(a) => Some(Some(a)),
            None => None,
        }
    } else {
        Some(if q.last_done.is_some() { q.last_done } else { q.open })
    }
}

/// The sum of the volumes of the levels.
pub open spec fn volume_sum(levels: Seq<Depth>) -> int
    decreases levels.len(),
{
    if levels.len() == 0 {
        0
    } else {
        volume_sum(levels.drop_last()) + levels.last().volume
    }
}

/// The volume of an order book's side, where the sum fits an `i64`.
pub fn side_volume(levels: &Vec<Depth>) -> (r: i64)
    requires
        forall|n: int| 0 <= n <= levels.len() ==> i64::MIN <= #[trigger] volume_sum(levels@.take(n)) <= i64::MAX,
    ensures
        r == volume_sum(levels@),
{
    let mut total: i64 = 0;
    let mut i: usize = 0;
    assert(levels@.take(0) =~= Seq::<Depth>::empty());
    while i < levels.len()
        invariant
            i <= levels.len(),
            total == volume_sum(levels@.take(i as int)),
            forall|n: int| 0 <= n <= levels.len() ==> i64::MIN <= #[trigger] volume_sum(levels@.take(n)) <= i64::MAX,
        decreases levels.len() - i,
    {
        assert(levels@.take(i + 1).drop_last() =~= levels@.take(i as int));
        assert(volume_sum(levels@.take(i + 1)) == volume_sum(levels@.take(i as int)) + levels@[i as int].volume);
        total = total + levels[i].volume;
        i = i + 1;
    }
    assert(levels@.take(levels.len() as int) =~= levels@);
    total
}

/// The share of one side in a book's volume, zero for an empty book; `None`
/// where the division overflows.
pub open spec fn side_share_spec(part: i64, total: i64) -> Option<Decimal> {
    if total > 0 {
        decimal_quotient(Decimal { mantissa: part as i128, scale: 0, negative: part < 0 }, Decimal { mantissa: total as i128, scale: 0, negative: total < 0 })
    } else {
        Some(Decimal { mantissa: 0, scale: 0, negative: false })
    }
}

pub fn side_share(part: i64, total: i64) -> (r: Option<Decimal>)
    ensures
        r == side_share_spec(part, total),
{
    if total > 0 {
        checked_div(&Decimal::from_i64(part), &Decimal::from_i64(total))
    } else {
        Some(Decimal::zero())
    }
}

/// A level's position with the spaces that align it: three after one digit,
/// two otherwise.
pub fn position_text(position: i32) -> (r: String)
    ensures
        r@ == int_text(position as i64) + (if position < 10 { "   "@ } else { "  "@ }),
{
    let mut s = int_to_text(position as i64);
    if position < 10 {
        push_str(&mut s, "   ");
    } else {
        push_str(&mut s, "  ");
    }
    s
}

/// A level's order count in brackets, kept between 0 and 999.
pub fn order_count_text(order_num: i64) -> (r: String)
    ensures
        r@ == "("@ + int_text(if order_num < 0 { 0 } else if order_num > 999 { 999 } else { order_num })
            + ")"@,
{
    let n: i64 = if order_num < 0 {
        0
    } else if order_num > 999 {
        999
    } else {
        order_num
    };
    let mut s = "(".to_string();
    push_str(&mut s, int_to_text(n).as_str());
    push_str(&mut s, ")");
    s
}

/// The largest trade size (sign dropped), one where there is no trade.
pub open spec fn max_trade_volume_spec(trades: Seq<TradeData>) -> int
    decreases trades.len(),
{
    if trades.len() == 0 {
        1
    } else {
        let rest = max_trade_volume_spec(trades.drop_last());
        let v = trades.last().volume;
        let a: int = if v < 0 { -v } else { v as int };
        if trades.len() == 1 || a > rest {
            a
        } else {
            rest
        }
    }
}

/// The largest trade size, sign dropped; one where there is no trade.
pub fn max_trade_volume(trades: &Vec<TradeData>) -> (r: i64)
    requires
        forall|i: int| 0 <= i < trades.len() ==> (#[trigger] trades@[i]).volume > i64::MIN,
    ensures
        r == max_trade_volume_spec(trades@),
{
    let mut best: i64 = 1;
    let mut i: usize = 0;
    assert(trades@.take(0) =~= Seq::<TradeData>::empty());
    while i < trades.len()
        invariant
            i <= trades.len(),
            best == max_trade_volume_spec(trades@.take(i as int)),
            forall|j: int| 0 <= j < trades.len() ==> (#[trigger] trades@[j]).volume > i64::MIN,
        decreases trades.len() - i,
    {
        assert(trades@.take(i + 1).drop_last() =~= trades@.take(i as int));
        let v = trades[i].volume;
        let a: i64 = if v < 0 {
            -v
        } else {
            v
        };
        if i == 0 || a > best {
            best = a;
        }
        i = i + 1;
    }
    assert(trades@.take(trades.len() as int) =~= trades@);
    best
}

/// The arrow a trade is marked with.
pub fn trade_arrow(direction: TradeDirection) -> (r: &'static str)
    ensures
        r@ == (match direction {
            TradeDirection::Up => "\u{2191}"@,
            TradeDirection::Down => "\u{2193}"@,
            TradeDirection::Neutral => " "@,
        }),
{
    match direction {
        TradeDirection::Up => "\u{2191}",
        TradeDirection::Down => "\u{2193}",
        TradeDirection::Neutral => " ",
    }
}

} // verus!
