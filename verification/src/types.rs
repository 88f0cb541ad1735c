use vstd::prelude::*;

use crate::decimal::Decimal;
use crate::text::{chars_of, find_char, first_pos, lemma_first_pos_bounds};
use vstd::std_specs::cmp::PartialEqSpecImpl;
use vstd::std_specs::convert::FromSpecImpl;

verus! {

// ---------------------------------------------------------------------------
// Counter: the symbol of a pool, such as `SUI_USDC`
// ---------------------------------------------------------------------------

/// The separator a counter's text is split on: `_` where it holds one, else `.`.
pub open spec fn counter_separator(s: Seq<char>) -> char {
    if s.contains('_') {
        '_'
    } else {
        '.'
    }
}

/// The first field of `s` split on `sep` (`split(sep).next()`).
pub open spec fn first_field(s: Seq<char>, sep: char) -> Seq<char> {
    s.take(first_pos(s, sep))
}

/// The second field of `s` split on `sep` (`split(sep).nth(1)`), if there is one.
pub open spec fn second_field(s: Seq<char>, sep: char) -> Option<Seq<char>> {
    if s.contains(sep) {
        let rest = s.skip(first_pos(s, sep) + 1);
        Some(rest.take(first_pos(rest, sep)))
    } else {
        None
    }
}

/// What `Counter::code` returns for a counter whose text is `s`.
pub open spec fn counter_code(s: Seq<char>) -> Seq<char> {
    first_field(s, counter_separator(s))
}

/// What `Counter::market` returns for a counter whose text is `s`.
pub open spec fn counter_market(s: Seq<char>) -> Seq<char> {
    match second_field(s, counter_separator(s)) {
        Some(f) => f,
        None => Seq::empty(),
    }
}

#[derive(Debug, Hash)]
pub struct Counter {
    inner: String,
}

impl View for Counter {
    type V = Seq<char>;

    closed spec fn view(&self) -> Seq<char> {
        self.inner@
    }
}

impl Clone for Counter {
    fn clone(&self) -> (r: Self)
        ensures
            r == *self,
    {
        Counter { inner: self.inner.clone() }
    }
}

impl Counter {
    pub fn new(symbol: &str) -> (r: Self)
        ensures
            r@ == symbol@,
    {
        Self { inner: symbol.to_owned() }
    }

    pub fn as_str(&self) -> (r: &str)
        ensures
            r@ == self@,
    {
        self.inner.as_str()
    }

    /// The part before the separator (`_`, or `.` where there is no `_`).
    pub fn code(&self) -> (r: &str)
        ensures
            r@ == counter_code(self@),
    {
        let s = self.inner.as_str();
        let v = chars_of(s);
        let under = find_char(&v, '_');
        proof {
            lemma_first_pos_bounds(v@, '_');
        }
        let sep = if under < v.len() { '_' } else { '.' };
        let p = find_char(&v, sep);
        s.substring_char(0, p)
    }

    /// The part between the first and the second separator; empty when there is
    /// no separator.
    pub fn market(&self) -> (r: &str)
        ensures
            r@ == counter_market(self@),
    {
        let s = self.inner.as_str();
        let v = chars_of(s);
        let under = find_char(&v, '_');
        proof {
            lemma_first_pos_bounds(v@, '_');
        }
        let sep = if under < v.len() { '_' } else { '.' };
        let p = find_char(&v, sep);
        proof {
            lemma_first_pos_bounds(v@, sep);
        }
        if p == v.len() {
            let e = "";
            proof {
                reveal_strlit("");
            }
            assert(e@ =~= Seq::<char>::empty());
            return e;
        }
        let mut rest: Vec<char> = Vec::new();
        let mut i = p + 1;
        while i < v.len()
            invariant
                p + 1 <= i <= v.len(),
                rest@ =~= v@.subrange(p + 1, i as int),
            decreases v.len() - i,
        {
            rest.push(v[i]);
            i = i + 1;
        }
        assert(rest@ =~= v@.skip(p + 1));
        let q = find_char(&rest, sep);
        let r = s.substring_char(p + 1, p + 1 + q);
        assert(r@ =~= rest@.take(q as int));
        r
    }

    pub fn is_empty(&self) -> (r: bool)
        ensures
            r == (self@.len() == 0),
    {
        self.inner.as_str().is_empty()
    }

    /// The counter's text, as a new string.
    pub fn to_string(&self) -> (r: String)
        ensures
            r@ == self@,
    {
        self.inner.clone()
    }
}

impl PartialEq for Counter {
    fn eq(&self, other: &Self) -> (r: bool) {
        self.inner == other.inner
    }
}

impl PartialEqSpecImpl for Counter {
    open spec fn obeys_eq_spec() -> bool {
        true
    }

    open spec fn eq_spec(&self, other: &Counter) -> bool {
        self@ == other@
    }
}

impl Eq for Counter {
}

impl Default for Counter {
    fn default() -> (r: Self)
        ensures
            r@ == Seq::<char>::empty(),
    {
        Self { inner: String::new() }
    }
}

/// A counter whose text is `s`.
pub open spec fn counter_of(s: Seq<char>) -> Counter {
    choose|c: Counter| c@ == s
}

impl<'a> From<&'a str> for Counter {
    /// The counter of a symbol, as `Counter::new` makes it.
    fn from(s: &'a str) -> (r: Counter)
        ensures
            r@ == s@,
    {
        Counter::new(s)
    }
}

/// Verus has no spec function that builds a `String`, so no `from_spec` can
/// name the very value that `from` gives; `obeys_from_spec` is false, and what
/// `from` gives is stated in its own `ensures` (the text of the counter).
impl<'a> FromSpecImpl<&'a str> for Counter {
    open spec fn obeys_from_spec() -> bool {
        false
    }

    open spec fn from_spec(s: &'a str) -> Counter {
        counter_of(s@)
    }
}

impl From<String> for Counter {
    /// The counter of a symbol, holding the string itself.
    fn from(s: String) -> (r: Counter)
        ensures
            r@ == s@,
    {
        Counter { inner: s }
    }
}

impl FromSpecImpl<String> for Counter {
    open spec fn obeys_from_spec() -> bool {
        true
    }

    closed spec fn from_spec(s: String) -> Counter {
        Counter { inner: s }
    }
}

impl core::str::FromStr for Counter {
    type Err = core::convert::Infallible;

    fn from_str(s: &str) -> (r: Result<Self, Self::Err>)
        ensures
            r matches Ok(c) && c@ == s@,
    {
        Ok(Self::new(s))
    }
}


/// The terminal's command-line options.
#[derive(Clone, Debug)]
pub struct Args {
    pub logout: bool,
}

impl Default for Args {
    fn default() -> (r: Self)
        ensures
            !r.logout,
    {
        Args { logout: false }
    }
}

// ---------------------------------------------------------------------------
// Price colours, candlestick periods, markets
// ---------------------------------------------------------------------------

#[derive(Clone, Copy, Debug, PartialEq, Eq, Structural)]
pub enum PriceColorMode {
    RedUp,
    GreenUp,
}

impl Default for PriceColorMode {
    fn default() -> (r: Self)
        ensures
            r == PriceColorMode::RedUp,
    {
        PriceColorMode::RedUp
    }
}

/// The sampling period of a candlestick chart, from the shortest to the longest.
#[derive(Clone, Copy, Debug, PartialEq, Eq, Structural, PartialOrd, Ord, Hash)]
pub enum KlineType {
    PerMinute,
    PerFiveMinutes,
    PerFifteenMinutes,
    PerThirtyMinutes,
    PerHour,
    PerDay,
    PerWeek,
    PerMonth,
    PerYear,
}

/// The number of kline types.
pub open spec fn kline_type_count() -> int {
    9
}

impl KlineType {
    /// The position of the period among all periods, shortest first.
    pub open spec fn ordinal(self) -> int {
        match self {
            KlineType::PerMinute => 0,
            KlineType::PerFiveMinutes => 1,
            KlineType::PerFifteenMinutes => 2,
            KlineType::PerThirtyMinutes => 3,
            KlineType::PerHour => 4,
            KlineType::PerDay => 5,
            KlineType::PerWeek => 6,
            KlineType::PerMonth => 7,
            KlineType::PerYear => 8,
        }
    }

    /// The label the period is displayed with.
    pub open spec fn label_spec(self) -> Seq<char> {
        match self {
            KlineType::PerMinute => "1m"@,
            KlineType::PerFiveMinutes => "5m"@,
            KlineType::PerFifteenMinutes => "15m"@,
            KlineType::PerThirtyMinutes => "30m"@,
            KlineType::PerHour => "1h"@,
            KlineType::PerDay => "Day"@,
            KlineType::PerWeek => "Week"@,
            KlineType::PerMonth => "Month"@,
            KlineType::PerYear => "Year"@,
        }
    }

    /// The next longer period; the longest stays where it is.
    pub open spec fn next_spec(self) -> KlineType {
        match self {
            KlineType::PerMinute => KlineType::PerFiveMinutes,
            KlineType::PerFiveMinutes => KlineType::PerFifteenMinutes,
            KlineType::PerFifteenMinutes => KlineType::PerThirtyMinutes,
            KlineType::PerThirtyMinutes => KlineType::PerHour,
            KlineType::PerHour => KlineType::PerDay,
            KlineType::PerDay => KlineType::PerWeek,
            KlineType::PerWeek => KlineType::PerMonth,
            KlineType::PerMonth | KlineType::PerYear => KlineType::PerYear,
        }
    }

    /// The next shorter period; the shortest stays where it is.
    pub open spec fn prev_spec(self) -> KlineType {
        match self {
            KlineType::PerMinute | KlineType::PerFiveMinutes => KlineType::PerMinute,
            KlineType::PerFifteenMinutes => KlineType::PerFiveMinutes,
            KlineType::PerThirtyMinutes => KlineType::PerFifteenMinutes,
            KlineType::PerHour => KlineType::PerThirtyMinutes,
            KlineType::PerDay => KlineType::PerHour,
            KlineType::PerWeek => KlineType::PerDay,
            KlineType::PerMonth => KlineType::PerWeek,
            KlineType::PerYear => KlineType::PerMonth,
        }
    }

    /// The next longer period; the longest stays where it is.
    pub fn next(self) -> (r: Self)
        ensures
            r == self.next_spec(),
            r.ordinal() == if self.ordinal() < 8 { self.ordinal() + 1 } else { 8 },
    {
        match self {
            Self::PerMinute => Self::PerFiveMinutes,
            Self::PerFiveMinutes => Self::PerFifteenMinutes,
            Self::PerFifteenMinutes => Self::PerThirtyMinutes,
            Self::PerThirtyMinutes => Self::PerHour,
            Self::PerHour => Self::PerDay,
            Self::PerDay => Self::PerWeek,
            Self::PerWeek => Self::PerMonth,
            Self::PerMonth | Self::PerYear => Self::PerYear,
        }
    }

    /// The next shorter period; the shortest stays where it is.
    pub fn prev(self) -> (r: Self)
        ensures
            r == self.prev_spec(),
            r.ordinal() == if self.ordinal() > 0 { self.ordinal() - 1 } else { 0 },
    {
        match self {
            Self::PerMinute | Self::PerFiveMinutes => Self::PerMinute,
            Self::PerFifteenMinutes => Self::PerFiveMinutes,
            Self::PerThirtyMinutes => Self::PerFifteenMinutes,
            Self::PerHour => Self::PerThirtyMinutes,
            Self::PerDay => Self::PerHour,
            Self::PerWeek => Self::PerDay,
            Self::PerMonth => Self::PerWeek,
            Self::PerYear => Self::PerMonth,
        }
    }

    /// One period longer and then one shorter comes back, but from the
    /// longest; one shorter and then one longer comes back, but from the
    /// shortest.
    pub proof fn lemma_next_prev(self)
        ensures
            self != KlineType::PerYear ==> self.next_spec().prev_spec() == self,
            self != KlineType::PerMinute ==> self.prev_spec().next_spec() == self,
    {
    }

    /// The label the period is displayed with (what `Display` writes).
    pub fn label(&self) -> (r: &'static str)
        ensures
            r@ == self.label_spec(),
    {
        proof {
            reveal_strlit("1m");
            reveal_strlit("5m");
            reveal_strlit("15m");
            reveal_strlit("30m");
            reveal_strlit("1h");
            reveal_strlit("Day");
            reveal_strlit("Week");
            reveal_strlit("Month");
            reveal_strlit("Year");
        }
        match self {
            Self::PerMinute => "1m",
            Self::PerFiveMinutes => "5m",
            Self::PerFifteenMinutes => "15m",
            Self::PerThirtyMinutes => "30m",
            Self::PerHour => "1h",
            Self::PerDay => "Day",
            Self::PerWeek => "Week",
            Self::PerMonth => "Month",
            Self::PerYear => "Year",
        }
    }

    /// Every period, shortest first (what the enum's iterator yields).
    pub fn iter() -> (r: Vec<KlineType>)
        ensures
            r.len() == kline_type_count(),
            forall|i: int| 0 <= i < r.len() ==> (#[trigger] r@[i]).ordinal() == i,
    {
        vec![
            Self::PerMinute,
            Self::PerFiveMinutes,
            Self::PerFifteenMinutes,
            Self::PerThirtyMinutes,
            Self::PerHour,
            Self::PerDay,
            Self::PerWeek,
            Self::PerMonth,
            Self::PerYear,
        ]
    }
}

impl Default for KlineType {
    fn default() -> (r: Self)
        ensures
            r == KlineType::PerDay,
    {
        KlineType::PerDay
    }
}

/// Two kline types with the same position are the same.
pub proof fn lemma_ordinal_injective(a: KlineType, b: KlineType)
    requires
        a.ordinal() == b.ordinal(),
    ensures
        a == b,
{
}

#[derive(Clone, Copy, Debug, PartialEq, Eq, Structural, PartialOrd, Ord, Hash)]
pub enum Market {
    Crypto,
}

impl Market {
    pub fn as_str(&self) -> (r: &'static str)
        ensures
            r@ == "CRYPTO"@,
    {
        "CRYPTO"
    }

    /// Every market name denotes the crypto market.
    pub fn from_name(_s: &str) -> (r: Market)
        ensures
            r == Market::Crypto,
    {
        Market::Crypto
    }
}

impl Default for Market {
    fn default() -> (r: Self)
        ensures
            r == Market::Crypto,
    {
        Market::Crypto
    }
}

// ---------------------------------------------------------------------------
// Quotes, depth, trades, candlesticks
// ---------------------------------------------------------------------------

#[derive(Clone, Copy, Debug)]
pub struct QuoteData {
    pub last_done: Option<Decimal>,
    pub prev_close: Option<Decimal>,
    pub open: Option<Decimal>,
    pub high: Option<Decimal>,
    pub low: Option<Decimal>,
    pub volume: u64,
    pub quote_volume: Decimal,
    pub timestamp: i64,
}

impl Default for QuoteData {
    fn default() -> (r: Self)
        ensures
            r.last_done is None,
            r.prev_close is None,
            r.open is None,
            r.high is None,
            r.low is None,
            r.volume == 0,
            r.quote_volume.mantissa == 0 && r.quote_volume.scale == 0 && !r.quote_volume.negative,
            r.timestamp == 0,
    {
        QuoteData {
            last_done: None,
            prev_close: None,
            open: None,
            high: None,
            low: None,
            volume: 0,
            quote_volume: Decimal::zero(),
            timestamp: 0,
        }
    }
}

#[derive(Clone, Debug)]
pub struct Candlestick {
    pub timestamp: i64,
    pub open: Decimal,
    pub high: Decimal,
    pub low: Decimal,
    pub close: Decimal,
    pub volume: u64,
    pub quote_volume: Decimal,
}

/// One level of an order book.
#[derive(Clone, Copy, Debug)]
pub struct Depth {
    pub position: i32,
    pub price: Decimal,
    pub volume: i64,
    pub order_num: i64,
}

impl Default for Depth {
    fn default() -> (r: Self)
        ensures
            r.position == 0,
            r.price.mantissa == 0 && r.price.scale == 0 && !r.price.negative,
            r.volume == 0,
            r.order_num == 0,
    {
        Depth { position: 0, price: Decimal::zero(), volume: 0, order_num: 0 }
    }
}

#[derive(Debug)]
pub struct DepthData {
    pub asks: Vec<Depth>,
    pub bids: Vec<Depth>,
}

/// A copy of a sequence of copyable values.
pub fn copy_vec<T: Copy>(v: &Vec<T>) -> (r: Vec<T>)
    ensures
        r@ == v@,
{
    let mut r: Vec<T> = Vec::new();
    let mut i: usize = 0;
    while i < v.len()
        invariant
            i <= v.len(),
            r@ =~= v@.take(i as int),
        decreases v.len() - i,
    {
        r.push(v[i]);
        i = i + 1;
    }
    r
}

impl Clone for DepthData {
    fn clone(&self) -> (r: Self)
        ensures
            r.asks@ == self.asks@,
            r.bids@ == self.bids@,
    {
        DepthData { asks: copy_vec(&self.asks), bids: copy_vec(&self.bids) }
    }
}

impl Default for DepthData {
    fn default() -> (r: Self)
        ensures
            r.asks.len() == 0,
            r.bids.len() == 0,
    {
        DepthData { asks: Vec::new(), bids: Vec::new() }
    }
}

#[derive(Clone, Copy, Debug, PartialEq, Eq, Structural)]
pub enum TradeDirection {
    Neutral,
    Up,
    Down,
}

#[derive(Debug)]
pub struct TradeData {
    pub price: Decimal,
    pub volume: i64,
    pub timestamp: i64,
    pub trade_type: String,
    pub direction: TradeDirection,
}

impl Clone for TradeData {
    fn clone(&self) -> (r: Self)
        ensures
            r == *self,
    {
        TradeData {
            price: self.price,
            volume: self.volume,
            timestamp: self.timestamp,
            trade_type: self.trade_type.clone(),
            direction: self.direction,
        }
    }
}

impl Default for TradeData {
    fn default() -> (r: Self)
        ensures
            r.price.mantissa == 0 && r.price.scale == 0 && !r.price.negative,
            r.volume == 0,
            r.timestamp == 0,
            r.trade_type@.len() == 0,
            r.direction == TradeDirection::Neutral,
    {
        TradeData {
            price: Decimal::zero(),
            volume: 0,
            timestamp: 0,
            trade_type: String::new(),
            direction: TradeDirection::Neutral,
        }
    }
}

/// One candlestick of a chart: the trades of one period.
#[derive(Clone, Copy, Debug)]
pub struct Kline {
    pub timestamp: i64,
    pub open: Decimal,
    pub high: Decimal,
    pub low: Decimal,
    pub close: Decimal,
    pub amount: u64,
    pub balance: Decimal,
    pub total: u64,
}

impl Kline {
    /// Every price and the turnover are well-formed decimals.
    pub open spec fn wf(self) -> bool {
        self.open.wf() && self.high.wf() && self.low.wf() && self.close.wf() && self.balance.wf()
    }
}

impl Default for Kline {
    fn default() -> (r: Self)
        ensures
            r.wf(),
            r.timestamp == 0,
            r.open.mantissa == 0,
            r.high.mantissa == 0,
            r.low.mantissa == 0,
            r.close.mantissa == 0,
            r.amount == 0,
            r.balance.mantissa == 0,
            r.total == 0,
    {
        Kline {
            timestamp: 0,
            open: Decimal::zero(),
            high: Decimal::zero(),
            low: Decimal::zero(),
            close: Decimal::zero(),
            amount: 0,
            balance: Decimal::zero(),
            total: 0,
        }
    }
}

} // verus!
