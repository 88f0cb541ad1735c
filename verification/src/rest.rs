use vstd::prelude::*;

use crate::api::{Depth, OhlcvCandle, SecurityDepth, SecurityQuote, Trade, TradeDirection, TradeSession, TradeStatus};
use crate::decimal::{decimal_parsed, decimal_rounded, decimal_text, max_scale, parse_decimal, round_dp, to_text, Decimal};
use crate::json::{
    contains_margin, i64_field, i64_from_number_or_string, parse_i64, parse_i64_spec, string_field,
    string_from_number_or_string, truthy, u64_field, u64_from_number_or_string, value_contains_margin,
    value_truthy, FieldError, JsonValue,
};
use crate::meta::{looks_like_margin_pool_name, looks_like_margin_spec, normalize_symbol, normalize_symbol_spec, PoolMetadata};
use crate::stream::{
    book_level, book_levels, is_stream_trade, scale_i64, secs_in_range, timestamp_from_millis, timestamp_from_millis_spec,
    DepthLevel, SseTradeData,
};

verus! {

// ---------------------------------------------------------------------------
// Times written in RFC 3339
// ---------------------------------------------------------------------------

/// The Unix seconds of the instant that `time::OffsetDateTime::parse` reads
/// from a text in the RFC 3339 format, `None` where it does not read one.
pub uninterp spec fn rfc3339_secs(s: Seq<char>) -> Option<i64>;

/// Calls `time::OffsetDateTime::parse` with the RFC 3339 format and reads the
/// result's `unix_timestamp`; the result is the name `rfc3339_secs` of the
/// text.
#[verifier::external_body]
pub(crate) fn parse_datetime(value: &str) -> (r: Option<i64>)
    ensures
        r == rfc3339_secs(value@),
{
    time::OffsetDateTime::parse(value, &time::format_description::well_known::Rfc3339)
        .ok()
        .map(|t| t.unix_timestamp())
}

/// A decimal rounded to a whole number and read back as an `i64`.
pub open spec fn decimal_to_i64_spec(value: Option<Decimal>) -> Option<i64> {
    match value {
        Some(v) => parse_i64_spec(decimal_text(decimal_rounded(v, 0))),
        None => None,
    }
}

/// Rounds a decimal to a whole number (banker's rounding) and reads its text
/// as an `i64`.
pub fn decimal_to_i64(value: Option<Decimal>) -> (r: Option<i64>)
    requires
        value matches Some(v) ==> v.wf(),
    ensures
        r == decimal_to_i64_spec(value),
{
    match value {
        Some(v) => {
            let rounded = round_dp(&v, 0);
            let text = to_text(&rounded);
            parse_i64(text.as_str())
        },
        None => None,
    }
}

// ---------------------------------------------------------------------------
// Pools
// ---------------------------------------------------------------------------

/// A pool as the service lists it.
#[derive(Debug)]
pub struct PoolDto {
    pub pool_id: String,
    pub pool_name: String,
    pub base_asset_symbol: String,
    pub quote_asset_symbol: String,
    pub is_margin: Option<JsonValue>,
    pub pool_type: Option<JsonValue>,
    pub market_type: Option<JsonValue>,
    pub type_field: Option<JsonValue>,
    pub category: Option<JsonValue>,
    pub kind: Option<JsonValue>,
    pub base_asset_decimals: u32,
    pub quote_asset_decimals: u32,
    pub min_size: i64,
    pub lot_size: i64,
    pub tick_size: i64,
}

pub open spec fn flag_set(f: Option<JsonValue>) -> bool {
    f matches Some(v) && truthy(v)
}

pub open spec fn flag_says_margin(f: Option<JsonValue>) -> bool {
    f matches Some(v) && contains_margin(v)
}

/// A pool is a margin pool where its margin flag is set, where one of its
/// type fields mentions margin, or where its name reads as a margin pool's.
pub open spec fn is_margin_pool_spec(p: PoolDto) -> bool {
    flag_set(p.is_margin) || flag_says_margin(p.pool_type) || flag_says_margin(p.market_type)
        || flag_says_margin(p.type_field) || flag_says_margin(p.category) || flag_says_margin(
        p.kind,
    ) || looks_like_margin_spec(p.pool_name@)
}

fn says_margin(f: &Option<JsonValue>) -> (r: bool)
    ensures
        r == flag_says_margin(*f),
{
    match f {
        Some(v) => value_contains_margin(v),
        None => false,
    }
}

impl PoolDto {
    /// Whether the pool is a margin pool.
    pub fn is_margin_pool(&self) -> (r: bool)
        ensures
            r == is_margin_pool_spec(*self),
    {
        let flagged = match &self.is_margin {
            Some(v) => value_truthy(v),
            None => false,
        };
        if flagged {
            return true;
        }
        if says_margin(&self.pool_type) || says_margin(&self.market_type) || says_margin(&self.type_field)
            || says_margin(&self.category) || says_margin(&self.kind) {
            return true;
        }
        looks_like_margin_pool_name(self.pool_name.as_str())
    }
}

/// Whether `m` is the metadata made of the listed pool `p`.
pub open spec fn is_metadata_of(m: PoolMetadata, p: PoolDto) -> bool {
    &&& m.pool_name@ == normalize_symbol_spec(p.pool_name@)
    &&& m.pool_id@ == p.pool_id@
    &&& m.base_asset_symbol@ == p.base_asset_symbol@
    &&& m.quote_asset_symbol@ == p.quote_asset_symbol@
    &&& m.is_margin == is_margin_pool_spec(p)
    &&& m.base_asset_decimals == p.base_asset_decimals
    &&& m.quote_asset_decimals == p.quote_asset_decimals
    &&& m.min_size == p.min_size
    &&& m.lot_size == p.lot_size
    &&& m.tick_size == p.tick_size
}

impl PoolMetadata {
    /// The metadata of a listed pool: its name in normal form, the rest as
    /// listed, and whether it is a margin pool.
    pub fn of_pool(value: &PoolDto) -> (r: PoolMetadata)
        ensures
            is_metadata_of(r, *value),
    {
        PoolMetadata {
            pool_name: normalize_symbol(value.pool_name.as_str()),
            pool_id: value.pool_id.clone(),
            base_asset_symbol: value.base_asset_symbol.clone(),
            quote_asset_symbol: value.quote_asset_symbol.clone(),
            is_margin: value.is_margin_pool(),
            base_asset_decimals: value.base_asset_decimals,
            quote_asset_decimals: value.quote_asset_decimals,
            min_size: value.min_size,
            lot_size: value.lot_size,
            tick_size: value.tick_size,
        }
    }

    /// `From<PoolDto>`: the metadata of a listed pool (see `of_pool`).
    pub fn from_pool(value: PoolDto) -> (r: PoolMetadata)
        ensures
            is_metadata_of(r, value),
    {
        PoolMetadata::of_pool(&value)
    }
}

// ---------------------------------------------------------------------------
// Trades, order books and candlesticks
// ---------------------------------------------------------------------------

/// A trade as the service lists it.
#[derive(Clone, Debug)]
pub struct TradeDto {
    pub price: i64,
    pub base_quantity: i64,
    pub quote_quantity: i64,
    pub taker_is_bid: bool,
    pub timestamp: String,
    pub checkpoint_timestamp_ms: Option<i64>,
}

/// An order book as the service gives it.
#[derive(Clone, Debug)]
pub struct DepthDto {
    pub pool_id: String,
    pub asks: Vec<DepthLevel>,
    pub bids: Vec<DepthLevel>,
}

/// A candlestick as the service lists it.
#[derive(Clone, Debug)]
pub struct OhlcvDto {
    pub timestamp: String,
    pub open: i64,
    pub high: i64,
    pub low: i64,
    pub close: i64,
    pub volume_base: String,
    pub volume_quote: String,
    pub trade_count: u64,
}

/// The instant of a listed trade: its written time, else its checkpoint's
/// time, else now.
pub open spec fn trade_dto_secs(t: TradeDto, now_secs: i64) -> i64 {
    match rfc3339_secs(t.timestamp@) {
        Some(s) => s,
        None => match timestamp_from_millis_spec(t.checkpoint_timestamp_ms, now_secs) {
            Some(s) => s,
            None => now_secs,
        },
    }
}

/// Whether `t` is the trade made of the listed trade `row`.
pub open spec fn is_trade_of(t: Trade, row: TradeDto, decimals: u32, now_secs: i64) -> bool {
    &&& t.price == (Decimal { mantissa: row.price as i128, scale: decimals, negative: row.price < 0 })
    &&& t.volume == row.base_quantity
    &&& t.timestamp == trade_dto_secs(row, now_secs)
    &&& t.trade_type@ == Seq::<char>::empty()
    &&& t.direction == (if row.taker_is_bid { TradeDirection::Up } else { TradeDirection::Down })
    &&& t.trade_session == TradeSession::Intraday
}

/// A listed trade keeps its row's size and price: the volume is the base
/// quantity, the price the row's price scaled by the quote decimals, and the
/// direction is up exactly for a buying taker.
pub proof fn lemma_listed_trade(t: Trade, row: TradeDto, decimals: u32, now_secs: i64)
    requires
        is_trade_of(t, row, decimals, now_secs),
    ensures
        t.volume == row.base_quantity,
        t.price.mantissa == row.price && t.price.scale == decimals,
        (t.direction == TradeDirection::Up) <==> row.taker_is_bid,
        rfc3339_secs(row.timestamp@) is Some ==> t.timestamp == rfc3339_secs(row.timestamp@)->0,
{
}

/// A trade read from the service's list and one pushed by the live stream for
/// the same price, size and side agree on price, volume and direction.
pub proof fn lemma_listed_and_streamed_trades_agree(
    t: Trade,
    row: TradeDto,
    s: Trade,
    d: SseTradeData,
    decimals: u32,
    now_secs: i64,
    ts: i64,
)
    requires
        is_trade_of(t, row, decimals, now_secs),
        is_stream_trade(s, d, ts, decimals),
        row.price == d.price,
        row.base_quantity == d.base_quantity,
        row.taker_is_bid == d.taker_is_bid,
    ensures
        t.price == s.price,
        t.volume == s.volume,
        t.direction == s.direction,
{
}

/// The trade of a listed trade, its price scaled by the quote asset's
/// decimals.
pub fn trade_from_dto(row: &TradeDto, decimals: u32, now_secs: i64) -> (r: Trade)
    requires
        decimals <= max_scale(),
        secs_in_range(now_secs as int),
    ensures
        is_trade_of(r, *row, decimals, now_secs),
{
    let timestamp = match parse_datetime(row.timestamp.as_str()) {
        Some(s) => s,
        None => match timestamp_from_millis(row.checkpoint_timestamp_ms, now_secs) {
            Some(s) => s,
            None => now_secs,
        },
    };
    Trade {
        price: scale_i64(row.price, decimals),
        volume: row.base_quantity,
        timestamp,
        trade_type: String::new(),
        direction: if row.taker_is_bid {
            TradeDirection::Up
        } else {
            TradeDirection::Down
        },
        trade_session: TradeSession::Intraday,
    }
}

/// The trades of a list of trades, in order.
pub fn trades_from_dtos(rows: &Vec<TradeDto>, decimals: u32, now_secs: i64) -> (r: Vec<Trade>)
    requires
        decimals <= max_scale(),
        secs_in_range(now_secs as int),
    ensures
        r.len() == rows.len(),
        forall|i: int| 0 <= i < rows.len() ==> #[trigger] is_trade_of(r@[i], rows@[i], decimals, now_secs),
{
    let mut r: Vec<Trade> = Vec::new();
    let mut i: usize = 0;
    while i < rows.len()
        invariant
            decimals <= max_scale(),
            secs_in_range(now_secs as int),
            i <= rows.len(),
            r.len() == i,
            forall|j: int| 0 <= j < i ==> #[trigger] is_trade_of(r@[j], rows@[j], decimals, now_secs),
        decreases rows.len() - i,
    {
        r.push(trade_from_dto(&rows[i], decimals, now_secs));
        i = i + 1;
    }
    r
}

/// The order book of a listed book: both sides' levels in order, numbered
/// from one, prices scaled.
pub fn depth_from_dto(payload: &DepthDto, decimals: u32) -> (r: SecurityDepth)
    requires
        decimals <= max_scale(),
    ensures
        r.asks.len() == payload.asks.len(),
        r.bids.len() == payload.bids.len(),
        forall|i: int| 0 <= i < payload.asks.len() ==> #[trigger] r.asks@[i] == book_level(i, payload.asks@[i], decimals),
        forall|i: int| 0 <= i < payload.bids.len() ==> #[trigger] r.bids@[i] == book_level(i, payload.bids@[i], decimals),
{
    SecurityDepth { asks: book_levels(&payload.asks, decimals), bids: book_levels(&payload.bids, decimals) }
}

/// A decimal read from a text, zero where it does not read.
pub open spec fn decimal_or_zero(s: Seq<char>) -> Decimal {
    match decimal_parsed(s) {
        Some(d) => d,
        None => Decimal { mantissa: 0, scale: 0, negative: false },
    }
}

fn parse_or_zero(s: &str) -> (r: Decimal)
    ensures
        r == decimal_or_zero(s@),
        r.wf(),
{
    match parse_decimal(s) {
        Some(d) => d,
        None => Decimal::zero(),
    }
}

/// Whether `c` is the candlestick made of the listed one `row`: its written
/// time (now where it does not read), prices scaled, volumes read from their
/// text (zero where they do not read).
pub open spec fn is_candle_of(c: OhlcvCandle, row: OhlcvDto, decimals: u32, now_secs: i64) -> bool {
    &&& c.timestamp == (match rfc3339_secs(row.timestamp@) {
        Some(s) => s,
        None => now_secs,
    })
    &&& c.open == (Decimal { mantissa: row.open as i128, scale: decimals, negative: row.open < 0 })
    &&& c.high == (Decimal { mantissa: row.high as i128, scale: decimals, negative: row.high < 0 })
    &&& c.low == (Decimal { mantissa: row.low as i128, scale: decimals, negative: row.low < 0 })
    &&& c.close == (Decimal { mantissa: row.close as i128, scale: decimals, negative: row.close < 0 })
    &&& c.volume_base == decimal_or_zero(row.volume_base@)
    &&& c.volume_quote == decimal_or_zero(row.volume_quote@)
    &&& c.trade_count == row.trade_count
}

/// A listed candlestick keeps its row's prices: each of open, high, low and
/// close has the row's value as mantissa and the quote decimals as scale, so
/// the candle's move from open to close is the row's.
pub proof fn lemma_listed_candle_prices(c: OhlcvCandle, row: OhlcvDto, decimals: u32, now_secs: i64)
    requires
        is_candle_of(c, row, decimals, now_secs),
    ensures
        c.open.mantissa == row.open && c.open.scale == decimals,
        c.high.mantissa == row.high && c.high.scale == decimals,
        c.low.mantissa == row.low && c.low.scale == decimals,
        c.close.mantissa == row.close && c.close.scale == decimals,
        c.close.mantissa - c.open.mantissa == row.close - row.open,
        c.trade_count == row.trade_count,
        rfc3339_secs(row.timestamp@) is Some ==> c.timestamp == rfc3339_secs(row.timestamp@)->0,
{
}

/// The candlestick of a listed one.
pub fn candle_from_dto(row: &OhlcvDto, decimals: u32, now_secs: i64) -> (r: OhlcvCandle)
    requires
        decimals <= max_scale(),
        secs_in_range(now_secs as int),
    ensures
        is_candle_of(r, *row, decimals, now_secs),
        r.volume_base.wf(),
        r.volume_quote.wf(),
{
    let timestamp = match parse_datetime(row.timestamp.as_str()) {
        Some(s) => s,
        None => match timestamp_from_millis(None, now_secs) {
            Some(s) => s,
            None => now_secs,
        },
    };
    OhlcvCandle {
        timestamp,
        open: scale_i64(row.open, decimals),
        high: scale_i64(row.high, decimals),
        low: scale_i64(row.low, decimals),
        close: scale_i64(row.close, decimals),
        volume_base: parse_or_zero(row.volume_base.as_str()),
        volume_quote: parse_or_zero(row.volume_quote.as_str()),
        trade_count: row.trade_count,
    }
}

/// The candlesticks of a list of them, in order.
pub fn candles_from_dtos(rows: &Vec<OhlcvDto>, decimals: u32, now_secs: i64) -> (r: Vec<OhlcvCandle>)
    requires
        decimals <= max_scale(),
        secs_in_range(now_secs as int),
    ensures
        r.len() == rows.len(),
        forall|i: int| 0 <= i < rows.len() ==> #[trigger] is_candle_of(r@[i], rows@[i], decimals, now_secs),
        forall|i: int| 0 <= i < rows.len() ==> (#[trigger] r@[i]).volume_base.wf() && r@[i].volume_quote.wf(),
{
    let mut r: Vec<OhlcvCandle> = Vec::new();
    let mut i: usize = 0;
    while i < rows.len()
        invariant
            decimals <= max_scale(),
            secs_in_range(now_secs as int),
            i <= rows.len(),
            r.len() == i,
            forall|j: int| 0 <= j < i ==> #[trigger] is_candle_of(r@[j], rows@[j], decimals, now_secs),
            forall|j: int| 0 <= j < i ==> (#[trigger] r@[j]).volume_base.wf() && r@[j].volume_quote.wf(),
        decreases rows.len() - i,
    {
        r.push(candle_from_dto(&rows[i], decimals, now_secs));
        i = i + 1;
    }
    r
}

/// A candlestick whose integer fields are read from JSON values given as
/// numbers or strings (missing ones as null); the first field that does not
/// read is the error.
pub fn ohlcv_dto_from_fields(
    timestamp: String,
    open: &JsonValue,
    high: &JsonValue,
    low: &JsonValue,
    close: &JsonValue,
    volume_base: &JsonValue,
    volume_quote: &JsonValue,
    trade_count: &JsonValue,
) -> (r: Result<OhlcvDto, FieldError>)
    ensures
        (i64_field(*open) is Ok && i64_field(*high) is Ok && i64_field(*low) is Ok && i64_field(*close) is Ok
            && u64_field(*trade_count) is Ok) <==> r is Ok,
        r matches Ok(d) ==> {
            &&& d.timestamp@ == timestamp@
            &&& (i64_field(*open) matches Ok(x) && x == d.open)
            &&& (i64_field(*high) matches Ok(x) && x == d.high)
            &&& (i64_field(*low) matches Ok(x) && x == d.low)
            &&& (i64_field(*close) matches Ok(x) && x == d.close)
            &&& d.volume_base@ == string_field(*volume_base)
            &&& d.volume_quote@ == string_field(*volume_quote)
            &&& (u64_field(*trade_count) matches Ok(x) && x == d.trade_count)
        },
        r matches Err(e) ==> {
            ||| (i64_field(*open) matches Err(x) && x == e)
            ||| (i64_field(*high) matches Err(x) && x == e)
            ||| (i64_field(*low) matches Err(x) && x == e)
            ||| (i64_field(*close) matches Err(x) && x == e)
            ||| (u64_field(*trade_count) matches Err(x) && x == e)
        },
{
    let open = match i64_from_number_or_string(open) {
        Ok(v) => v,
        Err(e) => return Err(e),
    };
    let high = match i64_from_number_or_string(high) {
        Ok(v) => v,
        Err(e) => return Err(e),
    };
    let low = match i64_from_number_or_string(low) {
        Ok(v) => v,
        Err(e) => return Err(e),
    };
    let close = match i64_from_number_or_string(close) {
        Ok(v) => v,
        Err(e) => return Err(e),
    };
    let trade_count = match u64_from_number_or_string(trade_count) {
        Ok(v) => v,
        Err(e) => return Err(e),
    };
    Ok(OhlcvDto {
        timestamp,
        open,
        high,
        low,
        close,
        volume_base: string_from_number_or_string(volume_base),
        volume_quote: string_from_number_or_string(volume_quote),
        trade_count,
    })
}

// ---------------------------------------------------------------------------
// A quote made of the latest trade and candlesticks
// ---------------------------------------------------------------------------

/// The quote made of a pool's latest trade (the first listed, if any) and its
/// daily candlesticks (the last listed is the latest, the one before it the
/// previous): the trade's price, else the latest close, else zero; the
/// latest candlestick's open, high and low, else that price; the previous
/// close, else the open; the trade's time, else the candlestick's, else now;
/// the latest candlestick's volumes.
pub open spec fn is_quote_snapshot(
    q: SecurityQuote,
    symbol: Seq<char>,
    decimals: u32,
    trades: Seq<TradeDto>,
    candles: Seq<OhlcvDto>,
    now_secs: i64,
) -> bool {
    let scaled = |v: i64| Decimal { mantissa: v as i128, scale: decimals, negative: v < 0 };
    let latest = if candles.len() > 0 { Some(candles.last()) } else { None::<OhlcvDto> };
    let fallback = match latest {
        Some(c) => scaled(c.close),
        None => Decimal { mantissa: 0, scale: 0, negative: false },
    };
    let last_done = if trades.len() > 0 { scaled(trades[0].price) } else { fallback };
    let open = match latest {
        Some(c) => scaled(c.open),
        None => last_done,
    };
    let high = match latest {
        Some(c) => scaled(c.high),
        None => last_done,
    };
    let low = match latest {
        Some(c) => scaled(c.low),
        None => last_done,
    };
    let prev_close = if candles.len() > 1 { scaled(candles[candles.len() - 2].close) } else { open };
    let trade_secs = if trades.len() > 0 { rfc3339_secs(trades[0].timestamp@) } else { None };
    let candle_secs = match latest {
        Some(c) => rfc3339_secs(c.timestamp@),
        None => None,
    };
    let timestamp = match trade_secs {
        Some(s) => s,
        None => match candle_secs {
            Some(s) => s,
            None => now_secs,
        },
    };
    let volume = match latest {
        Some(c) => match decimal_to_i64_spec(decimal_parsed(c.volume_base@)) {
            Some(v) => v,
            None => 0,
        },
        None => 0,
    };
    let turnover = match latest {
        Some(c) => decimal_or_zero(c.volume_quote@),
        None => Decimal { mantissa: 0, scale: 0, negative: false },
    };
    &&& q.symbol@ == symbol
    &&& q.last_done == last_done
    &&& q.prev_close == prev_close
    &&& q.open == open
    &&& q.high == high
    &&& q.low == low
    &&& q.timestamp == timestamp
    &&& q.volume == volume
    &&& q.turnover == turnover
    &&& q.trade_status == TradeStatus::Normal
    &&& q.pre_market_quote is None
    &&& q.post_market_quote is None
    &&& q.overnight_quote is None
}

/// A pool's quote measures its change against the day before: with two or
/// more daily candlesticks, the previous close is the close of the one before
/// the latest, and the open, high and low are the latest one's, all scaled by
/// the quote decimals; with one, the previous close is that day's open; the
/// price is the latest trade's, else the latest close.
pub proof fn lemma_quote_snapshot_days(
    q: SecurityQuote,
    symbol: Seq<char>,
    decimals: u32,
    trades: Seq<TradeDto>,
    candles: Seq<OhlcvDto>,
    now_secs: i64,
)
    requires
        is_quote_snapshot(q, symbol, decimals, trades, candles, now_secs),
    ensures
        candles.len() >= 2 ==> q.prev_close.mantissa == candles[candles.len() - 2].close
            && q.prev_close.scale == decimals,
        candles.len() >= 1 ==> {
            let c = candles[candles.len() - 1];
            &&& q.open.mantissa == c.open && q.open.scale == decimals
            &&& q.high.mantissa == c.high && q.high.scale == decimals
            &&& q.low.mantissa == c.low && q.low.scale == decimals
        },
        candles.len() == 1 ==> q.prev_close == q.open,
        trades.len() > 0 ==> q.last_done.mantissa == trades[0].price && q.last_done.scale == decimals,
        trades.len() == 0 && candles.len() > 0 ==> q.last_done.mantissa == candles[candles.len() - 1].close
            && q.last_done.scale == decimals,
        q.symbol@ == symbol,
        trades.len() > 0 && rfc3339_secs(trades[0].timestamp@) is Some ==> q.timestamp == rfc3339_secs(
            trades[0].timestamp@,
        )->0,
{
}

/// The quote of a pool made of its latest trade and daily candlesticks.
pub fn quote_snapshot(
    symbol: String,
    decimals: u32,
    trades: &Vec<TradeDto>,
    candles: &Vec<OhlcvDto>,
    now_secs: i64,
) -> (r: SecurityQuote)
    requires
        decimals <= max_scale(),
    ensures
        is_quote_snapshot(r, symbol@, decimals, trades@, candles@, now_secs),
{
    let n = candles.len();
    let fallback_price = if n > 0 {
        scale_i64(candles[n - 1].close, decimals)
    } else {
        Decimal::zero()
    };
    let last_done = if trades.len() > 0 {
        scale_i64(trades[0].price, decimals)
    } else {
        fallback_price
    };
    let (open, high, low) = if n > 0 {
        (
            scale_i64(candles[n - 1].open, decimals),
            scale_i64(candles[n - 1].high, decimals),
            scale_i64(candles[n - 1].low, decimals),
        )
    } else {
        (last_done, last_done, last_done)
    };
    let prev_close = if n > 1 {
        scale_i64(candles[n - 2].close, decimals)
    } else {
        open
    };
    let trade_secs = if trades.len() > 0 {
        parse_datetime(trades[0].timestamp.as_str())
    } else {
        None
    };
    let candle_secs = if n > 0 {
        parse_datetime(candles[n - 1].timestamp.as_str())
    } else {
        None
    };
    let timestamp = match trade_secs {
        Some(s) => s,
        None => match candle_secs {
            Some(s) => s,
            None => now_secs,
        },
    };
    let volume = if n > 0 {
        match decimal_to_i64(parse_decimal(candles[n - 1].volume_base.as_str())) {
            Some(v) => v,
            None => 0,
        }
    } else {
        0
    };
    let turnover = if n > 0 {
        parse_or_zero(candles[n - 1].volume_quote.as_str())
    } else {
        Decimal::zero()
    };
    SecurityQuote {
        symbol,
        last_done,
        prev_close,
        open,
        high,
        low,
        timestamp,
        volume,
        turnover,
        trade_status: TradeStatus::Normal,
        pre_market_quote: None,
        post_market_quote: None,
        overnight_quote: None,
    }
}

} // verus!
