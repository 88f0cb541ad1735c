use vstd::prelude::*;

use crate::api::{
    Depth, PushEvent, PushEventDetail, PushQuote, StreamDepth, StreamDepthLevel, Trade,
    TradeDirection, TradeSession, TradeStatus,
};
use crate::decimal::{max_scale, Decimal};
use crate::text::str_eq;

verus! {

// ---------------------------------------------------------------------------
// Fixed-point amounts and timestamps
// ---------------------------------------------------------------------------

/// An integer amount of the smallest unit of an asset with `decimals`
/// decimals, as a decimal number: `value / 10^decimals`.
pub fn scale_i64(value: i64, decimals: u32) -> (r: Decimal)
    requires
        decimals <= max_scale(),
    ensures
        r.wf(),
        r.mantissa == value,
        r.scale == decimals,
        r.negative == (value < 0),
{
    Decimal::from_i128_with_scale(value as i128, decimals)
}

/// Unix seconds of `-9999-01-01T00:00:00Z`, the earliest instant
/// `time::OffsetDateTime` holds.
pub open spec fn min_unix_secs() -> int {
    -377_705_116_800
}

/// Unix seconds of `9999-12-31T23:59:59Z`, the latest second
/// `time::OffsetDateTime` holds.
pub open spec fn max_unix_secs() -> int {
    253_402_300_799
}

/// Unix seconds are within what `time::OffsetDateTime` holds.
pub open spec fn secs_in_range(secs: int) -> bool {
    min_unix_secs() <= secs <= max_unix_secs()
}

/// The whole seconds (rounded down) of a count of milliseconds.
pub open spec fn secs_of_millis(ms: int) -> int {
    ms / 1000
}

/// Calls `time::OffsetDateTime::from_unix_timestamp_nanos` and reads the
/// result's `unix_timestamp`: the nanoseconds rounded down to seconds, where
/// those seconds are within the dates the crate holds (years -9999 to 9999);
/// an error otherwise.
#[verifier::external_body]
fn unix_secs_from_nanos(nanos: i128) -> (r: Option<i64>)
    ensures
        secs_in_range(nanos as int / 1_000_000_000) ==> r == Some((nanos as int / 1_000_000_000) as i64),
        !secs_in_range(nanos as int / 1_000_000_000) ==> r is None,
{
    time::OffsetDateTime::from_unix_timestamp_nanos(nanos).ok().map(|t| t.unix_timestamp())
}

/// What `timestamp_from_millis` gives: the instant of `ms` milliseconds (the
/// current second's when there are none), in whole Unix seconds, or `None`
/// where it lies outside the dates that can be held.
pub open spec fn timestamp_from_millis_spec(ms: Option<i64>, now_secs: i64) -> Option<i64> {
    let m: int = match ms {
        Some(v) => v as int,
        None => now_secs * 1000,
    };
    if secs_in_range(secs_of_millis(m)) {
        Some(secs_of_millis(m) as i64)
    } else {
        None
    }
}

/// The instant of a millisecond timestamp in Unix seconds (`now_secs`, the
/// current time, stands in for a missing one); `None` outside the dates that
/// can be held.
pub fn timestamp_from_millis(timestamp_ms: Option<i64>, now_secs: i64) -> (r: Option<i64>)
    requires
        secs_in_range(now_secs as int),
    ensures
        r == timestamp_from_millis_spec(timestamp_ms, now_secs),
{
    let ts: i64 = match timestamp_ms {
        Some(v) => v,
        None => now_secs * 1000,
    };
    let nanos: i128 = (ts as i128) * 1_000_000;
    proof {
        let t = ts as int;
        assert((t * 1_000_000) / 1_000_000_000 == t / 1000) by (nonlinear_arith);
    }
    unix_secs_from_nanos(nanos)
}

// ---------------------------------------------------------------------------
// Events of the live stream
// ---------------------------------------------------------------------------

/// The data of a live-trade event.
#[derive(Clone, Copy, Debug)]
pub struct SseTradeData {
    pub price: i64,
    pub base_quantity: i64,
    pub quote_quantity: i64,
    pub taker_is_bid: bool,
    pub checkpoint_timestamp_ms: Option<i64>,
    pub onchain_timestamp: Option<i64>,
}

/// One level of an order book as the service sends it.
#[derive(Clone, Copy, Debug)]
pub struct DepthLevel {
    pub price: i64,
    pub total_quantity: i64,
    pub order_count: i64,
}

/// The data of an order-book event.
#[derive(Clone, Debug)]
pub struct SseDepthData {
    pub asks: Vec<DepthLevel>,
    pub bids: Vec<DepthLevel>,
}

/// A server-sent event of the service: its type, its time, and its data read
/// as a trade and as an order book (`None` where the data does not read as
/// one).
#[derive(Clone, Debug)]
pub struct SseEnvelope {
    pub event_type: String,
    pub checkpoint_id: Option<i64>,
    pub timestamp_ms: Option<i64>,
    pub trade: Option<SseTradeData>,
    pub depth: Option<SseDepthData>,
}

/// Position of the level at index `idx`: one-based, `i32::MAX` where it does
/// not fit.
pub open spec fn level_position(idx: int) -> i32 {
    if idx + 1 <= i32::MAX {
        (idx + 1) as i32
    } else {
        i32::MAX
    }
}

fn position_of(idx: usize) -> (r: i32)
    ensures
        r == level_position(idx as int),
{
    if idx < 2147483647 {
        (idx + 1) as i32
    } else {
        2147483647
    }
}

/// A stream order-book level made from the level at index `idx`.
pub open spec fn stream_level(idx: int, l: DepthLevel, decimals: u32) -> StreamDepthLevel {
    StreamDepthLevel {
        position: level_position(idx),
        price: Some(Decimal { mantissa: l.price as i128, scale: decimals, negative: l.price < 0 }),
        volume: l.total_quantity,
        order_num: l.order_count,
    }
}

/// An order-book level made from the level at index `idx`.
pub open spec fn book_level(idx: int, l: DepthLevel, decimals: u32) -> Depth {
    Depth {
        position: level_position(idx),
        price: Some(Decimal { mantissa: l.price as i128, scale: decimals, negative: l.price < 0 }),
        volume: l.total_quantity,
        order_num: l.order_count,
    }
}

/// The levels of a stream order book, numbered from one, prices scaled.
pub fn stream_levels(levels: &Vec<DepthLevel>, decimals: u32) -> (r: Vec<StreamDepthLevel>)
    requires
        levels.len() > 0 ==> decimals <= max_scale(),
    ensures
        r.len() == levels.len(),
        forall|i: int| 0 <= i < levels.len() ==> #[trigger] r@[i] == stream_level(i, levels@[i], decimals),
{
    let mut r: Vec<StreamDepthLevel> = Vec::new();
    let mut i: usize = 0;
    while i < levels.len()
        invariant
            levels.len() > 0 ==> decimals <= max_scale(),
            i <= levels.len(),
            r.len() == i,
            forall|j: int| 0 <= j < i ==> #[trigger] r@[j] == stream_level(j, levels@[j], decimals),
        decreases levels.len() - i,
    {
        let l = levels[i];
        r.push(StreamDepthLevel {
            position: position_of(i),
            price: Some(scale_i64(l.price, decimals)),
            volume: l.total_quantity,
            order_num: l.order_count,
        });
        i = i + 1;
    }
    r
}

/// The levels of an order-book snapshot, numbered from one, prices scaled.
pub fn book_levels(levels: &Vec<DepthLevel>, decimals: u32) -> (r: Vec<Depth>)
    requires
        levels.len() > 0 ==> decimals <= max_scale(),
    ensures
        r.len() == levels.len(),
        forall|i: int| 0 <= i < levels.len() ==> #[trigger] r@[i] == book_level(i, levels@[i], decimals),
{
    let mut r: Vec<Depth> = Vec::new();
    let mut i: usize = 0;
    while i < levels.len()
        invariant
            levels.len() > 0 ==> decimals <= max_scale(),
            i <= levels.len(),
            r.len() == i,
            forall|j: int| 0 <= j < i ==> #[trigger] r@[j] == book_level(j, levels@[j], decimals),
        decreases levels.len() - i,
    {
        let l = levels[i];
        r.push(Depth {
            position: position_of(i),
            price: Some(scale_i64(l.price, decimals)),
            volume: l.total_quantity,
            order_num: l.order_count,
        });
        i = i + 1;
    }
    r
}

/// The instant of a live trade: the checkpoint's time, else the on-chain
/// time, else the event's, else now; now where that instant cannot be held.
pub open spec fn trade_event_secs(env_ms: Option<i64>, d: SseTradeData, now_secs: i64) -> i64 {
    let ms = if d.checkpoint_timestamp_ms is Some {
        d.checkpoint_timestamp_ms
    } else if d.onchain_timestamp is Some {
        d.onchain_timestamp
    } else {
        env_ms
    };
    match timestamp_from_millis_spec(ms, now_secs) {
        Some(s) => s,
        None => now_secs,
    }
}

/// The quote a live trade pushes: every price the trade's, volumes its size.
pub open spec fn trade_quote(d: SseTradeData, ts: i64, decimals: u32) -> PushQuote {
    let price = Decimal { mantissa: d.price as i128, scale: decimals, negative: d.price < 0 };
    let turnover = Decimal { mantissa: d.quote_quantity as i128, scale: decimals, negative: d.quote_quantity < 0 };
    PushQuote {
        last_done: price,
        open: price,
        high: price,
        low: price,
        timestamp: ts,
        volume: d.base_quantity,
        turnover: turnover,
        trade_status: TradeStatus::Normal,
        trade_session: TradeSession::Intraday,
        current_volume: d.base_quantity,
        current_turnover: turnover,
    }
}

/// The trade a live trade pushes: up for a buying taker, down otherwise.
pub open spec fn is_stream_trade(t: Trade, d: SseTradeData, ts: i64, decimals: u32) -> bool {
    &&& t.price == (Decimal { mantissa: d.price as i128, scale: decimals, negative: d.price < 0 })
    &&& t.volume == d.base_quantity
    &&& t.timestamp == ts
    &&& t.trade_type@ == Seq::<char>::empty()
    &&& t.direction == (if d.taker_is_bid { TradeDirection::Up } else { TradeDirection::Down })
    &&& t.trade_session == TradeSession::Intraday
}

/// The events that a live-trade event becomes for `symbol`: its quote, then
/// the trade alone.
pub open spec fn is_trade_events(r: Seq<PushEvent>, symbol: Seq<char>, d: SseTradeData, ts: i64, decimals: u32) -> bool {
    &&& r.len() == 2
    &&& r[0].symbol@ == symbol
    &&& r[0].detail == PushEventDetail::Quote(trade_quote(d, ts, decimals))
    &&& r[1].symbol@ == symbol
    &&& r[1].detail matches PushEventDetail::Trades(v) && v.len() == 1 && is_stream_trade(v@[0], d, ts, decimals)
}

/// A live trade pushes a quote and a trade that agree: the trade's volume is
/// the quote's volume, which is the event's base quantity; the trade's price
/// is the quote's last price, the event's price scaled by the quote decimals,
/// and the quote's turnover is the event's quote quantity so scaled; both
/// carry the same time.
pub proof fn lemma_stream_trade_agrees(r: Seq<PushEvent>, symbol: Seq<char>, d: SseTradeData, ts: i64, decimals: u32)
    requires
        is_trade_events(r, symbol, d, ts, decimals),
    ensures
        r[0].detail matches PushEventDetail::Quote(q) && r[1].detail matches PushEventDetail::Trades(v) && {
            &&& v.len() == 1
            &&& v@[0].volume == q.volume
            &&& q.volume == d.base_quantity
            &&& q.current_volume == d.base_quantity
            &&& v@[0].price == q.last_done
            &&& q.last_done.mantissa == d.price && q.last_done.scale == decimals
            &&& q.turnover.mantissa == d.quote_quantity && q.turnover.scale == decimals
            &&& v@[0].timestamp == q.timestamp
            &&& q.timestamp == ts
            &&& q.open == q.last_done && q.high == q.last_done && q.low == q.last_done
            &&& (v@[0].direction == TradeDirection::Up <==> d.taker_is_bid)
        },
{
}

/// The event that an order-book event becomes for `symbol`: both sides'
/// levels in order.
pub open spec fn is_depth_event(r: Seq<PushEvent>, symbol: Seq<char>, d: SseDepthData, decimals: u32) -> bool {
    &&& r.len() == 1
    &&& r[0].symbol@ == symbol
    &&& r[0].detail matches PushEventDetail::Depth(sd) && {
        &&& sd.asks.len() == d.asks.len()
        &&& sd.bids.len() == d.bids.len()
        &&& forall|i: int| 0 <= i < d.asks.len() ==> #[trigger] sd.asks@[i] == stream_level(i, d.asks@[i], decimals)
        &&& forall|i: int| 0 <= i < d.bids.len() ==> #[trigger] sd.bids@[i] == stream_level(i, d.bids@[i], decimals)
    }
}

/// An order-book event pushes its levels in order, numbered from one: each
/// keeps its size and order count, and its price is the level's price scaled
/// by the quote decimals.
pub proof fn lemma_stream_book_levels(r: Seq<PushEvent>, symbol: Seq<char>, d: SseDepthData, decimals: u32)
    requires
        is_depth_event(r, symbol, d, decimals),
    ensures
        r[0].detail matches PushEventDetail::Depth(sd) && {
            &&& forall|i: int| 0 <= i < d.asks.len() && i < i32::MAX ==> {
                let l = #[trigger] sd.asks@[i];
                &&& l.position == i + 1
                &&& l.volume == d.asks@[i].total_quantity
                &&& l.order_num == d.asks@[i].order_count
                &&& l.price matches Some(p) && p.mantissa == d.asks@[i].price && p.scale == decimals
            }
            &&& forall|i: int| 0 <= i < d.bids.len() && i < i32::MAX ==> {
                let l = #[trigger] sd.bids@[i];
                &&& l.position == i + 1
                &&& l.volume == d.bids@[i].total_quantity
                &&& l.order_num == d.bids@[i].order_count
                &&& l.price matches Some(p) && p.mantissa == d.bids@[i].price && p.scale == decimals
            }
        },
{
}

/// Turns one event of the live stream of `symbol` into what it pushes: a
/// trade event into its quote and its trade, an order-book event into the
/// book, and anything else (or data that did not read) into nothing.
/// `quote_decimals` are the decimals of the pool's quote asset; `now_secs`
/// stands in for the time of an event that has none.
pub fn process_sse_event(symbol: &str, quote_decimals: u32, envelope: &SseEnvelope, now_secs: i64) -> (r: Vec<PushEvent>)
    requires
        (envelope.event_type@ == "deepbook_live_trades"@ && envelope.trade is Some) ==> quote_decimals
            <= max_scale(),
        (envelope.event_type@ == "deepbook_order_book_depth"@ && envelope.depth is Some && (
        envelope.depth->0.asks.len() > 0 || envelope.depth->0.bids.len() > 0)) ==> quote_decimals
            <= max_scale(),
        secs_in_range(now_secs as int),
    ensures
        (envelope.event_type@ == "deepbook_live_trades"@ && envelope.trade is Some) ==> is_trade_events(
            r@,
            symbol@,
            envelope.trade->0,
            trade_event_secs(envelope.timestamp_ms, envelope.trade->0, now_secs),
            quote_decimals,
        ),
        (envelope.event_type@ == "deepbook_order_book_depth"@ && envelope.depth is Some) ==> is_depth_event(
            r@,
            symbol@,
            envelope.depth->0,
            quote_decimals,
        ),
        !((envelope.event_type@ == "deepbook_live_trades"@ && envelope.trade is Some) || (
        envelope.event_type@ == "deepbook_order_book_depth"@ && envelope.depth is Some)) ==> r.len() == 0,
{
    let mut out: Vec<PushEvent> = Vec::new();
    proof {
        reveal_strlit("deepbook_live_trades");
        reveal_strlit("deepbook_order_book_depth");
        assert("deepbook_live_trades"@.len() != "deepbook_order_book_depth"@.len());
    }
    if str_eq(envelope.event_type.as_str(), "deepbook_live_trades") {
        if let Some(d) = envelope.trade {
            let ms = if d.checkpoint_timestamp_ms.is_some() {
                d.checkpoint_timestamp_ms
            } else if d.onchain_timestamp.is_some() {
                d.onchain_timestamp
            } else {
                envelope.timestamp_ms
            };
            let timestamp = match timestamp_from_millis(ms, now_secs) {
                Some(s) => s,
                None => now_secs,
            };
            let price = scale_i64(d.price, quote_decimals);
            let quote_volume = scale_i64(d.quote_quantity, quote_decimals);
            let quote = PushQuote {
                last_done: price,
                open: price,
                high: price,
                low: price,
                timestamp,
                volume: d.base_quantity,
                turnover: quote_volume,
                trade_status: TradeStatus::Normal,
                trade_session: TradeSession::Intraday,
                current_volume: d.base_quantity,
                current_turnover: quote_volume,
            };
            out.push(PushEvent { symbol: symbol.to_string(), detail: PushEventDetail::Quote(quote) });
            let trade = Trade {
                price,
                volume: d.base_quantity,
                timestamp,
                trade_type: String::new(),
                direction: if d.taker_is_bid {
                    TradeDirection::Up
                } else {
                    TradeDirection::Down
                },
                trade_session: TradeSession::Intraday,
            };
            let mut trades: Vec<Trade> = Vec::new();
            trades.push(trade);
            out.push(PushEvent { symbol: symbol.to_string(), detail: PushEventDetail::Trades(trades) });
        }
    } else if str_eq(envelope.event_type.as_str(), "deepbook_order_book_depth") {
        match &envelope.depth {
            Some(d) => {
                let asks = stream_levels(&d.asks, quote_decimals);
                let bids = stream_levels(&d.bids, quote_decimals);
                let sd = StreamDepth { asks, bids };
                out.push(PushEvent { symbol: symbol.to_string(), detail: PushEventDetail::Depth(sd) });
            },
            None => {},
        }
    }
    out
}

} // verus!
