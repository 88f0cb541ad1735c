use vstd::prelude::*;

use crate::decimal::Decimal;

verus! {

#[derive(Clone, Copy, Debug, PartialEq, Eq, Structural)]
pub enum TradeStatus {
    Normal,
    Unavailable,
}

#[derive(Clone, Copy, Debug, PartialEq, Eq, Structural)]
pub enum TradeSession {
    Intraday,
}

/// The side that took liquidity: up for a buying taker, down for a selling one.
#[derive(Clone, Copy, Debug, PartialEq, Eq, Structural)]
pub enum TradeDirection {
    Neutral,
    Up,
    Down,
}

/// A live quote pushed by the stream. Timestamps are Unix seconds.
#[derive(Clone, Copy, Debug)]
pub struct PushQuote {
    pub last_done: Decimal,
    pub open: Decimal,
    pub high: Decimal,
    pub low: Decimal,
    pub timestamp: i64,
    pub volume: i64,
    pub turnover: Decimal,
    pub trade_status: TradeStatus,
    pub trade_session: TradeSession,
    pub current_volume: i64,
    pub current_turnover: Decimal,
}

/// One trade. The timestamp is in Unix seconds.
#[derive(Clone, Debug)]
pub struct Trade {
    pub price: Decimal,
    pub volume: i64,
    pub timestamp: i64,
    pub trade_type: String,
    pub direction: TradeDirection,
    pub trade_session: TradeSession,
}

/// One level of an order-book snapshot.
#[derive(Clone, Copy, Debug)]
pub struct Depth {
    pub position: i32,
    pub price: Option<Decimal>,
    pub volume: i64,
    pub order_num: i64,
}

#[derive(Clone, Debug)]
pub struct SecurityDepth {
    pub asks: Vec<Depth>,
    pub bids: Vec<Depth>,
}

/// A quote snapshot. The timestamp is in Unix seconds.
#[derive(Clone, Debug)]
pub struct SecurityQuote {
    pub symbol: String,
    pub last_done: Decimal,
    pub prev_close: Decimal,
    pub open: Decimal,
    pub high: Decimal,
    pub low: Decimal,
    pub timestamp: i64,
    pub volume: i64,
    pub turnover: Decimal,
    pub trade_status: TradeStatus,
    pub pre_market_quote: Option<()>,
    pub post_market_quote: Option<()>,
    pub overnight_quote: Option<()>,
}

/// One level of an order book pushed by the stream.
#[derive(Clone, Copy, Debug)]
pub struct StreamDepthLevel {
    pub position: i32,
    pub price: Option<Decimal>,
    pub volume: i64,
    pub order_num: i64,
}

#[derive(Clone, Debug)]
pub struct StreamDepth {
    pub asks: Vec<StreamDepthLevel>,
    pub bids: Vec<StreamDepthLevel>,
}

#[derive(Clone, Debug)]
pub enum PushEventDetail {
    Quote(PushQuote),
    Depth(StreamDepth),
    Trades(Vec<Trade>),
}

#[derive(Clone, Debug)]
pub struct PushEvent {
    pub symbol: String,
    pub detail: PushEventDetail,
}

/// One candlestick as the service reports it. The timestamp is in Unix seconds.
#[derive(Clone, Copy, Debug)]
pub struct OhlcvCandle {
    pub timestamp: i64,
    pub open: Decimal,
    pub high: Decimal,
    pub low: Decimal,
    pub close: Decimal,
    pub volume_base: Decimal,
    pub volume_quote: Decimal,
    pub trade_count: u64,
}

} // verus!
