use vstd::prelude::*;

use crate::api::{self, PushQuote, SecurityDepth, SecurityQuote, Trade, TradeStatus};
use crate::decimal::Decimal;
use crate::types::{counter_code, Counter, Depth, DepthData, QuoteData, TradeData, TradeDirection};

verus! {

/// The status a pool is shown with: trading, or unavailable.
pub open spec fn pool_status_spec(status: TradeStatus) -> Seq<char> {
    if status == TradeStatus::Normal {
        "Trading"@
    } else {
        "Unavailable"@
    }
}

pub fn map_pool_status(status: TradeStatus) -> (r: String)
    ensures
        r@ == pool_status_spec(status),
{
    if status == TradeStatus::Normal {
        "Trading".to_owned()
    } else {
        "Unavailable".to_owned()
    }
}

/// The library's trade direction for the service's.
pub open spec fn direction_spec(d: api::TradeDirection) -> TradeDirection {
    match d {
        api::TradeDirection::Neutral => TradeDirection::Neutral,
        api::TradeDirection::Down => TradeDirection::Down,
        api::TradeDirection::Up => TradeDirection::Up,
    }
}

/// A level of the order book as a pool holds it: a missing price is zero.
pub open spec fn depth_of(d: api::Depth) -> Depth {
    Depth {
        position: d.position,
        price: match d.price {
            Some(p) => p,
            None => Decimal { mantissa: 0, scale: 0, negative: false },
        },
        volume: d.volume,
        order_num: d.order_num,
    }
}

/// What a pool holds of one trade.
pub open spec fn trade_data_matches(t: TradeData, src: Trade) -> bool {
    &&& t.price == src.price
    &&& t.volume == src.volume
    &&& t.timestamp == src.timestamp
    &&& t.trade_type@ == src.trade_type@
    &&& t.direction == direction_spec(src.direction)
}

fn map_depths(levels: &Vec<api::Depth>) -> (r: Vec<Depth>)
    ensures
        r@ == levels@.map_values(|d: api::Depth| depth_of(d)),
{
    let mut out: Vec<Depth> = Vec::new();
    let mut i: usize = 0;
    while i < levels.len()
        invariant
            i <= levels.len(),
            out@ =~= levels@.take(i as int).map_values(|d: api::Depth| depth_of(d)),
        decreases levels.len() - i,
    {
        let d = levels[i];
        let price = match d.price {
            Some(p) => p,
            None => Decimal::zero(),
        };
        out.push(Depth { position: d.position, price, volume: d.volume, order_num: d.order_num });
        i = i + 1;
        assert(levels@.take(i as int) =~= levels@.take(i - 1).push(d));
    }
    assert(levels@.take(i as int) =~= levels@);
    out
}

fn map_direction(d: api::TradeDirection) -> (r: TradeDirection)
    ensures
        r == direction_spec(d),
{
    match d {
        api::TradeDirection::Neutral => TradeDirection::Neutral,
        api::TradeDirection::Down => TradeDirection::Down,
        api::TradeDirection::Up => TradeDirection::Up,
    }
}

/// A pool's quote, order book and latest trades.
#[derive(Debug)]
pub struct Pool {
    pub counter: Counter,
    pub name: String,
    pub status: String,
    pub quote: QuoteData,
    pub depth: DepthData,
    pub trades: Vec<TradeData>,
}

impl Pool {
    pub fn new(counter: Counter) -> (r: Self)
        ensures
            is_fresh_pool(r, counter),
    {
        Pool {
            counter,
            name: String::new(),
            status: "Trading".to_owned(),
            quote: QuoteData::default(),
            depth: DepthData::default(),
            trades: Vec::new(),
        }
    }

    /// A new pool named after its counter, as a watchlist first shows it.
    pub fn named(counter: Counter) -> (r: Self)
        ensures
            r.name@ == counter@,
            is_fresh_but_named(r, counter),
    {
        let name = counter.to_string();
        let mut pool = Pool::new(counter);
        pool.name = name;
        pool
    }

    pub fn quoting(&self) -> (r: bool)
        ensures
            r,
    {
        true
    }

    /// The pool's name, or the code of its counter while it has none.
    pub fn display_name(&self) -> (r: &str)
        ensures
            r@ == if self.name@.len() == 0 {
                counter_code(self.counter@)
            } else {
                self.name@
            },
    {
        if self.name.as_str().is_empty() {
            self.counter.code()
        } else {
            self.name.as_str()
        }
    }

    pub fn update_from_push_quote(&mut self, quote: &PushQuote)
        ensures
            final(self).quote.last_done == Some(quote.last_done),
            final(self).quote.open == Some(quote.open),
            final(self).quote.high == Some(quote.high),
            final(self).quote.low == Some(quote.low),
            final(self).quote.volume == quote.volume as u64,
            final(self).quote.quote_volume == quote.turnover,
            final(self).quote.timestamp == quote.timestamp,
            final(self).quote.prev_close == old(self).quote.prev_close,
            final(self).status@ == pool_status_spec(quote.trade_status),
            final(self).counter == old(self).counter,
            final(self).name == old(self).name,
            final(self).depth == old(self).depth,
            final(self).trades == old(self).trades,
    {
        self.quote.last_done = Some(quote.last_done);
        self.quote.open = Some(quote.open);
        self.quote.high = Some(quote.high);
        self.quote.low = Some(quote.low);
        self.quote.volume = quote.volume as u64;
        self.quote.quote_volume = quote.turnover;
        self.quote.timestamp = quote.timestamp;
        self.status = map_pool_status(quote.trade_status);
    }

    pub fn update_from_quote(&mut self, quote: &SecurityQuote)
        ensures
            final(self).quote.last_done == Some(quote.last_done),
            final(self).quote.prev_close == Some(quote.prev_close),
            final(self).quote.open == Some(quote.open),
            final(self).quote.high == Some(quote.high),
            final(self).quote.low == Some(quote.low),
            final(self).quote.volume == quote.volume as u64,
            final(self).quote.quote_volume == quote.turnover,
            final(self).quote.timestamp == quote.timestamp,
            final(self).status@ == pool_status_spec(quote.trade_status),
            final(self).counter == old(self).counter,
            final(self).name == old(self).name,
            final(self).depth == old(self).depth,
            final(self).trades == old(self).trades,
    {
        self.quote.last_done = Some(quote.last_done);
        self.quote.prev_close = Some(quote.prev_close);
        self.quote.open = Some(quote.open);
        self.quote.high = Some(quote.high);
        self.quote.low = Some(quote.low);
        self.quote.volume = quote.volume as u64;
        self.quote.quote_volume = quote.turnover;
        self.quote.timestamp = quote.timestamp;
        self.status = map_pool_status(quote.trade_status);
    }

    /// Takes the snapshot's order book, a missing price as zero.
    pub fn update_from_depth(&mut self, depth: &SecurityDepth)
        ensures
            final(self).depth.asks@ == depth.asks@.map_values(|d: api::Depth| depth_of(d)),
            final(self).depth.bids@ == depth.bids@.map_values(|d: api::Depth| depth_of(d)),
            final(self).counter == old(self).counter,
            final(self).name == old(self).name,
            final(self).status == old(self).status,
            final(self).quote == old(self).quote,
            final(self).trades == old(self).trades,
    {
        self.depth.asks = map_depths(&depth.asks);
        self.depth.bids = map_depths(&depth.bids);
    }

    /// Replaces the latest trades with the given ones, in their order.
    pub fn update_from_trades(&mut self, trades: &[Trade])
        ensures
            final(self).trades.len() == trades@.len(),
            forall|i: int| 0 <= i < trades@.len() ==> trade_data_matches(#[trigger] final(self).trades@[i], trades@[i]),
            final(self).counter == old(self).counter,
            final(self).name == old(self).name,
            final(self).status == old(self).status,
            final(self).quote == old(self).quote,
            final(self).depth == old(self).depth,
    {
        let mut out: Vec<TradeData> = Vec::new();
        let mut i: usize = 0;
        while i < trades.len()
            invariant
                i <= trades@.len(),
                out.len() == i,
                forall|j: int| 0 <= j < i ==> trade_data_matches(#[trigger] out@[j], trades@[j]),
            decreases trades@.len() - i,
        {
            let t = &trades[i];
            out.push(
                TradeData {
                    price: t.price,
                    volume: t.volume,
                    timestamp: t.timestamp,
                    trade_type: t.trade_type.clone(),
                    direction: map_direction(t.direction),
                },
            );
            i = i + 1;
        }
        self.trades = out;
    }
}

/// A new pool of a counter, whatever its name: trading, no quote, book or
/// trades.
pub open spec fn is_fresh_but_named(p: Pool, counter: Counter) -> bool {
    &&& p.counter == counter
    &&& p.status@ == "Trading"@
    &&& p.quote.last_done is None && p.quote.prev_close is None && p.quote.open is None
        && p.quote.high is None && p.quote.low is None
    &&& p.quote.volume == 0 && p.quote.quote_volume.mantissa == 0 && p.quote.quote_volume.scale == 0 && !p.quote.quote_volume.negative
        && p.quote.timestamp == 0
    &&& p.depth.asks.len() == 0 && p.depth.bids.len() == 0
    &&& p.trades.len() == 0
}

/// A new pool of a counter: no name, trading, no quote, book or trades.
pub open spec fn is_fresh_pool(p: Pool, counter: Counter) -> bool {
    &&& p.name@ == Seq::<char>::empty()
    &&& is_fresh_but_named(p, counter)
}

/// Two pools hold the same data.
pub open spec fn same_pool(a: Pool, b: Pool) -> bool {
    &&& a.counter == b.counter
    &&& a.name == b.name
    &&& a.status == b.status
    &&& a.quote == b.quote
    &&& a.depth.asks@ == b.depth.asks@
    &&& a.depth.bids@ == b.depth.bids@
    &&& a.trades@ == b.trades@
}

impl Clone for Pool {
    fn clone(&self) -> (r: Self)
        ensures
            same_pool(r, *self),
    {
        let mut trades: Vec<TradeData> = Vec::new();
        let mut i: usize = 0;
        while i < self.trades.len()
            invariant
                i <= self.trades.len(),
                trades@ =~= self.trades@.take(i as int),
            decreases self.trades.len() - i,
        {
            trades.push(self.trades[i].clone());
            i = i + 1;
        }
        assert(self.trades@.take(i as int) =~= self.trades@);
        Pool {
            counter: self.counter.clone(),
            name: self.name.clone(),
            status: self.status.clone(),
            quote: self.quote,
            depth: self.depth.clone(),
            trades,
        }
    }
}

impl Default for Pool {
    fn default() -> (r: Self)
        ensures
            r.counter@ == Seq::<char>::empty(),
            r.name@ == Seq::<char>::empty(),
            r.status@ == Seq::<char>::empty(),
            r.depth.asks.len() == 0 && r.depth.bids.len() == 0,
            r.trades.len() == 0,
    {
        Pool {
            counter: Counter::default(),
            name: String::new(),
            status: String::new(),
            quote: QuoteData::default(),
            depth: DepthData::default(),
            trades: Vec::new(),
        }
    }
}

} // verus!
