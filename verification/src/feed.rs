use vstd::prelude::*;

use crate::api::{StreamDepth, StreamDepthLevel, Trade};
use crate::context::WatchlistPoolGroup;
use crate::decimal::{max_scale, Decimal};
use crate::keys::AppState;
use crate::kline::{bucket_start_spec, trade_fits, traded_value, KlineStore, StoreKey};
use crate::pool::{direction_spec, trade_data_matches, Pool};
use crate::types::{Counter, Depth, KlineType, TradeData, TradeDirection};
use crate::watchlist::WatchlistGroup;

verus! {

broadcast use vstd::seq_lib::group_seq_properties;

// ---------------------------------------------------------------------------
// Trades waiting for the next frame
// ---------------------------------------------------------------------------

/// The most trades kept waiting for a pool between two frames.
pub open spec fn pending_limit() -> int {
    200
}

/// The most trades a pool keeps.
pub open spec fn pool_trades_limit() -> int {
    50
}

/// What a pool holds of a trade of the stream.
pub fn trade_data_of(t: &Trade) -> (r: TradeData)
    ensures
        trade_data_matches(r, *t),
{
    TradeData {
        price: t.price,
        volume: t.volume,
        timestamp: t.timestamp,
        trade_type: t.trade_type.clone(),
        direction: match t.direction {
            crate::api::TradeDirection::Up => TradeDirection::Up,
            crate::api::TradeDirection::Down => TradeDirection::Down,
            crate::api::TradeDirection::Neutral => TradeDirection::Neutral,
        },
    }
}

/// The first `limit` of `front` followed by `back`.
pub open spec fn capped(front: Seq<TradeData>, back: Seq<TradeData>, limit: int) -> Seq<TradeData> {
    let all = front + back;
    if all.len() <= limit {
        all
    } else {
        all.take(limit)
    }
}

/// Puts newly pushed trades in front of those waiting for a pool, the newest
/// two hundred kept.
pub fn queue_trades(pending: &mut Vec<TradeData>, trades: &Vec<Trade>)
    ensures
        final(pending).len() == (if trades.len() + old(pending).len() <= pending_limit() {
            trades.len() + old(pending).len()
        } else {
            pending_limit()
        }),
        forall|i: int| 0 <= i < final(pending).len() && i < trades.len() ==> trade_data_matches(#[trigger] final(pending)@[i], trades@[i]),
        forall|i: int| trades.len() <= i < final(pending).len() ==> #[trigger] final(pending)@[i] == old(pending)@[i - trades.len()],
{
    let mut out: Vec<TradeData> = Vec::new();
    let mut i: usize = 0;
    while i < trades.len() && i < 200
        invariant
            i <= trades.len(),
            i <= 200,
            out.len() == i,
            forall|j: int| 0 <= j < i ==> trade_data_matches(#[trigger] out@[j], trades@[j]),
        decreases trades.len() - i,
    {
        out.push(trade_data_of(&trades[i]));
        i = i + 1;
    }
    let mut j: usize = 0;
    while j < pending.len() && out.len() < 200
        invariant
            j <= pending.len(),
            out.len() == i + j,
            out.len() <= 200,
            i == trades.len() || i == 200,
            i <= trades.len(),
            i == 200 ==> j == 0,
            forall|k: int| 0 <= k < i ==> trade_data_matches(#[trigger] out@[k], trades@[k]),
            forall|k: int| i <= k < out.len() ==> #[trigger] out@[k] == pending@[k - i],
        decreases pending.len() - j,
    {
        out.push(pending[j].clone());
        j = j + 1;
    }
    *pending = out;
}

impl Pool {
    /// Puts a batch of trades in front of the pool's, the newest fifty kept.
    pub fn prepend_trades(&mut self, batch: &Vec<TradeData>)
        ensures
            final(self).trades@ == capped(batch@, old(self).trades@, pool_trades_limit()),
            final(self).counter == old(self).counter,
            final(self).name == old(self).name,
            final(self).status == old(self).status,
            final(self).quote == old(self).quote,
            final(self).depth == old(self).depth,
    {
        let ghost all = batch@ + self.trades@;
        let mut out: Vec<TradeData> = Vec::new();
        let mut i: usize = 0;
        while i < batch.len() && i < 50
            invariant
                i <= batch.len(),
                i <= 50,
                all == batch@ + self.trades@,
                out@ == all.take(i as int),
            decreases batch.len() - i,
        {
            out.push(batch[i].clone());
            assert(out@ =~= all.take(i + 1));
            i = i + 1;
        }
        let mut j: usize = 0;
        while j < self.trades.len() && out.len() < 50
            invariant
                j <= self.trades.len(),
                i == batch.len() || i == 50,
                i <= batch.len(),
                i == 50 ==> j == 0,
                out.len() == i + j,
                out.len() <= 50,
                all == batch@ + self.trades@,
                out@ == all.take(out.len() as int),
            decreases self.trades.len() - j,
        {
            out.push(self.trades[j].clone());
            assert(out@ =~= all.take(out.len() as int));
            j = j + 1;
        }
        assert(all.len() <= pool_trades_limit() ==> out@ =~= all);
        self.trades = out;
    }

    /// Takes an order book pushed by the stream, a missing price as zero.
    pub fn update_from_stream_depth(&mut self, depth: &StreamDepth)
        ensures
            final(self).depth.asks@ == depth.asks@.map_values(|d: StreamDepthLevel| stream_depth_of(d)),
            final(self).depth.bids@ == depth.bids@.map_values(|d: StreamDepthLevel| stream_depth_of(d)),
            final(self).counter == old(self).counter,
            final(self).name == old(self).name,
            final(self).status == old(self).status,
            final(self).quote == old(self).quote,
            final(self).trades == old(self).trades,
    {
        self.depth.asks = map_stream_levels(&depth.asks);
        self.depth.bids = map_stream_levels(&depth.bids);
    }
}

/// A level of a pushed order book as a pool holds it: a missing price is zero.
pub open spec fn stream_depth_of(d: StreamDepthLevel) -> Depth {
    Depth {
        position: d.position,
        price: match d.price {
            Some(p) => p,
            None => Decimal { mantissa: 0, scale: 0, negative: false },
        },
        volume: d.volume,
        order_num: d.order_num,
    }
}

fn map_stream_levels(levels: &Vec<StreamDepthLevel>) -> (r: Vec<Depth>)
    ensures
        r@ == levels@.map_values(|d: StreamDepthLevel| stream_depth_of(d)),
{
    let mut out: Vec<Depth> = Vec::new();
    let mut i: usize = 0;
    while i < levels.len()
        invariant
            i <= levels.len(),
            out@ =~= levels@.take(i as int).map_values(|d: StreamDepthLevel| stream_depth_of(d)),
        decreases levels.len() - i,
    {
        let d = levels[i];
        let price = match d.price {
            Some(p) => p,
            None => Decimal::zero(),
        };
        out.push(Depth { position: d.position, price, volume: d.volume, order_num: d.order_num });
        i = i + 1;
        assert(levels@.take(i as int) =~= levels@.take(i - 1).push(d));
    }
    assert(levels@.take(i as int) =~= levels@);
    out
}

// ---------------------------------------------------------------------------
// Trades in time order
// ---------------------------------------------------------------------------

/// How many trades of a list are at or before `ts`.
pub open spec fn count_at_or_before(s: Seq<TradeData>, ts: i64) -> int
    decreases s.len(),
{
    if s.len() == 0 {
        0
    } else {
        count_at_or_before(s.drop_last(), ts) + if s.last().timestamp <= ts { 1int } else { 0int }
    }
}

/// Trades sorted by time, earliest first.
pub open spec fn time_sorted(s: Seq<TradeData>) -> bool {
    forall|i: int, j: int| 0 <= i < j < s.len() ==> s[i].timestamp <= s[j].timestamp
}

/// A trade put into a time-sorted list after every trade at or before its
/// time.
pub open spec fn insert_by_time(s: Seq<TradeData>, t: TradeData) -> Seq<TradeData> {
    s.insert(count_at_or_before(s, t.timestamp), t)
}

/// Trades sorted by time, those of the same time in the order given (a
/// stable sort).
pub open spec fn sort_by_time(s: Seq<TradeData>) -> Seq<TradeData>
    decreases s.len(),
{
    if s.len() == 0 {
        s
    } else {
        insert_by_time(sort_by_time(s.drop_last()), s.last())
    }
}

/// In a time-sorted list, the trades at or before a time come first.
proof fn lemma_count_prefix(s: Seq<TradeData>, ts: i64)
    requires
        time_sorted(s),
    ensures
        0 <= count_at_or_before(s, ts) <= s.len(),
        forall|i: int| 0 <= i < count_at_or_before(s, ts) ==> s[i].timestamp <= ts,
        forall|i: int| count_at_or_before(s, ts) <= i < s.len() ==> s[i].timestamp > ts,
    decreases s.len(),
{
    if s.len() > 0 {
        let d = s.drop_last();
        assert(time_sorted(d)) by {
            assert forall|i: int, j: int| 0 <= i < j < d.len() implies d[i].timestamp <= d[j].timestamp by {
                assert(d[i] == s[i]);
                assert(d[j] == s[j]);
            }
        }
        lemma_count_prefix(d, ts);
        let c = count_at_or_before(d, ts);
        let n = s.len() - 1;
        if s.last().timestamp <= ts {
            assert forall|i: int| 0 <= i < n implies d[i].timestamp <= ts by {
                assert(s[i].timestamp <= s[n].timestamp);
                assert(d[i] == s[i]);
            }
            if c < n {
                assert(d[c].timestamp > ts);
            }
            assert(c == n);
            assert forall|i: int| 0 <= i < count_at_or_before(s, ts) implies s[i].timestamp <= ts by {
                if i < n {
                    assert(d[i] == s[i]);
                }
            }
        } else {
            assert(count_at_or_before(s, ts) == c);
            assert forall|i: int| 0 <= i < count_at_or_before(s, ts) implies s[i].timestamp <= ts by {
                assert(d[i] == s[i]);
            }
            assert forall|i: int| count_at_or_before(s, ts) <= i < s.len() implies s[i].timestamp > ts by {
                if i < n {
                    assert(d[i] == s[i]);
                }
            }
        }
    }
}

pub proof fn lemma_sort_by_time(s: Seq<TradeData>)
    ensures
        time_sorted(sort_by_time(s)),
        sort_by_time(s).len() == s.len(),
    decreases s.len(),
{
    if s.len() > 0 {
        lemma_sort_by_time(s.drop_last());
        let r = sort_by_time(s.drop_last());
        let t = s.last();
        lemma_count_prefix(r, t.timestamp);
        let p = count_at_or_before(r, t.timestamp);
        let out = r.insert(p, t);
        assert forall|i: int, j: int| 0 <= i < j < out.len() implies out[i].timestamp <= out[j].timestamp by {
            if j < p {
            } else if j == p {
            } else if i < p {
                assert(out[j] == r[j - 1]);
            } else if i == p {
                assert(out[j] == r[j - 1]);
            } else {
                assert(out[i] == r[i - 1]);
                assert(out[j] == r[j - 1]);
            }
        }
    }
}

/// Sorting by time keeps every trade, each as often as it came.
pub proof fn lemma_sort_by_time_permutes(s: Seq<TradeData>)
    ensures
        sort_by_time(s).to_multiset() == s.to_multiset(),
    decreases s.len(),
{
    if s.len() > 0 {
        lemma_sort_by_time_permutes(s.drop_last());
        let r = sort_by_time(s.drop_last());
        let t = s.last();
        lemma_sort_by_time(s.drop_last());
        lemma_count_prefix(r, t.timestamp);
        let p = count_at_or_before(r, t.timestamp);
        vstd::seq_lib::to_multiset_insert(r, p, t);
        s.drop_last().to_multiset_ensures();
        assert(s =~= s.drop_last().push(t));
    }
}

/// The trades sorted by time, those of the same time in the order given.
pub fn sort_trades_by_time(trades: &Vec<TradeData>) -> (r: Vec<TradeData>)
    ensures
        r@ == sort_by_time(trades@),
        time_sorted(r@),
{
    let mut out: Vec<TradeData> = Vec::new();
    let mut i: usize = 0;
    while i < trades.len()
        invariant
            i <= trades.len(),
            out@ == sort_by_time(trades@.take(i as int)),
        decreases trades.len() - i,
    {
        let t = trades[i].clone();
        proof {
            assert(trades@.take(i + 1).drop_last() =~= trades@.take(i as int));
            lemma_sort_by_time(trades@.take(i as int));
            lemma_count_prefix(out@, t.timestamp);
        }
        let ghost target = count_at_or_before(out@, t.timestamp);
        let mut p: usize = 0;
        while p < out.len() && out[p].timestamp <= t.timestamp
            invariant
                p <= out.len(),
                p <= target,
                0 <= target <= out.len(),
                forall|k: int| target <= k < out.len() ==> out@[k].timestamp > t.timestamp,
            decreases out.len() - p,
        {
            p = p + 1;
        }
        out.insert(p, t);
        i = i + 1;
    }
    proof {
        assert(trades@.take(trades.len() as int) =~= trades@);
        lemma_sort_by_time(trades@);
    }
    out
}

// ---------------------------------------------------------------------------
// Trades folded into the candlesticks
// ---------------------------------------------------------------------------

/// The store's klines after one trade: folded in where it has volume and its
/// turnover fits; unchanged otherwise.
pub open spec fn after_trade(m: Map<StoreKey, (bool, Seq<crate::types::Kline>)>, counter: Seq<char>, t: TradeData, base_decimals: u32) -> Map<StoreKey, (bool, Seq<crate::types::Kline>)> {
    if t.volume != 0 && trade_fits(m, counter, t.timestamp, t.price, t.volume, base_decimals) {
        Map::new(
            |k: StoreKey| m.contains_key(k),
            |k: StoreKey| traded_value(k, m[k], counter, t.timestamp, t.price, t.volume, base_decimals),
        )
    } else {
        m
    }
}

/// The store's klines after the trades, in order.
pub open spec fn after_trades(m: Map<StoreKey, (bool, Seq<crate::types::Kline>)>, counter: Seq<char>, ts: Seq<TradeData>, base_decimals: u32) -> Map<StoreKey, (bool, Seq<crate::types::Kline>)>
    decreases ts.len(),
{
    if ts.len() == 0 {
        m
    } else {
        after_trades(after_trade(m, counter, ts[0], base_decimals), counter, ts.drop_first(), base_decimals)
    }
}

/// Folds trades of a pool into its candlesticks, in the order given; a trade
/// whose turnover does not fit is left out.
pub fn apply_trades(store: &mut KlineStore, counter: &Counter, trades: &Vec<TradeData>, base_decimals: u32)
    requires
        old(store).wf(),
        forall|i: int| 0 <= i < trades.len() && (#[trigger] trades@[i]).volume != 0 ==> base_decimals <= max_scale(),
        forall|i: int| 0 <= i < trades.len() ==> (#[trigger] trades@[i]).price.wf(),
        forall|i: int, kt: KlineType| 0 <= i < trades.len() ==> #[trigger] bucket_start_spec(trades@[i].timestamp as int, kt) >= i64::MIN,
    ensures
        final(store).wf(),
        final(store)@ == after_trades(old(store)@, counter@, trades@, base_decimals),
{
    let mut i: usize = 0;
    assert(trades@.skip(0) =~= trades@);
    while i < trades.len()
        invariant
            i <= trades.len(),
            store.wf(),
            forall|j: int| 0 <= j < trades.len() && (#[trigger] trades@[j]).volume != 0 ==> base_decimals <= max_scale(),
            forall|j: int| 0 <= j < trades.len() ==> (#[trigger] trades@[j]).price.wf(),
            forall|j: int, kt: KlineType| 0 <= j < trades.len() ==> #[trigger] bucket_start_spec(trades@[j].timestamp as int, kt) >= i64::MIN,
            after_trades(store@, counter@, trades@.skip(i as int), base_decimals) == after_trades(old(store)@, counter@, trades@, base_decimals),
        decreases trades.len() - i,
    {
        let ghost before = store@;
        let t = &trades[i];
        assert(forall|kt: KlineType| bucket_start_spec(t.timestamp as int, kt) >= i64::MIN);
        let _ = store.try_apply_trade(counter, t.timestamp, t.price, t.volume, base_decimals);
        proof {
            assert(store@ == after_trade(before, counter@, trades@[i as int], base_decimals));
            assert(trades@.skip(i as int).drop_first() =~= trades@.skip(i + 1));
        }
        i = i + 1;
    }
}

// ---------------------------------------------------------------------------
// The footer, the frame rate, the watchlist
// ---------------------------------------------------------------------------

/// The pools of the footer: the first three configured, the empty counter
/// for those missing.
pub fn footer_symbols(symbols: &Vec<String>) -> (r: Vec<Counter>)
    ensures
        r.len() == 3,
        forall|i: int| 0 <= i < 3 ==> (#[trigger] r@[i])@ == (if i < symbols.len() {
            symbols@[i]@
        } else {
            Seq::<char>::empty()
        }),
{
    let mut r: Vec<Counter> = Vec::new();
    let mut i: usize = 0;
    while i < 3
        invariant
            i <= 3,
            r.len() == i,
            forall|j: int| 0 <= j < i ==> (#[trigger] r@[j])@ == (if j < symbols.len() {
                symbols@[j]@
            } else {
                Seq::<char>::empty()
            }),
        decreases 3 - i,
    {
        if i < symbols.len() {
            r.push(Counter::new(symbols[i].as_str()));
        } else {
            r.push(Counter::default());
        }
        i = i + 1;
    }
    r
}

/// The shortest time between two frames, in milliseconds: 16 on the pool
/// screens, 33 elsewhere.
pub fn min_frame_interval_ms(state: AppState) -> (r: u64)
    ensures
        r == (match state {
            AppState::Pool | AppState::WatchlistPool => 16u64,
            _ => 33u64,
        }),
{
    match state {
        AppState::Pool | AppState::WatchlistPool => 16,
        _ => 33,
    }
}

/// The groups of a watchlist (id and name, in order) and the pools of the
/// group chosen (of every group where none is), in order.
pub open spec fn group_list(groups: Seq<WatchlistPoolGroup>) -> Seq<(u64, Seq<char>)> {
    groups.map_values(|g: WatchlistPoolGroup| (g.id, g.name@))
}

pub open spec fn chosen_symbols(groups: Seq<WatchlistPoolGroup>, group_id: Option<u64>) -> Seq<Seq<char>>
    decreases groups.len(),
{
    if groups.len() == 0 {
        Seq::empty()
    } else {
        let rest = chosen_symbols(groups.drop_last(), group_id);
        let g = groups.last();
        if group_id is None || group_id == Some(g.id) {
            rest + g.pools@.map_values(|e: crate::context::WatchlistPoolEntry| e.symbol@)
        } else {
            rest
        }
    }
}

/// The counters to watch and the groups to offer, from a fetched watchlist.
pub fn collect_watchlist(groups: &Vec<WatchlistPoolGroup>, group_id: Option<u64>) -> (r: (Vec<Counter>, Vec<WatchlistGroup>))
    ensures
        r.0@.map_values(|c: Counter| c@) == chosen_symbols(groups@, group_id),
        r.1@.map_values(|g: WatchlistGroup| (g.id, g.name@)) == group_list(groups@),
{
    let mut counters: Vec<Counter> = Vec::new();
    let mut list: Vec<WatchlistGroup> = Vec::new();
    let mut i: usize = 0;
    while i < groups.len()
        invariant
            i <= groups.len(),
            counters@.map_values(|c: Counter| c@) == chosen_symbols(groups@.take(i as int), group_id),
            list@.map_values(|g: WatchlistGroup| (g.id, g.name@)) == group_list(groups@.take(i as int)),
        decreases groups.len() - i,
    {
        let g = &groups[i];
        proof {
            assert(groups@.take(i + 1).drop_last() =~= groups@.take(i as int));
        }
        let ghost list_before = list@.map_values(|g: WatchlistGroup| (g.id, g.name@));
        list.push(WatchlistGroup { id: g.id, name: g.name.clone() });
        assert(list@.map_values(|g: WatchlistGroup| (g.id, g.name@)) =~= list_before.push((g.id, g.name@)));
        assert(group_list(groups@.take(i + 1)) =~= group_list(groups@.take(i as int)).push((g.id, g.name@)));
        let take = match group_id {
            Some(id) => id == g.id,
            None => true,
        };
        if take {
            let ghost start = counters@.map_values(|c: Counter| c@);
            let mut k: usize = 0;
            while k < g.pools.len()
                invariant
                    k <= g.pools.len(),
                    counters@.map_values(|c: Counter| c@) == start + g.pools@.take(k as int).map_values(|e: crate::context::WatchlistPoolEntry| e.symbol@),
                decreases g.pools.len() - k,
            {
                let ghost before = counters@.map_values(|c: Counter| c@);
                counters.push(Counter::new(g.pools[k].symbol.as_str()));
                assert(counters@.map_values(|c: Counter| c@) =~= before.push(g.pools@[k as int].symbol@));
                assert(g.pools@.take(k + 1).map_values(|e: crate::context::WatchlistPoolEntry| e.symbol@) =~= g.pools@.take(k as int).map_values(|e: crate::context::WatchlistPoolEntry| e.symbol@).push(g.pools@[k as int].symbol@));
                k = k + 1;
            }
            assert(g.pools@.take(g.pools.len() as int) =~= g.pools@);
        }
        i = i + 1;
    }
    assert(groups@.take(groups.len() as int) =~= groups@);
    (counters, list)
}

} // verus!
