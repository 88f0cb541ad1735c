use surflux_terminal::api::{StreamDepth, StreamDepthLevel, Trade, TradeDirection, TradeSession};
use surflux_terminal::context::{WatchlistPoolEntry, WatchlistPoolGroup};
use surflux_terminal::decimal::Decimal;
use surflux_terminal::feed::{
    apply_trades, collect_watchlist, footer_symbols, min_frame_interval_ms, queue_trades,
    sort_trades_by_time,
};
use surflux_terminal::keys::AppState;
use surflux_terminal::kline::KlineStore;
use surflux_terminal::pool::Pool;
use surflux_terminal::types::{Counter, Kline, KlineType, TradeData};

fn dec(mantissa: i128, scale: u32) -> Decimal {
    Decimal { mantissa, scale, negative: mantissa < 0 }
}

fn pushed(volume: i64) -> Trade {
    Trade {
        price: dec(1, 0),
        volume,
        timestamp: volume,
        trade_type: String::new(),
        direction: TradeDirection::Down,
        trade_session: TradeSession::Intraday,
    }
}

fn held(volume: i64, timestamp: i64) -> TradeData {
    TradeData { price: dec(2, 0), volume, timestamp, trade_type: String::new(), direction: surflux_terminal::types::TradeDirection::Up }
}

#[test]
fn pushed_trades_wait_newest_first() {
    let mut pending = vec![held(100, 0)];
    queue_trades(&mut pending, &vec![pushed(1), pushed(2)]);
    let vols: Vec<i64> = pending.iter().map(|t| t.volume).collect();
    assert_eq!(vols, vec![1, 2, 100]);
    assert_eq!(pending[0].direction, surflux_terminal::types::TradeDirection::Down);
    let many: Vec<Trade> = (0..250).map(pushed).collect();
    queue_trades(&mut pending, &many);
    assert_eq!(pending.len(), 200);
    assert_eq!(pending[199].volume, 199);
}

#[test]
fn pool_keeps_fifty_latest_trades() {
    let mut pool = Pool::new(Counter::new("A_B"));
    let batch: Vec<TradeData> = (0..30).map(|v| held(v, v)).collect();
    pool.prepend_trades(&batch);
    pool.prepend_trades(&batch);
    assert_eq!(pool.trades.len(), 50);
    assert_eq!(pool.trades[0].volume, 0);
    assert_eq!(pool.trades[30].volume, 0);
    assert_eq!(pool.trades[49].volume, 19);
}

#[test]
fn pushed_order_book_replaces_pools() {
    let mut pool = Pool::new(Counter::new("A_B"));
    let book = StreamDepth {
        asks: vec![StreamDepthLevel { position: 1, price: None, volume: 3, order_num: 1 }],
        bids: vec![StreamDepthLevel { position: 1, price: Some(dec(9, 1)), volume: 4, order_num: 2 }],
    };
    pool.update_from_stream_depth(&book);
    assert_eq!(pool.depth.asks[0].price, dec(0, 0));
    assert_eq!(pool.depth.bids[0].price, dec(9, 1));
    assert_eq!(pool.depth.bids[0].volume, 4);
}

#[test]
fn trades_sorted_by_time_stably() {
    let trades = vec![held(1, 30), held(2, 10), held(3, 30), held(4, 20), held(5, 10)];
    let sorted = sort_trades_by_time(&trades);
    let vols: Vec<i64> = sorted.iter().map(|t| t.volume).collect();
    assert_eq!(vols, vec![2, 5, 4, 1, 3]);
}

#[test]
fn trades_folded_into_klines() {
    let mut store = KlineStore::new();
    let counter = Counter::new("A_B");
    let k = Kline {
        timestamp: 60,
        open: dec(1, 0),
        high: dec(1, 0),
        low: dec(1, 0),
        close: dec(1, 0),
        amount: 0,
        balance: dec(0, 0),
        total: 0,
    };
    store.update(counter.clone(), KlineType::PerMinute, vec![k], false);
    apply_trades(&mut store, &counter, &vec![held(5, 61), held(0, 62), held(5, 125)], 0);
    let (klines, request) = store.by_pagination(counter, KlineType::PerMinute, 0, 10);
    assert!(request.is_none());
    assert_eq!(klines.len(), 2);
    assert_eq!(klines[0].amount, 5);
    assert_eq!(klines[0].total, 1);
    assert_eq!(klines[0].high, dec(2, 0));
    assert_eq!(klines[1].timestamp, 120);
    assert_eq!(klines[1].open, dec(2, 0));
}

#[test]
fn footer_and_frames() {
    let f = footer_symbols(&vec!["A_B".to_string()]);
    let texts: Vec<&str> = f.iter().map(|c| c.as_str()).collect();
    assert_eq!(texts, vec!["A_B", "", ""]);
    assert_eq!(footer_symbols(&vec!["1".into(), "2".into(), "3".into(), "4".into()])[2].as_str(), "3");
    assert_eq!(min_frame_interval_ms(AppState::Pool), 16);
    assert_eq!(min_frame_interval_ms(AppState::Watchlist), 33);
}

fn group(id: u64, symbols: &[&str]) -> WatchlistPoolGroup {
    WatchlistPoolGroup {
        id,
        name: format!("G{id}"),
        pools: symbols
            .iter()
            .map(|s| WatchlistPoolEntry { symbol: s.to_string(), name: s.to_string() })
            .collect(),
    }
}

#[test]
fn watchlist_from_groups() {
    let groups = vec![group(1, &["A_B", "C_D"]), group(2, &["E_F"])];
    let (counters, list) = collect_watchlist(&groups, None);
    let names: Vec<&str> = counters.iter().map(|c| c.as_str()).collect();
    assert_eq!(names, vec!["A_B", "C_D", "E_F"]);
    assert_eq!(list.len(), 2);
    assert_eq!(list[1].name, "G2");
    let (only, list2) = collect_watchlist(&groups, Some(2));
    assert_eq!(only.len(), 1);
    assert_eq!(only[0].as_str(), "E_F");
    assert_eq!(list2.len(), 2);
}
