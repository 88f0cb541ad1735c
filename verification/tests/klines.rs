use surflux_terminal::api::OhlcvCandle;
use surflux_terminal::decimal::Decimal;
use surflux_terminal::kline::{
    bucket_start_timestamp, kline_from_candle, klines_from_candles, request_limit, timeframe,
    KlineStore,
};
use surflux_terminal::types::{Counter, Kline, KlineType};

fn dec(mantissa: i128, scale: u32) -> Decimal {
    Decimal { mantissa, scale, negative: mantissa < 0 }
}

fn kline(timestamp: i64, close: i128) -> Kline {
    Kline {
        timestamp,
        open: dec(close, 0),
        high: dec(close, 0),
        low: dec(close, 0),
        close: dec(close, 0),
        amount: 1,
        balance: dec(0, 0),
        total: 1,
    }
}

#[test]
fn buckets_of_trades() {
    assert_eq!(bucket_start_timestamp(125, KlineType::PerMinute), 120);
    assert_eq!(bucket_start_timestamp(-1, KlineType::PerMinute), -60);
    assert_eq!(bucket_start_timestamp(3_700, KlineType::PerThirtyMinutes), 3_600);
    assert_eq!(bucket_start_timestamp(86_399, KlineType::PerYear), 0);
    assert_eq!(bucket_start_timestamp(299, KlineType::PerFiveMinutes), 0);
}

#[test]
fn timeframes_and_limits() {
    assert_eq!(timeframe(KlineType::PerMinute), "1m");
    assert_eq!(timeframe(KlineType::PerThirtyMinutes), "1h");
    assert_eq!(timeframe(KlineType::PerMonth), "1d");
    assert_eq!(request_limit(40), 40);
    assert_eq!(request_limit(400), 100);
}

#[test]
fn unknown_key_asks_for_klines() {
    let store = KlineStore::new();
    let (klines, req) = store.by_pagination(Counter::new("A_B"), KlineType::PerDay, 1, 20);
    assert!(klines.is_empty());
    let req = req.unwrap();
    assert_eq!(req.counter.as_str(), "A_B");
    assert_eq!(req.kline_type, KlineType::PerDay);
    assert_eq!(req.before, 0);
    assert_eq!(req.count, 40);
}

#[test]
fn update_merges_and_sorts() {
    let mut store = KlineStore::new();
    let c = Counter::new("A_B");
    store.update(c.clone(), KlineType::PerDay, vec![kline(30, 3), kline(10, 1)], true);
    store.update(c.clone(), KlineType::PerDay, vec![kline(20, 2), kline(30, 4)], true);
    let (ks, req) = store.by_pagination(c.clone(), KlineType::PerDay, 0, 2);
    let stamps: Vec<(i64, i128)> = ks.iter().map(|k| (k.timestamp, k.close.mantissa)).collect();
    assert_eq!(stamps, vec![(20, 2), (30, 4)]);
    assert!(req.is_none());
    let (older, req) = store.by_pagination(c.clone(), KlineType::PerDay, 1, 2);
    assert_eq!(older.len(), 1);
    assert_eq!(older[0].timestamp, 10);
    let req = req.unwrap();
    assert_eq!(req.before, 10);
    assert_eq!(req.count, 2);
    store.update(c.clone(), KlineType::PerDay, vec![kline(20, 2), kline(30, 4)], true);
    let (again, _) = store.by_pagination(c.clone(), KlineType::PerDay, 0, 3);
    assert_eq!(again.len(), 3);
    store.clear();
    assert!(store.by_pagination(c, KlineType::PerDay, 0, 3).1.is_some());
}

#[test]
fn trades_update_klines() {
    let mut store = KlineStore::new();
    let c = Counter::new("A_B");
    store.update(c.clone(), KlineType::PerMinute, vec![kline(60, 5)], false);
    assert!(store.try_apply_trade(&c, 70, dec(7, 0), 3, 0));
    assert!(store.try_apply_trade(&c, 130, dec(4, 0), -2, 0));
    let _ = store.try_apply_trade(&c, 10, dec(9, 0), 1, 0);
    assert!(store.try_apply_trade(&c, 200, dec(9, 0), 0, 0));
    let (ks, _) = store.by_pagination(c, KlineType::PerMinute, 0, 10);
    assert_eq!(ks.len(), 2);
    assert_eq!(ks[0].high, dec(7, 0));
    assert_eq!(ks[0].close, dec(7, 0));
    assert_eq!(ks[0].amount, 4);
    assert_eq!(ks[0].total, 2);
    assert_eq!(ks[0].balance, dec(21, 0));
    assert_eq!(ks[1].timestamp, 120);
    assert_eq!(ks[1].low, dec(4, 0));
    assert_eq!(ks[1].amount, 2);
    assert_eq!(ks[1].balance, dec(8, 0));
}

fn candle(volume_base: Decimal, count: u64) -> OhlcvCandle {
    OhlcvCandle {
        timestamp: 86_400,
        open: dec(1, 0),
        high: dec(2, 0),
        low: dec(1, 0),
        close: dec(2, 0),
        volume_base,
        volume_quote: dec(55, 1),
        trade_count: count,
    }
}

#[test]
fn candles_become_klines() {
    let k = kline_from_candle(&candle(dec(25, 1), 9));
    assert_eq!(k.amount, 2);
    assert_eq!(k.balance, dec(55, 1));
    assert_eq!(k.total, 9);
    assert_eq!(k.timestamp, 86_400);
    assert_eq!(kline_from_candle(&candle(dec(-3, 0), 0)).amount, 0);
    assert_eq!(klines_from_candles(&vec![candle(dec(35, 1), 1)])[0].amount, 4);
    let mut store = KlineStore::new();
    let c = Counter::new("A_B");
    store.store_candles(c.clone(), KlineType::PerDay, &vec![candle(dec(1, 0), 1)], 1);
    let (_, req) = store.by_pagination(c.clone(), KlineType::PerDay, 0, 5);
    assert_eq!(req.unwrap().before, 86_400);
    store.store_candles(c.clone(), KlineType::PerDay, &vec![candle(dec(1, 0), 1)], 2);
    let (ks, req) = store.by_pagination(c, KlineType::PerDay, 0, 5);
    assert_eq!(ks.len(), 1);
    assert!(req.is_none());
}
