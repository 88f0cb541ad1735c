use surflux_terminal::api::{
    Depth as BookLevel, PushQuote, SecurityDepth, SecurityQuote, Trade, TradeDirection, TradeSession,
    TradeStatus,
};
use surflux_terminal::decimal::Decimal;
use surflux_terminal::pool::{map_pool_status, Pool};
use surflux_terminal::pools::PoolStore;
use surflux_terminal::types::Counter;
use surflux_terminal::watchlist::{Watchlist, WatchlistGroup};

fn dec(mantissa: i128, scale: u32) -> Decimal {
    Decimal { mantissa, scale, negative: mantissa < 0 }
}

#[test]
fn pool_status_names() {
    assert_eq!(map_pool_status(TradeStatus::Normal), "Trading");
    assert_eq!(map_pool_status(TradeStatus::Unavailable), "Unavailable");
}

#[test]
fn fresh_pool_and_updates() {
    let mut p = Pool::new(Counter::new("SUI_USDC"));
    assert_eq!(p.display_name(), "SUI");
    assert_eq!(p.status, "Trading");
    p.name = "SUI/USDC".to_string();
    assert_eq!(p.display_name(), "SUI/USDC");
    let q = PushQuote {
        last_done: dec(12, 1),
        open: dec(11, 1),
        high: dec(13, 1),
        low: dec(10, 1),
        timestamp: 9,
        volume: 100,
        turnover: dec(120, 0),
        trade_status: TradeStatus::Normal,
        trade_session: TradeSession::Intraday,
        current_volume: 100,
        current_turnover: dec(120, 0),
    };
    p.update_from_push_quote(&q);
    assert_eq!(p.quote.last_done, Some(dec(12, 1)));
    assert_eq!(p.quote.prev_close, None);
    assert_eq!(p.quote.volume, 100);
    let s = SecurityQuote {
        symbol: "SUI_USDC".to_string(),
        last_done: dec(2, 0),
        prev_close: dec(1, 0),
        open: dec(1, 0),
        high: dec(3, 0),
        low: dec(1, 0),
        timestamp: 1,
        volume: 5,
        turnover: dec(9, 0),
        trade_status: TradeStatus::Unavailable,
        pre_market_quote: None,
        post_market_quote: None,
        overnight_quote: None,
    };
    p.update_from_quote(&s);
    assert_eq!(p.quote.prev_close, Some(dec(1, 0)));
    assert_eq!(p.status, "Unavailable");
    let book = SecurityDepth {
        asks: vec![BookLevel { position: 1, price: None, volume: 2, order_num: 1 }],
        bids: vec![],
    };
    p.update_from_depth(&book);
    assert_eq!(p.depth.asks[0].price, dec(0, 0));
    let trades = vec![Trade {
        price: dec(3, 0),
        volume: -4,
        timestamp: 7,
        trade_type: String::new(),
        direction: TradeDirection::Down,
        trade_session: TradeSession::Intraday,
    }];
    p.update_from_trades(&trades);
    assert_eq!(p.trades.len(), 1);
    assert_eq!(p.trades[0].volume, -4);
    assert_eq!(p.trades[0].direction, surflux_terminal::types::TradeDirection::Down);
}

#[test]
fn pool_store_operations() {
    let mut store = PoolStore::new();
    assert!(store.is_empty());
    store.insert(Pool::new(Counter::new("A_B")));
    store.modify(Counter::new("C_D"), |mut p| {
        p.name = "made".to_string();
        p
    });
    store.modify(Counter::new("A_B"), |mut p| {
        p.status = "changed".to_string();
        p
    });
    assert_eq!(store.len(), 2);
    assert_eq!(store.get(&Counter::new("C_D")).unwrap().name, "made");
    assert_eq!(store.get(&Counter::new("A_B")).unwrap().status, "changed");
    let got = store.mget(&[Counter::new("A_B"), Counter::new("X_Y")]);
    assert!(got[0].is_some() && got[1].is_none());
    store.remove(&Counter::new("A_B"));
    assert_eq!(store.len(), 1);
    store.clear();
    assert!(store.is_empty());
}

#[test]
fn watchlist_loads_sorts_and_groups() {
    let mut w = Watchlist::new();
    w.load(vec![Counter::new("C_D"), Counter::new("A_B"), Counter::new("C_D")]);
    let names: Vec<&str> = w.counters().iter().map(|c| c.as_str()).collect();
    assert_eq!(names, vec!["C_D", "A_B"]);
    w.refresh();
    let names: Vec<&str> = w.counters().iter().map(|c| c.as_str()).collect();
    assert_eq!(names, vec!["A_B", "C_D"]);
    assert!(w.group().is_none());
    w.set_groups(vec![WatchlistGroup { id: 1, name: "one".to_string() }, WatchlistGroup { id: 2, name: "two".to_string() }]);
    w.set_group_id(2);
    assert_eq!(w.group().unwrap().name, "two");
    w.set_group_id(3);
    assert!(w.group().is_none());
    w.set_hidden(true);
    w.set_sortby((1, 2, true));
    assert!(w.hidden);
    assert_eq!(w.sort_by, (1, 2, true));
    assert_eq!(w.groups().len(), 2);
    w.set_counters(vec![]);
    assert!(w.counters().is_empty());
}

#[test]
fn missing_watchlist_pools_get_named_placeholders() {
    let mut store = PoolStore::new();
    let mut known = Pool::new(Counter::new("SUI_USDC"));
    known.name = "SUI/USDC".to_string();
    store.insert(known);
    let counters = vec![Counter::new("SUI_USDC"), Counter::new("DEEP_SUI"), Counter::new("DEEP_SUI")];
    store.insert_missing_named(&counters);
    assert_eq!(store.len(), 2);
    assert_eq!(store.get(&Counter::new("SUI_USDC")).unwrap().name, "SUI/USDC");
    let added = store.get(&Counter::new("DEEP_SUI")).unwrap();
    assert_eq!(added.name, "DEEP_SUI");
    assert_eq!(added.status, "Trading");
    assert!(added.trades.is_empty());
}

#[test]
fn watchlist_reload_dedups_and_sorts() {
    let mut w = Watchlist::new();
    w.set_group_id(7);
    w.set_sortby((1, 2, true));
    let counters = vec![Counter::new("WAL_USDC"), Counter::new("DEEP_SUI"), Counter::new("WAL_USDC")];
    w.reload(counters, vec![WatchlistGroup { id: 7, name: "main".to_string() }]);
    let texts: Vec<&str> = w.counters().iter().map(|c| c.as_str()).collect();
    assert_eq!(texts, vec!["DEEP_SUI", "WAL_USDC"]);
    assert!(w.hidden);
    assert_eq!(w.sort_by, (0, 0, false));
    assert_eq!(w.group_id, Some(7));
    assert_eq!(w.groups.len(), 1);
}
