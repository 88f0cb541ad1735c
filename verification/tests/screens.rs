use surflux_terminal::decimal::Decimal;
use surflux_terminal::detail::{
    average_price, chart_nav, chart_page, max_trade_volume, order_count_text, position_text,
    side_share, side_volume, trade_arrow,
};
use surflux_terminal::keys::Key;
use surflux_terminal::types::{Depth, KlineType, QuoteData, TradeData, TradeDirection};
use surflux_terminal::watch::{
    header_figures, level_trend, price_item, row_highlight, watch_row, HeaderFigures, Trend,
};

fn dec(mantissa: i128, scale: u32) -> Decimal {
    Decimal { mantissa, scale, negative: mantissa < 0 }
}

fn quote(last: Option<Decimal>, prev: Option<Decimal>, open: Option<Decimal>) -> QuoteData {
    let mut q = QuoteData::default();
    q.last_done = last;
    q.prev_close = prev;
    q.open = open;
    q
}

#[test]
fn watch_row_change_up_and_down() {
    let up = watch_row(&quote(Some(dec(110, 2)), Some(dec(100, 2)), None)).unwrap();
    assert_eq!(up.price, dec(110, 2));
    assert_eq!(up.change_text, "10%");
    assert_eq!(up.trend, Trend::Up);
    let down = watch_row(&quote(Some(dec(9, 1)), Some(dec(1, 0)), None)).unwrap();
    assert_eq!(down.change_text, "-10%");
    assert_eq!(down.trend, Trend::Down);
    let odd = watch_row(&quote(Some(dec(1005, 3)), Some(dec(1, 0)), None)).unwrap();
    let inc = rust_decimal::Decimal::new(1005, 3) - rust_decimal::Decimal::ONE;
    let pct = (inc / rust_decimal::Decimal::ONE * rust_decimal::Decimal::from(100)).round_dp(2);
    assert_eq!(odd.change_text, format!("{}%", pct.abs()));
}

#[test]
fn watch_row_without_previous_close() {
    let r = watch_row(&quote(Some(dec(5, 0)), None, None)).unwrap();
    assert_eq!(r.price, dec(5, 0));
    assert_eq!(r.change, dec(0, 0));
    assert_eq!(r.change_text, "0%");
    assert_eq!(r.trend, Trend::Flat);
    let none = watch_row(&quote(None, Some(dec(-1, 0)), None)).unwrap();
    assert_eq!(none.price, dec(0, 0));
    let from_open = watch_row(&quote(None, Some(dec(2, 0)), Some(dec(3, 0)))).unwrap();
    assert_eq!(from_open.price, dec(2, 0));
    assert_eq!(from_open.trend, Trend::Up);
}

#[test]
fn highlighted_row_trend() {
    assert_eq!(row_highlight(&quote(Some(dec(2, 0)), Some(dec(3, 0)), None)), Trend::Down);
    assert_eq!(row_highlight(&quote(Some(dec(30, 1)), Some(dec(3, 0)), None)), Trend::Flat);
    assert_eq!(row_highlight(&quote(Some(dec(4, 0)), Some(dec(3, 0)), None)), Trend::Up);
    assert_eq!(row_highlight(&quote(Some(dec(4, 0)), None, None)), Trend::Flat);
}

#[test]
fn chart_moves() {
    assert_eq!(chart_nav(Key::Left, 3, KlineType::PerDay, false), (4, KlineType::PerDay));
    assert_eq!(chart_nav(Key::Left, usize::MAX, KlineType::PerDay, false), (usize::MAX, KlineType::PerDay));
    assert_eq!(chart_nav(Key::Right, 0, KlineType::PerDay, false), (0, KlineType::PerDay));
    assert_eq!(chart_nav(Key::Tab, 5, KlineType::PerDay, false), (5, KlineType::PerWeek));
    assert_eq!(chart_nav(Key::Tab, 5, KlineType::PerDay, true), (0, KlineType::PerWeek));
    assert_eq!(chart_nav(Key::BackTab, 5, KlineType::PerDay, false), (5, KlineType::PerHour));
    assert_eq!(chart_nav(Key::Enter, 5, KlineType::PerDay, true), (5, KlineType::PerDay));
    assert_eq!(chart_page(57, 100), (40, 2, 20));
    assert_eq!(chart_page(17, 100), (0, 0, 0));
}

#[test]
fn pool_screen_figures() {
    let mut q = QuoteData::default();
    q.volume = 2_000_000;
    q.quote_volume = dec(5, 0);
    let avg = average_price(&q, 6).unwrap().unwrap();
    assert_eq!(
        rust_decimal::Decimal::from_i128_with_scale(avg.mantissa, avg.scale),
        rust_decimal::Decimal::new(25, 1)
    );
    q.quote_volume = dec(0, 0);
    q.last_done = None;
    q.open = Some(dec(7, 0));
    assert_eq!(average_price(&q, 6), Some(Some(dec(7, 0))));
    let bids = vec![
        Depth { position: 1, price: dec(1, 0), volume: 30, order_num: 1 },
        Depth { position: 2, price: dec(1, 0), volume: 10, order_num: 1 },
    ];
    assert_eq!(side_volume(&bids), 40);
    assert_eq!(side_volume(&vec![]), 0);
    let share = side_share(40, 160).unwrap();
    assert_eq!(
        rust_decimal::Decimal::from_i128_with_scale(share.mantissa, share.scale),
        rust_decimal::Decimal::new(25, 2)
    );
    assert_eq!(side_share(1, 0), Some(dec(0, 0)));
    assert_eq!(position_text(3), "3   ");
    assert_eq!(position_text(12), "12  ");
    assert_eq!(order_count_text(1500), "(999)");
    assert_eq!(order_count_text(-4), "(0)");
    assert_eq!(order_count_text(42), "(42)");
    assert_eq!(trade_arrow(TradeDirection::Up), "\u{2191}");
    assert_eq!(trade_arrow(TradeDirection::Neutral), " ");
}

fn trade(volume: i64, timestamp: i64) -> TradeData {
    TradeData { price: dec(1, 0), volume, timestamp, trade_type: String::new(), direction: TradeDirection::Up }
}

#[test]
fn largest_trade_size() {
    assert_eq!(max_trade_volume(&vec![]), 1);
    assert_eq!(max_trade_volume(&vec![trade(3, 0), trade(-9, 0), trade(4, 0)]), 9);
    assert_eq!(max_trade_volume(&vec![trade(0, 0)]), 0);
}

#[test]
fn pool_title_figures() {
    assert_eq!(header_figures(&quote(None, None, None)), Some(HeaderFigures::Empty));
    assert_eq!(header_figures(&quote(Some(dec(3, 0)), None, None)), Some(HeaderFigures::PriceOnly(dec(3, 0))));
    match header_figures(&quote(Some(dec(3, 0)), Some(dec(2, 0)), None)) {
        Some(HeaderFigures::Change(p, inc, ratio)) => {
            assert_eq!(p, dec(3, 0));
            assert_eq!(inc, dec(1, 0));
            assert_eq!(
                rust_decimal::Decimal::from_i128_with_scale(ratio.mantissa, ratio.scale),
                rust_decimal::Decimal::new(5, 1)
            );
        }
        _ => panic!("expected a change"),
    }
    assert_eq!(header_figures(&quote(None, Some(dec(2, 0)), None)).is_some(), true);
}

#[test]
fn pool_price_lines() {
    assert_eq!(price_item(Some(dec(3, 0)), Some(dec(2, 0))), (Some(dec(3, 0)), Some(Trend::Up)));
    assert_eq!(price_item(Some(dec(3, 0)), None), (Some(dec(3, 0)), None));
    assert_eq!(price_item(Some(dec(0, 0)), Some(dec(2, 0))), (Some(dec(2, 0)), None));
    assert_eq!(price_item(None, None), (None, None));
    assert_eq!(level_trend(dec(1, 0), Some(dec(2, 0))), Trend::Down);
    assert_eq!(level_trend(dec(20, 1), Some(dec(2, 0))), Trend::Flat);
    assert_eq!(level_trend(dec(1, 0), None), Trend::Flat);
}

#[test]
fn named_pool() {
    let p = surflux_terminal::pool::Pool::named(surflux_terminal::types::Counter::new("SUI_USDC"));
    assert_eq!(p.name, "SUI_USDC");
    assert_eq!(p.display_name(), "SUI_USDC");
    assert_eq!(p.status, "Trading");
    assert!(p.trades.is_empty());
}
