use surflux_terminal::api::TradeDirection;
use surflux_terminal::decimal::Decimal;
use surflux_terminal::json::{
    i64_from_number_or_string, string_from_number_or_string, u64_from_number_or_string,
    value_contains_margin, value_truthy, FieldError, JsonNumber, JsonValue,
};
use surflux_terminal::meta::PoolMetadata;
use surflux_terminal::rest::{
    candle_from_dto, candles_from_dtos, decimal_to_i64, depth_from_dto, ohlcv_dto_from_fields,
    quote_snapshot, trade_from_dto, trades_from_dtos, DepthDto, OhlcvDto, PoolDto, TradeDto,
};
use surflux_terminal::stream::DepthLevel;

const NOW: i64 = 1_700_000_000;

fn num(i: i64) -> JsonValue {
    JsonValue::Number(JsonNumber {
        as_i64: Some(i),
        as_u64: if i >= 0 { Some(i as u64) } else { None },
        text: i.to_string(),
    })
}

fn text(s: &str) -> JsonValue {
    JsonValue::String(s.to_string())
}

#[test]
fn truthy_flags() {
    assert!(value_truthy(&JsonValue::Bool(true)));
    assert!(!value_truthy(&JsonValue::Bool(false)));
    assert!(value_truthy(&num(2)));
    assert!(!value_truthy(&num(0)));
    assert!(value_truthy(&text(" Yes ")));
    assert!(value_truthy(&text("MARGIN")));
    assert!(value_truthy(&text("1")));
    assert!(!value_truthy(&text("no")));
    assert!(!value_truthy(&JsonValue::Null));
    assert!(!value_truthy(&JsonValue::Array(vec![JsonValue::Bool(true)], "[true]".to_string())));
}

#[test]
fn margin_anywhere_in_a_value() {
    assert!(value_contains_margin(&text("  Cross-Margin ")));
    assert!(!value_contains_margin(&text("spot")));
    let nested = JsonValue::Array(
        vec![
            num(1),
            JsonValue::Object(vec![("kind".to_string(), text("isolated margin"))], "{}".to_string()),
        ],
        "[]".to_string(),
    );
    assert!(value_contains_margin(&nested));
    let keys_only = JsonValue::Object(vec![("margin".to_string(), num(1))], "{}".to_string());
    assert!(!value_contains_margin(&keys_only));
}

#[test]
fn integers_from_text() {
    assert_eq!(i64_from_number_or_string(&text("-42")), Ok(-42));
    assert_eq!(i64_from_number_or_string(&text("+7")), Ok(7));
    assert_eq!(i64_from_number_or_string(&text("7 7")), Err(FieldError::InvalidInteger));
    assert_eq!(i64_from_number_or_string(&text("9223372036854775808")), Err(FieldError::InvalidInteger));
    assert_eq!(u64_from_number_or_string(&text("-0")), Err(FieldError::InvalidInteger));
    assert_eq!(u64_from_number_or_string(&text("18446744073709551615")), Ok(u64::MAX));
    assert_eq!(u64_from_number_or_string(&text("")), Err(FieldError::InvalidInteger));
}

#[test]
fn number_or_string_fields() {
    assert_eq!(i64_from_number_or_string(&text(" 42 ")), Ok(42));
    assert_eq!(i64_from_number_or_string(&num(-3)), Ok(-3));
    assert_eq!(i64_from_number_or_string(&JsonValue::Null), Ok(0));
    assert_eq!(i64_from_number_or_string(&text("4x")), Err(FieldError::InvalidInteger));
    assert_eq!(i64_from_number_or_string(&JsonValue::Bool(true)), Err(FieldError::WrongType));
    let float = JsonValue::Number(JsonNumber { as_i64: None, as_u64: None, text: "1.5".to_string() });
    assert_eq!(i64_from_number_or_string(&float), Err(FieldError::NotAnInteger));
    assert_eq!(u64_from_number_or_string(&num(-1)), Err(FieldError::NotAnInteger));
    assert_eq!(u64_from_number_or_string(&num(5)), Ok(5));
    assert_eq!(u64_from_number_or_string(&text("12")), Ok(12));
    assert_eq!(string_from_number_or_string(&float), "1.5");
    assert_eq!(string_from_number_or_string(&JsonValue::Null), "");
    assert_eq!(string_from_number_or_string(&JsonValue::Bool(false)), "false");
    assert_eq!(string_from_number_or_string(&text("abc")), "abc");
}

#[test]
fn candlestick_fields() {
    let d = ohlcv_dto_from_fields(
        "2024-01-01T00:00:00Z".to_string(),
        &num(1),
        &text("2"),
        &JsonValue::Null,
        &num(4),
        &text("10.5"),
        &num(7),
        &num(3),
    )
    .unwrap();
    assert_eq!((d.open, d.high, d.low, d.close, d.trade_count), (1, 2, 0, 4, 3));
    assert_eq!(d.volume_base, "10.5");
    assert_eq!(d.volume_quote, "7");
    let bad = ohlcv_dto_from_fields(
        String::new(),
        &num(1),
        &JsonValue::Bool(true),
        &num(1),
        &num(1),
        &num(1),
        &num(1),
        &num(1),
    );
    assert_eq!(bad.err(), Some(FieldError::WrongType));
}

#[test]
fn rfc3339_times() {
    let at = |ts: &str| trade_from_dto(&trade_row(1, ts, None, true), 0, NOW).timestamp;
    assert_eq!(at("2024-01-01T00:00:00Z"), 1_704_067_200);
    assert_eq!(at("2024-01-01T01:00:00+01:00"), 1_704_067_200);
    assert_eq!(at("yesterday"), NOW);
}

#[test]
fn decimal_rounded_to_integer() {
    assert_eq!(decimal_to_i64(Some(Decimal { mantissa: 125, scale: 1, negative: false })), Some(12));
    assert_eq!(decimal_to_i64(Some(Decimal { mantissa: 135, scale: 1, negative: false })), Some(14));
    assert_eq!(decimal_to_i64(None), None);
}

fn pool(name: &str) -> PoolDto {
    PoolDto {
        pool_id: "0x1".to_string(),
        pool_name: name.to_string(),
        base_asset_symbol: "SUI".to_string(),
        quote_asset_symbol: "USDC".to_string(),
        is_margin: None,
        pool_type: None,
        market_type: None,
        type_field: None,
        category: None,
        kind: None,
        base_asset_decimals: 9,
        quote_asset_decimals: 6,
        min_size: 1,
        lot_size: 2,
        tick_size: 3,
    }
}

#[test]
fn margin_pools_and_metadata() {
    assert!(!pool("SUI_USDC").is_margin_pool());
    assert!(pool("SUI_USDC_M").is_margin_pool());
    let mut flagged = pool("SUI_USDC");
    flagged.is_margin = Some(text("true"));
    assert!(flagged.is_margin_pool());
    let mut typed = pool("SUI_USDC");
    typed.category = Some(text("Margin"));
    assert!(typed.is_margin_pool());
    let m = PoolMetadata::from_pool(pool(" sui.usdc "));
    assert_eq!(m.pool_name, "SUI_USDC");
    assert_eq!(m.pool_id, "0x1");
    assert_eq!(m.base_asset_decimals, 9);
    assert_eq!(m.quote_asset_decimals, 6);
    assert_eq!((m.min_size, m.lot_size, m.tick_size), (1, 2, 3));
    assert!(!m.is_margin);
}

fn trade_row(price: i64, ts: &str, ms: Option<i64>, bid: bool) -> TradeDto {
    TradeDto {
        price,
        base_quantity: 10,
        quote_quantity: 20,
        taker_is_bid: bid,
        timestamp: ts.to_string(),
        checkpoint_timestamp_ms: ms,
    }
}

#[test]
fn listed_trades() {
    let t = trade_from_dto(&trade_row(1_500, "2024-01-01T00:00:00Z", None, true), 3, NOW);
    assert_eq!(t.price, Decimal { mantissa: 1_500, scale: 3, negative: false });
    assert_eq!(t.timestamp, 1_704_067_200);
    assert_eq!(t.direction, TradeDirection::Up);
    let u = trade_from_dto(&trade_row(1, "bad", Some(2_000), false), 3, NOW);
    assert_eq!(u.timestamp, 2);
    assert_eq!(u.direction, TradeDirection::Down);
    let v = trade_from_dto(&trade_row(1, "bad", None, false), 3, NOW);
    assert_eq!(v.timestamp, NOW);
    let all = trades_from_dtos(&vec![trade_row(1, "", None, true), trade_row(2, "", None, true)], 0, NOW);
    assert_eq!(all.len(), 2);
    assert_eq!(all[1].price, Decimal { mantissa: 2, scale: 0, negative: false });
}

#[test]
fn listed_order_book() {
    let book = DepthDto {
        pool_id: "p".to_string(),
        asks: vec![DepthLevel { price: 5, total_quantity: 1, order_count: 1 }],
        bids: vec![],
    };
    let d = depth_from_dto(&book, 1);
    assert_eq!(d.asks.len(), 1);
    assert_eq!(d.asks[0].price, Some(Decimal { mantissa: 5, scale: 1, negative: false }));
    assert_eq!(d.bids.len(), 0);
}

fn candle_row(ts: &str, open: i64, close: i64, vb: &str, vq: &str) -> OhlcvDto {
    OhlcvDto {
        timestamp: ts.to_string(),
        open,
        high: open + 10,
        low: open - 10,
        close,
        volume_base: vb.to_string(),
        volume_quote: vq.to_string(),
        trade_count: 4,
    }
}

#[test]
fn listed_candles() {
    let c = candle_from_dto(&candle_row("2024-01-01T00:00:00Z", 100, 110, "2.5", "x"), 2, NOW);
    assert_eq!(c.timestamp, 1_704_067_200);
    assert_eq!(c.open, Decimal { mantissa: 100, scale: 2, negative: false });
    assert_eq!(c.high, Decimal { mantissa: 110, scale: 2, negative: false });
    assert_eq!(c.volume_base, Decimal { mantissa: 25, scale: 1, negative: false });
    assert_eq!(c.volume_quote, Decimal { mantissa: 0, scale: 0, negative: false });
    assert_eq!(c.trade_count, 4);
    let d = candle_from_dto(&candle_row("", 1, 1, "", ""), 2, NOW);
    assert_eq!(d.timestamp, NOW);
    assert_eq!(candles_from_dtos(&vec![candle_row("", 1, 1, "", "")], 0, NOW).len(), 1);
}

#[test]
fn quote_from_trade_and_candles() {
    let trades = vec![trade_row(1_230, "2024-01-02T00:00:00Z", None, true)];
    let candles = vec![
        candle_row("2024-01-01T00:00:00Z", 1_000, 1_100, "5", "1"),
        candle_row("2024-01-02T00:00:00Z", 1_100, 1_200, "7.5", "9.25"),
    ];
    let q = quote_snapshot("SUI_USDC".to_string(), 3, &trades, &candles, NOW);
    assert_eq!(q.symbol, "SUI_USDC");
    assert_eq!(q.last_done, Decimal { mantissa: 1_230, scale: 3, negative: false });
    assert_eq!(q.open, Decimal { mantissa: 1_100, scale: 3, negative: false });
    assert_eq!(q.high, Decimal { mantissa: 1_110, scale: 3, negative: false });
    assert_eq!(q.low, Decimal { mantissa: 1_090, scale: 3, negative: false });
    assert_eq!(q.prev_close, Decimal { mantissa: 1_100, scale: 3, negative: false });
    assert_eq!(q.timestamp, 1_704_153_600);
    assert_eq!(q.volume, 8);
    assert_eq!(q.turnover, Decimal { mantissa: 925, scale: 2, negative: false });

    let empty = quote_snapshot("X_Y".to_string(), 3, &vec![], &vec![], NOW);
    assert_eq!(empty.last_done, Decimal { mantissa: 0, scale: 0, negative: false });
    assert_eq!(empty.prev_close, empty.open);
    assert_eq!(empty.timestamp, NOW);
    assert_eq!(empty.volume, 0);

    let one = quote_snapshot("X_Y".to_string(), 0, &vec![], &candles[..1].to_vec(), NOW);
    assert_eq!(one.last_done, Decimal { mantissa: 1_100, scale: 0, negative: false });
    assert_eq!(one.prev_close, Decimal { mantissa: 1_000, scale: 0, negative: false });
}
