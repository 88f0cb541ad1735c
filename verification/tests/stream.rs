use surflux_terminal::api::{PushEventDetail, TradeDirection, TradeSession, TradeStatus};
use surflux_terminal::decimal::Decimal;
use surflux_terminal::sse::SseReader;
use surflux_terminal::stream::{
    book_levels, process_sse_event, scale_i64, stream_levels, timestamp_from_millis, DepthLevel,
    SseDepthData, SseEnvelope, SseTradeData,
};

const NOW: i64 = 1_700_000_000;

#[test]
fn sse_event_made_of_data_lines() {
    let mut r = SseReader::new("$");
    let events = r.feed(b"id: 7\ndata: {\"a\":1}\ndata:   second\n\n");
    assert_eq!(events, vec!["{\"a\":1}\nsecond".to_string()]);
    assert_eq!(r.last_id(), "7");
}

#[test]
fn sse_reader_keeps_partial_lines() {
    let mut r = SseReader::new("$");
    assert!(r.feed(b"da").is_empty());
    assert!(r.feed(b"ta: x\r\n").is_empty());
    assert_eq!(r.feed(b"\r\n"), vec!["x".to_string()]);
    assert_eq!(r.last_id(), "$");
}

#[test]
fn sse_chunking_does_not_matter() {
    let text = "id: 1\ndata: a\n\n: comment\ndata: b\nid: 2\n\ndata: c";
    let mut whole = SseReader::new("$");
    let all = whole.feed_text(text);
    for cut in 0..text.len() {
        let mut parts = SseReader::new("$");
        let mut got = parts.feed_text(&text[..cut]);
        got.extend(parts.feed_text(&text[cut..]));
        assert_eq!(got, all);
        assert_eq!(parts.last_id(), whole.last_id());
    }
    assert_eq!(all, vec!["a".to_string(), "b".to_string()]);
    assert_eq!(whole.last_id(), "2");
}

#[test]
fn sse_blank_line_without_data_sends_nothing() {
    let mut r = SseReader::new("$");
    assert!(r.feed_text("id: 9\n\n").is_empty());
    assert_eq!(r.last_id(), "9");
}

#[test]
fn sse_invalid_utf8_is_replaced() {
    let mut r = SseReader::new("$");
    let events = r.feed(b"data: a\xffb\n\n");
    assert_eq!(events, vec!["a\u{fffd}b".to_string()]);
}

#[test]
fn millisecond_timestamps() {
    assert_eq!(timestamp_from_millis(Some(1_700_000_000_123), NOW), Some(1_700_000_000));
    assert_eq!(timestamp_from_millis(Some(-1), NOW), Some(-1));
    assert_eq!(timestamp_from_millis(None, NOW), Some(NOW));
    assert_eq!(timestamp_from_millis(Some(i64::MAX), NOW), None);
    assert_eq!(timestamp_from_millis(Some(253_402_300_799_999), NOW), Some(253_402_300_799));
    assert_eq!(timestamp_from_millis(Some(253_402_300_800_000), NOW), None);
}

#[test]
fn scaled_amounts() {
    assert_eq!(scale_i64(1_234_500, 6), Decimal { mantissa: 1_234_500, scale: 6, negative: false });
}

fn trade_envelope(data: Option<SseTradeData>) -> SseEnvelope {
    SseEnvelope {
        event_type: "deepbook_live_trades".to_string(),
        checkpoint_id: Some(1),
        timestamp_ms: Some(1_600_000_000_000),
        trade: data,
        depth: None,
    }
}

#[test]
fn live_trade_becomes_quote_and_trade() {
    let data = SseTradeData {
        price: 3_500_000,
        base_quantity: 20,
        quote_quantity: 70_000_000,
        taker_is_bid: true,
        checkpoint_timestamp_ms: None,
        onchain_timestamp: Some(1_650_000_000_999),
    };
    let events = process_sse_event("SUI_USDC", 6, &trade_envelope(Some(data)), NOW);
    assert_eq!(events.len(), 2);
    assert_eq!(events[0].symbol, "SUI_USDC");
    match &events[0].detail {
        PushEventDetail::Quote(q) => {
            assert_eq!(q.last_done, Decimal { mantissa: 3_500_000, scale: 6, negative: false });
            assert_eq!(q.high, q.last_done);
            assert_eq!(q.timestamp, 1_650_000_000);
            assert_eq!(q.volume, 20);
            assert_eq!(q.turnover, Decimal { mantissa: 70_000_000, scale: 6, negative: false });
            assert_eq!(q.trade_status, TradeStatus::Normal);
            assert_eq!(q.trade_session, TradeSession::Intraday);
        }
        _ => panic!("expected a quote"),
    }
    match &events[1].detail {
        PushEventDetail::Trades(ts) => {
            assert_eq!(ts.len(), 1);
            assert_eq!(ts[0].direction, TradeDirection::Up);
            assert_eq!(ts[0].timestamp, 1_650_000_000);
            assert_eq!(ts[0].trade_type, "");
        }
        _ => panic!("expected trades"),
    }
}

#[test]
fn live_trade_time_falls_back_to_now() {
    let data = SseTradeData {
        price: 1,
        base_quantity: 1,
        quote_quantity: 1,
        taker_is_bid: false,
        checkpoint_timestamp_ms: Some(i64::MAX),
        onchain_timestamp: Some(5),
    };
    let events = process_sse_event("SUI_USDC", 6, &trade_envelope(Some(data)), NOW);
    match &events[1].detail {
        PushEventDetail::Trades(ts) => {
            assert_eq!(ts[0].timestamp, NOW);
            assert_eq!(ts[0].direction, TradeDirection::Down);
        }
        _ => panic!("expected trades"),
    }
}

#[test]
fn order_book_event_and_others() {
    let depth = SseDepthData {
        asks: vec![
            DepthLevel { price: 101, total_quantity: 5, order_count: 2 },
            DepthLevel { price: 102, total_quantity: 6, order_count: 3 },
        ],
        bids: vec![DepthLevel { price: 99, total_quantity: 7, order_count: 1 }],
    };
    let env = SseEnvelope {
        event_type: "deepbook_order_book_depth".to_string(),
        checkpoint_id: None,
        timestamp_ms: None,
        trade: None,
        depth: Some(depth.clone()),
    };
    let events = process_sse_event("DEEP_SUI", 2, &env, NOW);
    assert_eq!(events.len(), 1);
    match &events[0].detail {
        PushEventDetail::Depth(d) => {
            assert_eq!(d.asks.len(), 2);
            assert_eq!(d.asks[1].position, 2);
            assert_eq!(d.asks[1].price, Some(Decimal { mantissa: 102, scale: 2, negative: false }));
            assert_eq!(d.bids[0].volume, 7);
            assert_eq!(d.bids[0].order_num, 1);
        }
        _ => panic!("expected a book"),
    }
    let other = SseEnvelope { event_type: "heartbeat".to_string(), ..env.clone() };
    assert!(process_sse_event("DEEP_SUI", 2, &other, NOW).is_empty());
    assert!(process_sse_event("DEEP_SUI", 2, &trade_envelope(None), NOW).is_empty());
    let levels = book_levels(&depth.asks, 3);
    assert_eq!(levels[0].position, 1);
    assert_eq!(levels[0].price, Some(Decimal { mantissa: 101, scale: 3, negative: false }));
    assert_eq!(stream_levels(&depth.bids, 0)[0].price, Some(Decimal { mantissa: 99, scale: 0, negative: false }));
}
