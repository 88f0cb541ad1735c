use surflux_terminal::meta::{
    discover_pool_keys, looks_like_margin_pool_name, normalize_symbol, parse_pool_name,
    pool_key_from_var, PoolMetadata,
};
use surflux_terminal::types::{Counter, KlineType, Market};

#[test]
fn normalize_symbol_trims_and_uppercases() {
    assert_eq!(normalize_symbol("  sui.usdc "), "SUI_USDC");
    assert_eq!(normalize_symbol("deep_sui"), "DEEP_SUI");
}

#[test]
fn normalize_symbol_is_idempotent() {
    for raw in ["  sui.usdc ", "deep_sui", "\tWal.Sui\u{3000}", "", "   "] {
        let once = normalize_symbol(raw);
        assert_eq!(normalize_symbol(&once), once);
    }
    assert_eq!(normalize_symbol("\tWal.Sui\u{3000}"), "WAL_SUI");
}

#[test]
fn parse_pool_name_splits_on_underscore() {
    assert_eq!(parse_pool_name("SUI_USDC"), ("SUI", "USDC"));
    assert_eq!(parse_pool_name("SUI_USDC_M"), ("SUI", "USDC"));
    assert_eq!(parse_pool_name("SUIUSDC"), ("SUIUSDC", "QUOTE"));
}

#[test]
fn margin_pool_names() {
    assert!(looks_like_margin_pool_name("sui_usdc_m"));
    assert!(looks_like_margin_pool_name("SUI_MARGIN_USDC"));
    assert!(!looks_like_margin_pool_name("SUI_USDC"));
    assert!(!looks_like_margin_pool_name("SUI_USDC_MX"));
}

#[test]
fn fallback_metadata_from_name() {
    let m = PoolMetadata::fallback("DEEP_USDC");
    assert_eq!(m.pool_name, "DEEP_USDC");
    assert_eq!(m.pool_id, "");
    assert_eq!(m.base_asset_symbol, "DEEP");
    assert_eq!(m.quote_asset_symbol, "USDC");
    assert!(!m.is_margin);
    assert_eq!(m.base_asset_decimals, 6);
    assert_eq!(m.quote_asset_decimals, 6);
    assert_eq!(m.min_size, 0);
    assert_eq!(m.display_name(), "DEEP/USDC");
}

#[test]
fn pool_key_from_one_variable() {
    assert_eq!(
        pool_key_from_var("SUI_USDC_STREAM_API_KEY", "abc", "_STREAM_API_KEY"),
        Some(("SUI_USDC".to_string(), "abc".to_string()))
    );
    assert_eq!(pool_key_from_var("SUI_USDC_STREAM_API_KEY", "   ", "_STREAM_API_KEY"), None);
    assert_eq!(pool_key_from_var("SUI_USDC_X_STREAM_API_KEY", "abc", "_STREAM_API_KEY"), None);
    assert_eq!(pool_key_from_var("SUIUSDC_STREAM_API_KEY", "abc", "_STREAM_API_KEY"), None);
    assert_eq!(pool_key_from_var("SUI_USDC_REST_API_KEY", "abc", "_STREAM_API_KEY"), None);
}

#[test]
fn later_variable_wins() {
    let vars = vec![
        ("sui_usdc_STREAM_API_KEY".to_string(), "one".to_string()),
        ("DEEP_SUI_STREAM_API_KEY".to_string(), "two".to_string()),
        ("SUI_USDC_STREAM_API_KEY".to_string(), "three".to_string()),
        ("PATH".to_string(), "/bin".to_string()),
    ];
    let mut keys = discover_pool_keys(&vars, "_STREAM_API_KEY");
    keys.sort();
    assert_eq!(
        keys,
        vec![
            ("DEEP_SUI".to_string(), "two".to_string()),
            ("SUI_USDC".to_string(), "three".to_string()),
        ]
    );
}

#[test]
fn counter_code_and_market() {
    let c = Counter::new("DEEP_SUI");
    assert_eq!(c.code(), "DEEP");
    assert_eq!(c.market(), "SUI");
    assert!(!c.is_empty());
    let d = Counter::new("700.HK");
    assert_eq!(d.code(), "700");
    assert_eq!(d.market(), "HK");
    let e = Counter::new("PLAIN");
    assert_eq!(e.code(), "PLAIN");
    assert_eq!(e.market(), "");
    assert!(Counter::new("").is_empty());
    assert_eq!(c.to_string(), "DEEP_SUI");
    assert_eq!(c.as_str(), "DEEP_SUI");
    assert!(c == c.clone());
}

#[test]
fn kline_type_cycles_and_labels() {
    assert_eq!(KlineType::PerMinute.next(), KlineType::PerFiveMinutes);
    assert_eq!(KlineType::PerYear.next(), KlineType::PerYear);
    assert_eq!(KlineType::PerMinute.prev(), KlineType::PerMinute);
    assert_eq!(KlineType::PerDay.prev(), KlineType::PerHour);
    for t in KlineType::iter() {
        if t != KlineType::PerYear {
            assert_eq!(t.next().prev(), t);
        }
        if t != KlineType::PerMinute {
            assert_eq!(t.prev().next(), t);
        }
    }
    assert_eq!(KlineType::iter().len(), 9);
    assert_eq!(KlineType::PerDay.label(), "Day");
    assert_eq!(KlineType::PerFifteenMinutes.label(), "15m");
    assert_eq!(KlineType::default(), KlineType::PerDay);
    assert_eq!(Market::default().as_str(), "CRYPTO");
}

#[test]
fn counter_parses_from_its_text() {
    let counter: Counter = "DEEP_USDC".parse().unwrap();
    assert_eq!(counter.as_str(), "DEEP_USDC");
}

#[test]
fn counter_converts_from_text() {
    let s = "WAL_USDC";
    assert!(Counter::from(s) == Counter::new(s));
    assert!(Counter::from(s.to_string()) == Counter::new(s));
    assert_eq!(Counter::from(s.to_string()).as_str(), s);
    assert_eq!(Counter::new(s).to_string(), s);
}
