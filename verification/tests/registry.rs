use surflux_terminal::context::{
    base_asset_decimals, normalize_base_volume_i64, normalize_base_volume_u64, watchlist_groups,
    ConfigError, KeyError, QuoteRegistry,
};
use surflux_terminal::decimal::Decimal;
use surflux_terminal::meta::PoolMetadata;
use surflux_terminal::rest::PoolDto;

fn pairs(v: &[(&str, &str)]) -> Vec<(String, String)> {
    v.iter().map(|(a, b)| (a.to_string(), b.to_string())).collect()
}

fn registry() -> QuoteRegistry {
    QuoteRegistry::new(
        &pairs(&[("SUI_USDC", "s1"), ("DEEP_SUI", "s2"), ("WAL_USDC", "s3")]),
        &pairs(&[("SUI_USDC", "rest-sui")]),
        &pairs(&[("SUI_USDC", "alt-sui"), ("DEEP_SUI", "alt-deep")]),
        Some("default".to_string()),
    )
    .ok()
    .unwrap()
}

fn listed(name: &str, base_decimals: u32) -> PoolDto {
    PoolDto {
        pool_id: format!("id-{name}"),
        pool_name: name.to_string(),
        base_asset_symbol: "B".to_string(),
        quote_asset_symbol: "Q".to_string(),
        is_margin: None,
        pool_type: None,
        market_type: None,
        type_field: None,
        category: None,
        kind: None,
        base_asset_decimals: base_decimals,
        quote_asset_decimals: 6,
        min_size: 0,
        lot_size: 0,
        tick_size: 0,
    }
}

#[test]
fn no_stream_key_is_an_error() {
    let r = QuoteRegistry::new(&vec![], &vec![], &vec![], None);
    assert_eq!(r.err(), Some(ConfigError::NoStreamKeys));
}

#[test]
fn configured_symbols_are_sorted() {
    assert_eq!(registry().configured_symbols(), vec!["DEEP_SUI", "SUI_USDC", "WAL_USDC"]);
}

#[test]
fn api_keys_per_pool_and_default() {
    let r = registry();
    assert_eq!(r.stream_api_key("sui_usdc"), Ok("s1".to_string()));
    assert_eq!(r.stream_api_key("ABC_DEF"), Err(KeyError::MissingStreamKey));
    assert_eq!(r.rest_api_key("SUI_USDC"), Ok("rest-sui".to_string()));
    assert_eq!(r.rest_api_key("deep.sui"), Ok("alt-deep".to_string()));
    assert_eq!(r.rest_api_key("WAL_USDC"), Ok("default".to_string()));
    let blank = QuoteRegistry::new(&pairs(&[("A_B", "k")]), &vec![], &vec![], Some("  ".to_string()))
        .ok()
        .unwrap();
    assert_eq!(blank.rest_api_key("A_B"), Err(KeyError::MissingRestKey));
    assert_eq!(
        registry().bootstrap_keys(),
        vec!["alt-deep".to_string(), "default".to_string(), "rest-sui".to_string()]
    );
    assert_eq!(blank.bootstrap_keys(), Vec::<String>::new());
}

#[test]
fn configured_pools_start_with_assumed_metadata() {
    let r = registry();
    let m = r.cached_pool_meta("wal_usdc").unwrap();
    assert_eq!(m.base_asset_symbol, "WAL");
    assert_eq!(m.base_asset_decimals, 6);
    assert!(r.cached_pool_meta("NOPE_X").is_none());
    assert_eq!(r.base_asset_decimals("DEEP_SUI"), 6);
    assert_eq!(r.base_asset_decimals("NOPE_X"), 6);
}

#[test]
fn recorded_pools_replace_metadata() {
    let mut r = registry();
    r.record_pools(&vec![listed("SUI_USDC", 9), listed("NEW_POOL", 8), listed("SUI_USDC", 7)], false);
    assert_eq!(r.base_asset_decimals("SUI_USDC"), 7);
    assert_eq!(r.base_asset_decimals("NEW_POOL"), 8);
    assert_eq!(r.cached_pool_meta("SUI_USDC").unwrap().pool_id, "id-SUI_USDC");
    assert_eq!(r.configured_symbols().len(), 3);

    let mut c = registry();
    c.record_pools(&vec![listed("DEEP_SUI", 9), listed("OTHER_POOL", 8), listed("wal_usdc", 4)], true);
    assert_eq!(c.base_asset_decimals("DEEP_SUI"), 9);
    assert!(c.cached_pool_meta("OTHER_POOL").is_none());
    assert_eq!(c.base_asset_decimals("WAL_USDC"), 6);
}

#[test]
fn volumes_in_base_units() {
    let mut r = registry();
    r.record_pools(&vec![listed("SUI_USDC", 9)], false);
    assert_eq!(base_asset_decimals(Some(&r), "SUI_USDC"), 9);
    assert_eq!(base_asset_decimals(None, "SUI_USDC"), 6);
    assert_eq!(normalize_base_volume_u64(Some(&r), "SUI_USDC", 5), Decimal { mantissa: 5, scale: 9, negative: false });
    assert_eq!(normalize_base_volume_i64(None, "SUI_USDC", -5), Decimal { mantissa: -5, scale: 6, negative: true });
}

#[test]
fn spot_and_margin_groups() {
    let mut margin = PoolMetadata::fallback("SUI_USDC_M");
    margin.base_asset_symbol = "SUI".to_string();
    let pools = vec![PoolMetadata::fallback("SUI_USDC"), margin, PoolMetadata::fallback("DEEP_SUI")];
    let groups = watchlist_groups(&pools);
    assert_eq!(groups.len(), 2);
    assert_eq!((groups[0].id, groups[0].name.as_str()), (1, "Spot Pools"));
    assert_eq!((groups[1].id, groups[1].name.as_str()), (2, "Margin Pools"));
    let spot: Vec<(&str, &str)> = groups[0].pools.iter().map(|e| (e.symbol.as_str(), e.name.as_str())).collect();
    assert_eq!(spot, vec![("SUI_USDC", "SUI/USDC"), ("DEEP_SUI", "DEEP/SUI")]);
    assert_eq!(groups[1].pools.len(), 1);
    assert_eq!(groups[1].pools[0].name, "SUI/USDC");
}
