use surflux_terminal::meta::PoolMetadata;
use surflux_terminal::search::{
    filter_groups, search_pools, search_results, PoolItem, PoolQuery, PoolResult, SearchHistory,
};
use surflux_terminal::types::Counter;
use surflux_terminal::watchlist::WatchlistGroup;

fn item(counter: &str) -> PoolItem {
    PoolItem {
        code: counter.to_string(),
        counter_id: Counter::new(counter),
        market: "Q".to_string(),
        name: counter.to_string(),
    }
}

#[test]
fn pools_found_by_keyword() {
    let pools = vec![
        PoolMetadata::fallback("SUI_USDC"),
        PoolMetadata::fallback("DEEP_SUI"),
        PoolMetadata::fallback("WAL_USDC"),
    ];
    let r = search_pools(&pools, &PoolQuery { keyword: "usdc".to_string() });
    let codes: Vec<&str> = r.product_list.iter().map(|i| i.code.as_str()).collect();
    assert_eq!(codes, vec!["SUI_USDC", "WAL_USDC"]);
    assert_eq!(r.product_list[0].counter_id.as_str(), "SUI_USDC");
    assert_eq!(r.product_list[0].market, "USDC");
    assert_eq!(r.product_list[0].name, "SUI/USDC");
    assert!(r.recommend_list.is_none());
    assert_eq!(search_pools(&pools, &PoolQuery { keyword: String::new() }).product_list.len(), 3);
    assert_eq!(search_pools(&pools, &PoolQuery { keyword: "xyz".to_string() }).product_list.len(), 0);
    assert!(PoolResult::default().product_list.is_empty());
}

#[test]
fn items_equal_by_counter() {
    let mut a = item("SUI_USDC");
    let b = item("SUI_USDC");
    a.name = "other".to_string();
    assert!(a == b);
    assert!(item("A_B") != item("C_D"));
}

#[test]
fn history_keeps_last_choices_once() {
    let mut h = SearchHistory::new();
    h.record(item("A_B"));
    h.record(item("C_D"));
    h.record(item("A_B"));
    let counters: Vec<&str> = h.items().iter().map(|i| i.counter_id.as_str()).collect();
    assert_eq!(counters, vec!["A_B", "C_D"]);
    for n in 0..30 {
        h.record(item(&format!("P_{n}")));
    }
    assert_eq!(h.items().len(), 20);
    assert_eq!(h.items()[0].counter_id.as_str(), "P_29");
    assert_eq!(h.items()[19].counter_id.as_str(), "P_10");
}

#[test]
fn shown_search_results() {
    let mut h = SearchHistory::new();
    h.record(item("H_I"));
    let results = vec![item("R_S")];
    assert_eq!(search_results(&results, true, &h)[0].code, "R_S");
    assert_eq!(search_results(&vec![], true, &h)[0].code, "H_I");
    assert!(search_results(&vec![], false, &h).is_empty());
}

#[test]
fn groups_filtered_by_name() {
    let groups = vec![
        WatchlistGroup { id: 1, name: "Spot Pools".to_string() },
        WatchlistGroup { id: 2, name: "Margin Pools".to_string() },
    ];
    let ids: Vec<u64> = filter_groups(&groups, "MARG").iter().map(|g| g.id).collect();
    assert_eq!(ids, vec![2]);
    assert_eq!(filter_groups(&groups, "").len(), 2);
    assert_eq!(filter_groups(&groups, "pools").len(), 2);
    assert!(filter_groups(&groups, "x").is_empty());
}
