use vstd::prelude::*;

use vstd::std_specs::cmp::PartialEqSpecImpl;

use crate::meta::PoolMetadata;
use crate::text::{chars_of, contains_chars, contains_seq, lower_chars, lower_seq, upper_chars, upper_seq};
use crate::types::Counter;
use crate::watchlist::WatchlistGroup;

verus! {

broadcast use vstd::seq_lib::group_seq_properties;

/// A pool found by a search.
#[derive(Debug)]
pub struct PoolItem {
    /// The pool's code.
    pub code: String,
    /// The pool's counter.
    pub counter_id: Counter,
    /// The quote asset's symbol.
    pub market: String,
    /// The name shown.
    pub name: String,
}

impl Clone for PoolItem {
    fn clone(&self) -> (r: Self)
        ensures
            r == *self,
    {
        PoolItem {
            code: self.code.clone(),
            counter_id: self.counter_id.clone(),
            market: self.market.clone(),
            name: self.name.clone(),
        }
    }
}

impl PartialEq for PoolItem {
    fn eq(&self, other: &Self) -> (r: bool) {
        self.counter_id == other.counter_id
    }
}

impl PartialEqSpecImpl for PoolItem {
    open spec fn obeys_eq_spec() -> bool {
        true
    }

    open spec fn eq_spec(&self, other: &PoolItem) -> bool {
        self.counter_id@ == other.counter_id@
    }
}

/// The pools a search found.
#[derive(Debug)]
pub struct PoolResult {
    pub product_list: Vec<PoolItem>,
    pub recommend_list: Option<Vec<String>>,
}

impl Default for PoolResult {
    fn default() -> (r: Self)
        ensures
            r.product_list.len() == 0,
            r.recommend_list is None,
    {
        PoolResult { product_list: Vec::new(), recommend_list: None }
    }
}

/// What is searched for.
#[derive(Clone, Debug)]
pub struct PoolQuery {
    pub keyword: String,
}

/// A pool matches a keyword (already upper-cased) where its name or one of
/// its assets, upper-cased, holds the keyword.
pub open spec fn pool_matches(m: PoolMetadata, keyword: Seq<char>) -> bool {
    contains_seq(upper_seq(m.pool_name@), keyword) || contains_seq(upper_seq(m.base_asset_symbol@), keyword)
        || contains_seq(upper_seq(m.quote_asset_symbol@), keyword)
}

/// The code, counter, market and name of an item.
pub open spec fn item_view(it: PoolItem) -> (Seq<char>, Seq<char>, Seq<char>, Seq<char>) {
    (it.code@, it.counter_id@, it.market@, it.name@)
}

/// The item a pool is found as: its name as code and counter, its quote asset
/// as market, `BASE/QUOTE` as name.
pub open spec fn item_of_pool(m: PoolMetadata) -> (Seq<char>, Seq<char>, Seq<char>, Seq<char>) {
    (m.pool_name@, m.pool_name@, m.quote_asset_symbol@, m.base_asset_symbol@ + "/"@ + m.quote_asset_symbol@)
}

/// The items of the pools that match, in order.
pub open spec fn matching_items(pools: Seq<PoolMetadata>, keyword: Seq<char>) -> Seq<(Seq<char>, Seq<char>, Seq<char>, Seq<char>)>
    decreases pools.len(),
{
    if pools.len() == 0 {
        Seq::empty()
    } else {
        let rest = matching_items(pools.drop_last(), keyword);
        if pool_matches(pools.last(), keyword) {
            rest.push(item_of_pool(pools.last()))
        } else {
            rest
        }
    }
}

/// An empty keyword finds every pool, in order.
pub proof fn lemma_empty_keyword_finds_all(pools: Seq<PoolMetadata>)
    ensures
        matching_items(pools, Seq::empty()) == pools.map_values(|m: PoolMetadata| item_of_pool(m)),
    decreases pools.len(),
{
    if pools.len() > 0 {
        lemma_empty_keyword_finds_all(pools.drop_last());
        let m = pools.last();
        let name = upper_seq(m.pool_name@);
        assert(name.subrange(0, 0) =~= Seq::<char>::empty());
        assert(crate::text::occurs_at(name, Seq::empty(), 0));
        assert(pool_matches(m, Seq::empty()));
        assert(pools.map_values(|m: PoolMetadata| item_of_pool(m)) =~= pools.drop_last().map_values(
            |m: PoolMetadata| item_of_pool(m),
        ).push(item_of_pool(m)));
    } else {
        assert(pools.map_values(|m: PoolMetadata| item_of_pool(m)) =~= Seq::empty());
    }
}

pub open spec fn item_views(v: Seq<PoolItem>) -> Seq<(Seq<char>, Seq<char>, Seq<char>, Seq<char>)> {
    v.map_values(|it: PoolItem| item_view(it))
}

fn upper_text(s: &String) -> (r: Vec<char>)
    ensures
        r@ == upper_seq(s@),
{
    upper_chars(&chars_of(s.as_str()))
}

/// The pools whose name or assets hold the keyword, whatever the case, as
/// search items, in the order listed.
pub fn search_pools(pools: &Vec<PoolMetadata>, query: &PoolQuery) -> (r: PoolResult)
    ensures
        item_views(r.product_list@) == matching_items(pools@, upper_seq(query.keyword@)),
        r.recommend_list is None,
{
    let keyword = upper_text(&query.keyword);
    let mut items: Vec<PoolItem> = Vec::new();
    let mut i: usize = 0;
    while i < pools.len()
        invariant
            i <= pools.len(),
            keyword@ == upper_seq(query.keyword@),
            item_views(items@) == matching_items(pools@.take(i as int), keyword@),
        decreases pools.len() - i,
    {
        let pool = &pools[i];
        proof {
            assert(pools@.take(i + 1).drop_last() =~= pools@.take(i as int));
        }
        if contains_chars(&upper_text(&pool.pool_name), &keyword) || contains_chars(
            &upper_text(&pool.base_asset_symbol),
            &keyword,
        ) || contains_chars(&upper_text(&pool.quote_asset_symbol), &keyword) {
            let ghost before = item_views(items@);
            let item = PoolItem {
                code: pool.pool_name.clone(),
                counter_id: Counter::new(pool.pool_name.as_str()),
                market: pool.quote_asset_symbol.clone(),
                name: pool.display_name(),
            };
            items.push(item);
            assert(item_views(items@) =~= before.push(item_of_pool(*pool)));
        }
        i = i + 1;
    }
    assert(pools@.take(pools.len() as int) =~= pools@);
    PoolResult { product_list: items, recommend_list: None }
}

// ---------------------------------------------------------------------------
// Pools chosen before
// ---------------------------------------------------------------------------

/// The most pools remembered.
pub open spec fn history_limit() -> int {
    20
}

/// The counters of the items, in order.
pub open spec fn item_counters(v: Seq<PoolItem>) -> Seq<Seq<char>> {
    v.map_values(|it: PoolItem| it.counter_id@)
}

/// The items whose counter is not `c`, in order.
pub open spec fn without_counter(v: Seq<PoolItem>, c: Seq<char>) -> Seq<PoolItem>
    decreases v.len(),
{
    if v.len() == 0 {
        Seq::empty()
    } else {
        let rest = without_counter(v.drop_last(), c);
        if v.last().counter_id@ == c {
            rest
        } else {
            rest.push(v.last())
        }
    }
}

pub proof fn lemma_without_counter(v: Seq<PoolItem>, c: Seq<char>)
    ensures
        without_counter(v, c).len() <= v.len(),
        forall|i: int| 0 <= i < without_counter(v, c).len() ==> #[trigger] without_counter(v, c)[i].counter_id@ != c,
        forall|i: int| 0 <= i < without_counter(v, c).len() ==> v.contains(#[trigger] without_counter(v, c)[i]),
    decreases v.len(),
{
    if v.len() > 0 {
        lemma_without_counter(v.drop_last(), c);
        let rest = without_counter(v.drop_last(), c);
        assert forall|i: int| 0 <= i < rest.len() implies v.contains(#[trigger] rest[i]) by {
            let j = choose|j: int| 0 <= j < v.drop_last().len() && v.drop_last()[j] == rest[i];
            assert(v[j] == rest[i]);
        }
        assert(v[v.len() - 1] == v.last());
    }
}

/// The pools chosen before, the last chosen first: at most twenty, each
/// counter once.
pub struct SearchHistory {
    items: Vec<PoolItem>,
}

impl View for SearchHistory {
    type V = Seq<PoolItem>;

    closed spec fn view(&self) -> Seq<PoolItem> {
        self.items@
    }
}

/// At most twenty items, no counter twice.
pub open spec fn history_wf(h: Seq<PoolItem>) -> bool {
    &&& h.len() <= history_limit()
    &&& forall|i: int, j: int| 0 <= i < j < h.len() ==> h[i].counter_id@ != h[j].counter_id@
}

/// The history after choosing `selected`: where it is full, its oldest item
/// goes; then any item of the same pool goes; the choice comes first.
pub open spec fn recorded_history(h: Seq<PoolItem>, selected: PoolItem) -> Seq<PoolItem> {
    let kept = if h.len() >= history_limit() { h.drop_last() } else { h };
    seq![selected] + without_counter(kept, selected.counter_id@)
}

fn drop_counter(v: &Vec<PoolItem>, c: &Counter) -> (r: Vec<PoolItem>)
    ensures
        r@ == without_counter(v@, c@),
{
    let mut r: Vec<PoolItem> = Vec::new();
    let mut i: usize = 0;
    while i < v.len()
        invariant
            i <= v.len(),
            r@ == without_counter(v@.take(i as int), c@),
        decreases v.len() - i,
    {
        proof {
            assert(v@.take(i + 1).drop_last() =~= v@.take(i as int));
        }
        if !(v[i].counter_id == *c) {
            r.push(v[i].clone());
        }
        i = i + 1;
    }
    assert(v@.take(v.len() as int) =~= v@);
    r
}

impl SearchHistory {
    pub fn new() -> (r: Self)
        ensures
            r@ == Seq::<PoolItem>::empty(),
    {
        SearchHistory { items: Vec::new() }
    }

    pub fn items(&self) -> (r: &Vec<PoolItem>)
        ensures
            r@ == self@,
    {
        &self.items
    }

    /// Remembers a chosen pool (see `recorded_history`); a well-formed
    /// history stays well formed, with the choice first.
    pub fn record(&mut self, selected: PoolItem)
        ensures
            final(self)@ == recorded_history(old(self)@, selected),
            history_wf(old(self)@) ==> history_wf(final(self)@),
    {
        let ghost h = self@;
        if self.items.len() >= 20 {
            self.items.pop();
        }
        let ghost kept = self@;
        assert(kept == (if h.len() >= history_limit() { h.drop_last() } else { h }));
        let kept_items = drop_counter(&self.items, &selected.counter_id);
        let mut items: Vec<PoolItem> = Vec::new();
        let ghost sel = selected;
        items.push(selected);
        let mut i: usize = 0;
        while i < kept_items.len()
            invariant
                i <= kept_items.len(),
                items@ == seq![sel] + kept_items@.take(i as int),
            decreases kept_items.len() - i,
        {
            items.push(kept_items[i].clone());
            assert(items@ =~= seq![sel] + kept_items@.take(i + 1));
            i = i + 1;
        }
        assert(kept_items@.take(kept_items.len() as int) =~= kept_items@);
        self.items = items;
        proof {
            lemma_without_counter(kept, sel.counter_id@);
            let w = without_counter(kept, sel.counter_id@);
            let f = self@;
            if history_wf(h) {
                assert forall|i: int, j: int| 0 <= i < j < f.len() implies f[i].counter_id@ != f[j].counter_id@ by {
                    if i > 0 {
                        assert(f[i] == w[i - 1]);
                        assert(f[j] == w[j - 1]);
                        assert(kept.contains(w[i - 1]));
                        assert(kept.contains(w[j - 1]));
                        let a = choose|a: int| 0 <= a < kept.len() && kept[a] == w[i - 1];
                        let b = choose|b: int| 0 <= b < kept.len() && kept[b] == w[j - 1];
                        assert(h[a] == kept[a]);
                        assert(h[b] == kept[b]);
                        lemma_without_counter_order(kept, sel.counter_id@, i - 1, j - 1);
                    }
                }
            }
        }
    }
}

/// Items kept in a filtered list keep distinct counters where the list had
/// them.
proof fn lemma_without_counter_order(v: Seq<PoolItem>, c: Seq<char>, i: int, j: int)
    requires
        forall|a: int, b: int| 0 <= a < b < v.len() ==> v[a].counter_id@ != v[b].counter_id@,
        0 <= i < j < without_counter(v, c).len(),
    ensures
        without_counter(v, c)[i].counter_id@ != without_counter(v, c)[j].counter_id@,
    decreases v.len(),
{
    lemma_without_counter(v, c);
    if v.len() > 0 {
        let rest = without_counter(v.drop_last(), c);
        lemma_without_counter(v.drop_last(), c);
        if v.last().counter_id@ == c {
            lemma_without_counter_order(v.drop_last(), c, i, j);
        } else if j < rest.len() {
            lemma_without_counter_order(v.drop_last(), c, i, j);
        } else {
            assert(without_counter(v, c)[j] == v.last());
            let a = choose|a: int| 0 <= a < v.drop_last().len() && v.drop_last()[a] == rest[i];
            assert(v[a] == rest[i]);
            assert(v[v.len() - 1] == v.last());
        }
    }
}

/// What a search shows: its results where there are any, else the history
/// where nothing is typed, else nothing.
pub open spec fn shown_results(results: Seq<PoolItem>, query_empty: bool, history: Seq<PoolItem>) -> Seq<PoolItem> {
    if results.len() > 0 {
        results
    } else if query_empty {
        history
    } else {
        Seq::empty()
    }
}

/// The items a search shows (see `shown_results`).
pub fn search_results(results: &Vec<PoolItem>, query_empty: bool, history: &SearchHistory) -> (r: Vec<PoolItem>)
    ensures
        r@ == shown_results(results@, query_empty, history@),
{
    let source: &Vec<PoolItem> = if results.len() > 0 {
        results
    } else if query_empty {
        &history.items
    } else {
        return Vec::new();
    };
    let mut r: Vec<PoolItem> = Vec::new();
    let mut i: usize = 0;
    while i < source.len()
        invariant
            i <= source.len(),
            r@ == source@.take(i as int),
        decreases source.len() - i,
    {
        r.push(source[i].clone());
        assert(r@ =~= source@.take(i + 1));
        i = i + 1;
    }
    assert(source@.take(source.len() as int) =~= source@);
    r
}

// ---------------------------------------------------------------------------
// Watchlist groups
// ---------------------------------------------------------------------------

/// A group matches a keyword where its name, lower-cased, holds the keyword
/// lower-cased.
pub open spec fn group_matches(g: WatchlistGroup, keyword: Seq<char>) -> bool {
    contains_seq(lower_seq(g.name@), lower_seq(keyword))
}

/// The groups shown for a keyword, in order: all of them where it is empty.
pub open spec fn matching_groups(groups: Seq<WatchlistGroup>, keyword: Seq<char>) -> Seq<WatchlistGroup>
    decreases groups.len(),
{
    if groups.len() == 0 {
        Seq::empty()
    } else {
        let rest = matching_groups(groups.drop_last(), keyword);
        if keyword.len() == 0 || group_matches(groups.last(), keyword) {
            rest.push(groups.last())
        } else {
            rest
        }
    }
}

/// The groups whose name holds the keyword, whatever the case; all of them for
/// an empty keyword.
pub fn filter_groups(groups: &Vec<WatchlistGroup>, keyword: &str) -> (r: Vec<WatchlistGroup>)
    ensures
        r@ == matching_groups(groups@, keyword@),
{
    let kw = lower_chars(&chars_of(keyword));
    let mut r: Vec<WatchlistGroup> = Vec::new();
    let mut i: usize = 0;
    while i < groups.len()
        invariant
            i <= groups.len(),
            kw@ == lower_seq(keyword@),
            r@ == matching_groups(groups@.take(i as int), keyword@),
        decreases groups.len() - i,
    {
        proof {
            assert(groups@.take(i + 1).drop_last() =~= groups@.take(i as int));
        }
        let g = &groups[i];
        if keyword.is_empty() || contains_chars(&lower_chars(&chars_of(g.name.as_str())), &kw) {
            r.push(g.clone());
        }
        i = i + 1;
    }
    assert(groups@.take(groups.len() as int) =~= groups@);
    r
}

} // verus!
