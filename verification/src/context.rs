use vstd::prelude::*;

use dashmap::DashMap;

use crate::meta::{
    default_scale_decimals, is_fallback_of, lemma_pairs_map_at, normalize_symbol, normalize_symbol_spec,
    pair_views, pairs_map, unique_keys, PoolMetadata,
};
use crate::decimal::{max_scale, Decimal};
use crate::order::{sorted_unique, strictly_sorted_texts, texts};
use crate::rest::{is_metadata_of, PoolDto};
use crate::text::{trim_seq, trimmed_is_empty};

verus! {

broadcast use vstd::seq_lib::group_seq_properties;

// ---------------------------------------------------------------------------
// Concurrent maps of the service's configuration
// ---------------------------------------------------------------------------

/// The texts a concurrent map of strings holds, by the text of their key.
pub uninterp spec fn text_map_contents(m: DashMap<String, String>) -> Map<Seq<char>, Seq<char>>;

/// The metadata a concurrent map holds, by the text of their key.
pub uninterp spec fn meta_map_contents(m: DashMap<String, PoolMetadata>) -> Map<Seq<char>, PoolMetadata>;

pub open spec fn no_texts() -> Map<Seq<char>, Seq<char>> {
    Map::empty()
}

pub open spec fn no_metadata() -> Map<Seq<char>, PoolMetadata> {
    Map::empty()
}

/// Calls `DashMap::new`: the map is empty.
#[verifier::external_body]
fn text_map_new() -> (r: DashMap<String, String>)
    ensures
        text_map_contents(r) == no_texts(),
{
    DashMap::new()
}

/// Calls `DashMap::insert`: the key now maps to the value, the rest is kept.
#[verifier::external_body]
fn text_map_insert(m: &mut DashMap<String, String>, key: String, value: String)
    ensures
        text_map_contents(*final(m)) == text_map_contents(*old(m)).insert(key@, value@),
{
    m.insert(key, value);
}

/// Calls `DashMap::get` and clones the value found: the text stored under the
/// key, if any.
#[verifier::external_body]
fn text_map_get(m: &DashMap<String, String>, key: &str) -> (r: Option<String>)
    ensures
        r is Some <==> text_map_contents(*m).contains_key(key@),
        r matches Some(v) ==> v@ == text_map_contents(*m)[key@],
{
    m.get(key).map(|entry| entry.value().clone())
}

/// Calls `DashMap::contains_key`.
#[verifier::external_body]
fn text_map_contains(m: &DashMap<String, String>, key: &str) -> (r: bool)
    ensures
        r == text_map_contents(*m).contains_key(key@),
{
    m.contains_key(key)
}

/// Walks a `DashMap` and clones its keys: each key once, in an order that
/// nothing fixes.
#[verifier::external_body]
fn text_map_keys(m: &DashMap<String, String>) -> (r: Vec<String>)
    ensures
        texts(r@).no_duplicates(),
        texts(r@).to_set() == text_map_contents(*m).dom(),
{
    m.iter().map(|entry| entry.key().clone()).collect()
}

/// Walks a `DashMap` and clones its values: every value the map holds, in an
/// order that nothing fixes.
#[verifier::external_body]
fn text_map_values(m: &DashMap<String, String>) -> (r: Vec<String>)
    ensures
        texts(r@).to_set() == text_map_contents(*m).values(),
{
    m.iter().map(|entry| entry.value().clone()).collect()
}

/// Calls `DashMap::new`: the map is empty.
#[verifier::external_body]
fn meta_map_new() -> (r: DashMap<String, PoolMetadata>)
    ensures
        meta_map_contents(r) == no_metadata(),
{
    DashMap::new()
}

/// Calls `DashMap::insert`: the key now maps to the value, the rest is kept.
#[verifier::external_body]
fn meta_map_insert(m: &mut DashMap<String, PoolMetadata>, key: String, value: PoolMetadata)
    ensures
        meta_map_contents(*final(m)) == meta_map_contents(*old(m)).insert(key@, value),
{
    m.insert(key, value);
}

/// Calls `DashMap::get` and clones the metadata found under the key, if any.
#[verifier::external_body]
fn meta_map_get(m: &DashMap<String, PoolMetadata>, key: &str) -> (r: Option<PoolMetadata>)
    ensures
        r is Some <==> meta_map_contents(*m).contains_key(key@),
        r matches Some(v) ==> v == meta_map_contents(*m)[key@],
{
    m.get(key).map(|entry| entry.value().clone())
}

// ---------------------------------------------------------------------------
// The registry of configured pools
// ---------------------------------------------------------------------------

/// What the registry holds: the stream key of each configured pool, the REST
/// keys configured per pool, the default REST key, and the metadata known of
/// each pool.
pub struct RegistryView {
    pub pool_keys: Map<Seq<char>, Seq<char>>,
    pub rest_pool_keys: Map<Seq<char>, Seq<char>>,
    pub rest_default_key: Option<Seq<char>>,
    pub pool_meta: Map<Seq<char>, PoolMetadata>,
}

/// The pools the terminal is configured for, their API keys and what is known
/// of them.
pub struct QuoteRegistry {
    pool_keys: DashMap<String, String>,
    rest_pool_keys: DashMap<String, String>,
    rest_default_key: Option<String>,
    pool_meta: DashMap<String, PoolMetadata>,
}

impl View for QuoteRegistry {
    type V = RegistryView;

    closed spec fn view(&self) -> RegistryView {
        RegistryView {
            pool_keys: text_map_contents(self.pool_keys),
            rest_pool_keys: text_map_contents(self.rest_pool_keys),
            rest_default_key: match self.rest_default_key {
                Some(k) => Some(k@),
                None => None,
            },
            pool_meta: meta_map_contents(self.pool_meta),
        }
    }
}

/// Why the configuration cannot be used.
#[derive(Clone, Copy, Debug, PartialEq, Eq, Structural)]
pub enum ConfigError {
    /// No pool has a stream key.
    NoStreamKeys,
}

/// Which API key a pool lacks.
#[derive(Clone, Copy, Debug, PartialEq, Eq, Structural)]
pub enum KeyError {
    MissingStreamKey,
    MissingRestKey,
}

/// A configured default key counts where it is not blank.
pub open spec fn nonblank_key(k: Option<String>) -> Option<Seq<char>> {
    match k {
        Some(v) => if trim_seq(v@).len() > 0 {
            Some(v@)
        } else {
            None
        },
        None => None,
    }
}

/// Every configured pool has the assumed metadata and nothing else has any.
pub open spec fn fallback_metadata(keys: Map<Seq<char>, Seq<char>>, meta: Map<Seq<char>, PoolMetadata>) -> bool {
    &&& meta.dom() == keys.dom()
    &&& forall|k: Seq<char>| #[trigger] meta.contains_key(k) ==> is_fallback_of(meta[k], k)
}

/// The map of the first `i` pairs is the map of the first `i - 1` with the
/// `i`-th added.
pub proof fn lemma_pairs_map_take(v: Seq<(Seq<char>, Seq<char>)>, i: int)
    requires
        unique_keys(v),
        0 <= i < v.len(),
    ensures
        pairs_map(v.take(i + 1)) == pairs_map(v.take(i)).insert(v[i].0, v[i].1),
{
    let a = v.take(i + 1);
    let b = v.take(i);
    assert(unique_keys(a));
    assert(unique_keys(b));
    lemma_pairs_map_at(a, i);
    assert forall|k: Seq<char>| k != v[i].0 implies (pairs_map(a).contains_key(k) == pairs_map(b).contains_key(k)) && (
    pairs_map(a).contains_key(k) ==> pairs_map(a)[k] == pairs_map(b)[k]) by {
        if pairs_map(a).contains_key(k) {
            let j = choose|j: int| 0 <= j < a.len() && a[j].0 == k;
            assert(j < i);
            assert(b[j].0 == k);
            lemma_pairs_map_at(a, j);
            lemma_pairs_map_at(b, j);
        }
        if pairs_map(b).contains_key(k) {
            let j = choose|j: int| 0 <= j < b.len() && b[j].0 == k;
            assert(a[j].0 == k);
        }
    }
    assert(pairs_map(a) =~= pairs_map(b).insert(v[i].0, v[i].1));
}

impl QuoteRegistry {
    /// The registry of the pools configured by the stream keys found, with
    /// the REST keys found (a `_REST_API_KEY` winning over an `_API_KEY` for
    /// the same pool) and the default REST key where it is not blank. Every
    /// configured pool starts with the metadata assumed from its name. With
    /// no stream key, nothing can be shown.
    pub fn new(
        stream_keys: &Vec<(String, String)>,
        rest_keys: &Vec<(String, String)>,
        alt_rest_keys: &Vec<(String, String)>,
        rest_default_key: Option<String>,
    ) -> (r: Result<QuoteRegistry, ConfigError>)
        requires
            unique_keys(pair_views(stream_keys@)),
            unique_keys(pair_views(rest_keys@)),
            unique_keys(pair_views(alt_rest_keys@)),
        ensures
            r is Err <==> stream_keys.len() == 0,
            r matches Ok(reg) ==> {
                &&& reg@.pool_keys == pairs_map(pair_views(stream_keys@))
                &&& reg@.rest_pool_keys == pairs_map(pair_views(alt_rest_keys@)).union_prefer_right(
                    pairs_map(pair_views(rest_keys@)),
                )
                &&& reg@.rest_default_key == nonblank_key(rest_default_key)
                &&& fallback_metadata(reg@.pool_keys, reg@.pool_meta)
            },
    {
        if stream_keys.len() == 0 {
            return Err(ConfigError::NoStreamKeys);
        }
        let default_key = match rest_default_key {
            Some(k) => if trimmed_is_empty(k.as_str()) {
                None
            } else {
                Some(k)
            },
            None => None,
        };
        let mut pool_keys = text_map_new();
        let mut pool_meta = meta_map_new();
        let ghost sv = pair_views(stream_keys@);
        let mut i: usize = 0;
        assert(sv.take(0) =~= Seq::<(Seq<char>, Seq<char>)>::empty());
        assert(pairs_map(sv.take(0)) =~= no_texts());
        while i < stream_keys.len()
            invariant
                sv == pair_views(stream_keys@),
                unique_keys(sv),
                i <= stream_keys.len(),
                text_map_contents(pool_keys) == pairs_map(sv.take(i as int)),
                fallback_metadata(text_map_contents(pool_keys), meta_map_contents(pool_meta)),
            decreases stream_keys.len() - i,
        {
            proof {
                lemma_pairs_map_take(sv, i as int);
            }
            let name = &stream_keys[i].0;
            let key = &stream_keys[i].1;
            text_map_insert(&mut pool_keys, name.clone(), key.clone());
            meta_map_insert(&mut pool_meta, name.clone(), PoolMetadata::fallback(name.as_str()));
            proof {
                assert(meta_map_contents(pool_meta).dom() =~= text_map_contents(pool_keys).dom());
            }
            i = i + 1;
        }
        assert(sv.take(stream_keys.len() as int) =~= sv);
        let mut rest_pool_keys = text_map_new();
        let ghost rv = pair_views(rest_keys@);
        let ghost av = pair_views(alt_rest_keys@);
        let mut j: usize = 0;
        assert(rv.take(0) =~= Seq::<(Seq<char>, Seq<char>)>::empty());
        assert(pairs_map(rv.take(0)) =~= no_texts());
        while j < rest_keys.len()
            invariant
                rv == pair_views(rest_keys@),
                unique_keys(rv),
                j <= rest_keys.len(),
                text_map_contents(rest_pool_keys) == pairs_map(rv.take(j as int)),
            decreases rest_keys.len() - j,
        {
            proof {
                lemma_pairs_map_take(rv, j as int);
            }
            text_map_insert(&mut rest_pool_keys, rest_keys[j].0.clone(), rest_keys[j].1.clone());
            j = j + 1;
        }
        assert(rv.take(rest_keys.len() as int) =~= rv);
        let mut k: usize = 0;
        assert(av.take(0) =~= Seq::<(Seq<char>, Seq<char>)>::empty());
        assert(pairs_map(av.take(0)) =~= no_texts());
        assert(pairs_map(av.take(0)).union_prefer_right(pairs_map(rv)) =~= pairs_map(rv));
        while k < alt_rest_keys.len()
            invariant
                av == pair_views(alt_rest_keys@),
                unique_keys(av),
                k <= alt_rest_keys.len(),
                text_map_contents(rest_pool_keys) == pairs_map(av.take(k as int)).union_prefer_right(pairs_map(rv)),
            decreases alt_rest_keys.len() - k,
        {
            proof {
                lemma_pairs_map_take(av, k as int);
            }
            let ghost before = text_map_contents(rest_pool_keys);
            if !text_map_contains(&rest_pool_keys, alt_rest_keys[k].0.as_str()) {
                text_map_insert(&mut rest_pool_keys, alt_rest_keys[k].0.clone(), alt_rest_keys[k].1.clone());
            }
            proof {
                assert(text_map_contents(rest_pool_keys) =~= pairs_map(av.take(k + 1)).union_prefer_right(pairs_map(rv)));
            }
            k = k + 1;
        }
        assert(av.take(alt_rest_keys.len() as int) =~= av);
        Ok(QuoteRegistry { pool_keys, rest_pool_keys, rest_default_key: default_key, pool_meta })
    }

    /// The configured pools' symbols, sorted.
    pub fn configured_symbols(&self) -> (r: Vec<String>)
        ensures
            strictly_sorted_texts(texts(r@)),
            texts(r@).to_set() == self@.pool_keys.dom(),
    {
        sorted_unique(text_map_keys(&self.pool_keys))
    }

    /// The decimals of a pool's base asset: as its metadata says, six where
    /// nothing is known of it.
    pub fn base_asset_decimals(&self, symbol: &str) -> (r: u32)
        ensures
            ({
                let s = normalize_symbol_spec(symbol@);
                r == if self@.pool_meta.contains_key(s) {
                    self@.pool_meta[s].base_asset_decimals
                } else {
                    default_scale_decimals()
                }
            }),
    {
        let symbol = normalize_symbol(symbol);
        match meta_map_get(&self.pool_meta, symbol.as_str()) {
            Some(meta) => meta.base_asset_decimals,
            None => 6,
        }
    }

    /// The stream key of a pool.
    pub fn stream_api_key(&self, symbol: &str) -> (r: Result<String, KeyError>)
        ensures
            ({
                let s = normalize_symbol_spec(symbol@);
                &&& r is Ok <==> self@.pool_keys.contains_key(s)
                &&& r matches Ok(k) ==> k@ == self@.pool_keys[s]
                &&& r matches Err(e) ==> e == KeyError::MissingStreamKey
            }),
    {
        let symbol = normalize_symbol(symbol);
        match text_map_get(&self.pool_keys, symbol.as_str()) {
            Some(k) => Ok(k),
            None => Err(KeyError::MissingStreamKey),
        }
    }

    /// The REST key for a pool: its own, else the default one.
    pub fn rest_api_key(&self, symbol: &str) -> (r: Result<String, KeyError>)
        ensures
            ({
                let s = normalize_symbol_spec(symbol@);
                &&& r is Ok <==> (self@.rest_pool_keys.contains_key(s) || self@.rest_default_key is Some)
                &&& r matches Ok(k) ==> k@ == (if self@.rest_pool_keys.contains_key(s) {
                    self@.rest_pool_keys[s]
                } else {
                    self@.rest_default_key->0
                })
                &&& r matches Err(e) ==> e == KeyError::MissingRestKey
            }),
    {
        let symbol = normalize_symbol(symbol);
        match text_map_get(&self.rest_pool_keys, symbol.as_str()) {
            Some(k) => Ok(k),
            None => match &self.rest_default_key {
                Some(k) => Ok(k.clone()),
                None => Err(KeyError::MissingRestKey),
            },
        }
    }

    /// The metadata known of a pool, if any.
    pub fn cached_pool_meta(&self, symbol: &str) -> (r: Option<PoolMetadata>)
        ensures
            ({
                let s = normalize_symbol_spec(symbol@);
                &&& r is Some <==> self@.pool_meta.contains_key(s)
                &&& r matches Some(m) ==> m == self@.pool_meta[s]
            }),
    {
        let symbol = normalize_symbol(symbol);
        meta_map_get(&self.pool_meta, symbol.as_str())
    }

    /// The distinct REST keys to list pools with (each pool's and the
    /// default), sorted.
    pub fn bootstrap_keys(&self) -> (r: Vec<String>)
        ensures
            strictly_sorted_texts(texts(r@)),
            texts(r@).to_set() == (match self@.rest_default_key {
                Some(k) => self@.rest_pool_keys.values().insert(k),
                None => self@.rest_pool_keys.values(),
            }),
    {
        let mut keys = text_map_values(&self.rest_pool_keys);
        let ghost before = texts(keys@);
        match &self.rest_default_key {
            Some(k) => {
                keys.push(k.clone());
                assert(texts(keys@) =~= before.push(k@));
                assert(texts(keys@).to_set() =~= before.to_set().insert(k@));
            },
            None => {},
        }
        sorted_unique(keys)
    }
}

// ---------------------------------------------------------------------------
// Recording listed pools
// ---------------------------------------------------------------------------

/// Whether a listed pool is recorded: all are, or, for `configured_only`,
/// those whose name (as listed) is a configured pool.
pub open spec fn recorded_pool(p: PoolDto, keys: Map<Seq<char>, Seq<char>>, configured_only: bool) -> bool {
    !configured_only || keys.contains_key(p.pool_name@)
}

/// The index of the last recorded pool among the first `n` whose name, in
/// normal form, is `k`; -1 where there is none.
pub open spec fn last_recorded(
    pools: Seq<PoolDto>,
    n: int,
    k: Seq<char>,
    keys: Map<Seq<char>, Seq<char>>,
    configured_only: bool,
) -> int
    decreases n,
{
    if n <= 0 {
        -1
    } else if recorded_pool(pools[n - 1], keys, configured_only) && normalize_symbol_spec(pools[n - 1].pool_name@) == k {
        n - 1
    } else {
        last_recorded(pools, n - 1, k, keys, configured_only)
    }
}

pub proof fn lemma_last_recorded_bounds(
    pools: Seq<PoolDto>,
    n: int,
    k: Seq<char>,
    keys: Map<Seq<char>, Seq<char>>,
    configured_only: bool,
)
    requires
        0 <= n <= pools.len(),
    ensures
        -1 <= last_recorded(pools, n, k, keys, configured_only) < n,
        last_recorded(pools, n, k, keys, configured_only) >= 0 ==> {
            let i = last_recorded(pools, n, k, keys, configured_only);
            &&& recorded_pool(pools[i], keys, configured_only)
            &&& normalize_symbol_spec(pools[i].pool_name@) == k
        },
    decreases n,
{
    if n > 0 {
        lemma_last_recorded_bounds(pools, n - 1, k, keys, configured_only);
    }
}

/// The metadata after recording the first `n` listed pools: each recorded
/// pool's metadata under its name in normal form, a later pool winning over an
/// earlier one; other entries kept.
pub open spec fn recorded_upto(
    before: Map<Seq<char>, PoolMetadata>,
    after: Map<Seq<char>, PoolMetadata>,
    pools: Seq<PoolDto>,
    n: int,
    keys: Map<Seq<char>, Seq<char>>,
    configured_only: bool,
) -> bool {
    forall|k: Seq<char>| {
        let i = #[trigger] last_recorded(pools, n, k, keys, configured_only);
        &&& after.contains_key(k) <==> (before.contains_key(k) || i >= 0)
        &&& i >= 0 ==> is_metadata_of(after[k], pools[i])
        &&& (i < 0 && before.contains_key(k)) ==> after[k] == before[k]
    }
}

/// The metadata after recording all the listed pools.
pub open spec fn metadata_recorded(
    before: Map<Seq<char>, PoolMetadata>,
    after: Map<Seq<char>, PoolMetadata>,
    pools: Seq<PoolDto>,
    keys: Map<Seq<char>, Seq<char>>,
    configured_only: bool,
) -> bool {
    recorded_upto(before, after, pools, pools.len() as int, keys, configured_only)
}

impl QuoteRegistry {
    /// Records the metadata of listed pools: all of them, or, for
    /// `configured_only`, those whose name is a configured pool. The keys are
    /// kept.
    pub fn record_pools(&mut self, pools: &Vec<PoolDto>, configured_only: bool)
        ensures
            final(self)@.pool_keys == old(self)@.pool_keys,
            final(self)@.rest_pool_keys == old(self)@.rest_pool_keys,
            final(self)@.rest_default_key == old(self)@.rest_default_key,
            metadata_recorded(old(self)@.pool_meta, final(self)@.pool_meta, pools@, old(self)@.pool_keys, configured_only),
    {
        let ghost all = pools@;
        let ghost keys = self@.pool_keys;
        let ghost start = self@.pool_meta;
        let mut i: usize = 0;
        while i < pools.len()
            invariant
                all == pools@,
                i <= pools.len(),
                self@.pool_keys == keys,
                self@.rest_pool_keys == old(self)@.rest_pool_keys,
                self@.rest_default_key == old(self)@.rest_default_key,
                keys == old(self)@.pool_keys,
                start == old(self)@.pool_meta,
                recorded_upto(start, self@.pool_meta, all, i as int, keys, configured_only),
            decreases pools.len() - i,
        {
            let take = !configured_only || text_map_contains(&self.pool_keys, pools[i].pool_name.as_str());
            let ghost before = self@.pool_meta;
            let ghost mut ks: Seq<char> = Seq::empty();
            if take {
                let meta = PoolMetadata::of_pool(&pools[i]);
                proof {
                    ks = meta.pool_name@;
                }
                meta_map_insert(&mut self.pool_meta, meta.pool_name.clone(), meta);
            }
            proof {
                assert(take ==> self@.pool_meta == before.insert(ks, self@.pool_meta[ks]));
                assert(take ==> is_metadata_of(self@.pool_meta[ks], all[i as int]));
                assert(!take ==> self@.pool_meta == before);
                assert forall|k: Seq<char>| {
                    let j = #[trigger] last_recorded(all, i + 1, k, keys, configured_only);
                    &&& self@.pool_meta.contains_key(k) <==> (start.contains_key(k) || j >= 0)
                    &&& j >= 0 ==> is_metadata_of(self@.pool_meta[k], all[j])
                    &&& (j < 0 && start.contains_key(k)) ==> self@.pool_meta[k] == start[k]
                } by {
                    lemma_last_recorded_bounds(all, i as int, k, keys, configured_only);
                    let j0 = last_recorded(all, i as int, k, keys, configured_only);
                    assert(before.contains_key(k) <==> (start.contains_key(k) || j0 >= 0));
                    if take && k == ks {
                        assert(last_recorded(all, i + 1, k, keys, configured_only) == i);
                    } else {
                        assert(last_recorded(all, i + 1, k, keys, configured_only) == j0);
                        assert(self@.pool_meta.contains_key(k) == before.contains_key(k));
                        assert(before.contains_key(k) ==> self@.pool_meta[k] == before[k]);
                    }
                }
                assert(recorded_upto(start, self@.pool_meta, all, i + 1, keys, configured_only));
            }
            i = i + 1;
        }
    }
}

// ---------------------------------------------------------------------------
// The watchlist of configured pools
// ---------------------------------------------------------------------------

/// A pool of a watchlist group: its symbol and display name.
#[derive(Clone, Debug)]
pub struct WatchlistPoolEntry {
    pub symbol: String,
    pub name: String,
}

/// A watchlist group of pools.
#[derive(Clone, Debug)]
pub struct WatchlistPoolGroup {
    pub id: u64,
    pub name: String,
    pub pools: Vec<WatchlistPoolEntry>,
}

/// The symbol and display name of each pool that is (for `margin`) or is not a
/// margin pool, in order.
pub open spec fn group_entries(pools: Seq<PoolMetadata>, margin: bool) -> Seq<(Seq<char>, Seq<char>)>
    decreases pools.len(),
{
    if pools.len() == 0 {
        Seq::empty()
    } else {
        let rest = group_entries(pools.drop_last(), margin);
        let p = pools.last();
        if p.is_margin == margin {
            rest.push((p.pool_name@, p.base_asset_symbol@ + "/"@ + p.quote_asset_symbol@))
        } else {
            rest
        }
    }
}

/// The symbol and name of each entry, in order.
pub open spec fn entry_views(v: Seq<WatchlistPoolEntry>) -> Seq<(Seq<char>, Seq<char>)> {
    v.map_values(|e: WatchlistPoolEntry| (e.symbol@, e.name@))
}

/// Every pool goes into exactly one of the two groups.
pub proof fn lemma_groups_partition(pools: Seq<PoolMetadata>)
    ensures
        group_entries(pools, false).len() + group_entries(pools, true).len() == pools.len(),
    decreases pools.len(),
{
    if pools.len() > 0 {
        lemma_groups_partition(pools.drop_last());
    }
}

/// The watchlist of the configured pools: group 1, "Spot Pools", with the
/// pools that are not margin pools, then group 2, "Margin Pools", with the
/// others, each in the order given.
pub fn watchlist_groups(pools: &Vec<PoolMetadata>) -> (r: Vec<WatchlistPoolGroup>)
    ensures
        r.len() == 2,
        r@[0].id == 1,
        r@[0].name@ == "Spot Pools"@,
        entry_views(r@[0].pools@) == group_entries(pools@, false),
        r@[1].id == 2,
        r@[1].name@ == "Margin Pools"@,
        entry_views(r@[1].pools@) == group_entries(pools@, true),
{
    let mut spot_entries: Vec<WatchlistPoolEntry> = Vec::new();
    let mut margin_entries: Vec<WatchlistPoolEntry> = Vec::new();
    let mut i: usize = 0;
    while i < pools.len()
        invariant
            i <= pools.len(),
            entry_views(spot_entries@) == group_entries(pools@.take(i as int), false),
            entry_views(margin_entries@) == group_entries(pools@.take(i as int), true),
        decreases pools.len() - i,
    {
        let pool = &pools[i];
        let entry = WatchlistPoolEntry { symbol: pool.pool_name.clone(), name: pool.display_name() };
        proof {
            assert(pools@.take(i + 1).drop_last() =~= pools@.take(i as int));
        }
        if pool.is_margin {
            let ghost before = entry_views(margin_entries@);
            margin_entries.push(entry);
            assert(entry_views(margin_entries@) =~= before.push((pool.pool_name@, pool.base_asset_symbol@ + "/"@ + pool.quote_asset_symbol@)));
        } else {
            let ghost before = entry_views(spot_entries@);
            spot_entries.push(entry);
            assert(entry_views(spot_entries@) =~= before.push((pool.pool_name@, pool.base_asset_symbol@ + "/"@ + pool.quote_asset_symbol@)));
        }
        i = i + 1;
    }
    assert(pools@.take(pools.len() as int) =~= pools@);
    let mut r: Vec<WatchlistPoolGroup> = Vec::new();
    r.push(WatchlistPoolGroup { id: 1, name: "Spot Pools".to_string(), pools: spot_entries });
    r.push(WatchlistPoolGroup { id: 2, name: "Margin Pools".to_string(), pools: margin_entries });
    r
}

// ---------------------------------------------------------------------------
// Volumes in base-asset units
// ---------------------------------------------------------------------------

/// The decimals of a pool's base asset as a registry (where there is one)
/// knows them; six otherwise.
pub open spec fn base_decimals_of(ctx: Option<RegistryView>, symbol: Seq<char>) -> u32 {
    match ctx {
        Some(v) => {
            let s = normalize_symbol_spec(symbol);
            if v.pool_meta.contains_key(s) {
                v.pool_meta[s].base_asset_decimals
            } else {
                default_scale_decimals()
            }
        },
        None => default_scale_decimals(),
    }
}

pub open spec fn registry_view(ctx: Option<&QuoteRegistry>) -> Option<RegistryView> {
    match ctx {
        Some(c) => Some(c@),
        None => None,
    }
}

/// The decimals of a pool's base asset, six where there is no registry yet.
pub fn base_asset_decimals(ctx: Option<&QuoteRegistry>, symbol: &str) -> (r: u32)
    ensures
        r == base_decimals_of(registry_view(ctx), symbol@),
{
    match ctx {
        Some(c) => c.base_asset_decimals(symbol),
        None => 6,
    }
}

/// A raw base-asset volume in units of the asset.
pub fn normalize_base_volume_u64(ctx: Option<&QuoteRegistry>, symbol: &str, raw_volume: u64) -> (r: Decimal)
    requires
        base_decimals_of(registry_view(ctx), symbol@) <= max_scale(),
    ensures
        r.wf(),
        r.mantissa == raw_volume,
        r.scale == base_decimals_of(registry_view(ctx), symbol@),
{
    Decimal::from_i128_with_scale(raw_volume as i128, base_asset_decimals(ctx, symbol))
}

/// A raw base-asset volume (negative for a sale) in units of the asset.
pub fn normalize_base_volume_i64(ctx: Option<&QuoteRegistry>, symbol: &str, raw_volume: i64) -> (r: Decimal)
    requires
        base_decimals_of(registry_view(ctx), symbol@) <= max_scale(),
    ensures
        r.wf(),
        r.mantissa == raw_volume,
        r.scale == base_decimals_of(registry_view(ctx), symbol@),
{
    Decimal::from_i128_with_scale(raw_volume as i128, base_asset_decimals(ctx, symbol))
}

} // verus!
