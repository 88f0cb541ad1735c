use vstd::prelude::*;

use crate::text::{
    chars_of, contains_chars, first_pos, contains_seq, ends_with_chars, ends_with_seq, find_char,
    lemma_first_pos_bounds, lemma_trim_ends, lemma_trim_unchanged, push_str, replace_chars,
    replace_seq, string_from_chars, trim_chars, trim_seq, upper_char, upper_chars, upper_seq,
    white_space,
};
use crate::types::{first_field, second_field};

verus! {

broadcast use vstd::seq_lib::group_seq_properties;

/// Decimals assumed for an asset whose metadata is unknown.
pub open spec fn default_scale_decimals() -> u32 {
    6
}

/// `symbol.trim().to_ascii_uppercase().replace('.', "_")`.
pub open spec fn normalize_symbol_spec(s: Seq<char>) -> Seq<char> {
    replace_seq(upper_seq(trim_seq(s)), '.', '_')
}

/// The canonical form of a pool symbol: trimmed, upper-case, `.` turned into `_`.
pub fn normalize_symbol(symbol: &str) -> (r: String)
    ensures
        r@ == normalize_symbol_spec(symbol@),
{
    let v = chars_of(symbol);
    let t = trim_chars(&v);
    let u = upper_chars(&t);
    let w = replace_chars(&u, '.', '_');
    string_from_chars(&w)
}

/// Normalizing a symbol that is already normal changes nothing.
pub proof fn lemma_normalize_symbol_idempotent(s: Seq<char>)
    ensures
        normalize_symbol_spec(normalize_symbol_spec(s)) == normalize_symbol_spec(s),
{
    let t = trim_seq(s);
    let n = normalize_symbol_spec(s);
    lemma_trim_ends(s);
    assert forall|i: int| 0 <= i < n.len() implies {
        &&& (!white_space(t[i]) ==> !white_space(#[trigger] n[i]))
        &&& upper_char(n[i]) == n[i]
        &&& n[i] != '.'
    } by {
        let c = t[i];
        if 'a' <= c && c <= 'z' {
            assert(((c as u32) - 32) as char as u32 == (c as u32) - 32);
        }
    }
    if n.len() > 0 {
        assert(n.last() == n[n.len() - 1]);
    }
    lemma_trim_unchanged(n);
    assert(upper_seq(n) =~= n);
    assert(replace_seq(n, '.', '_') =~= n);
}

/// What `parse_pool_name` returns: the two first fields of the name split on
/// `_`, or the whole name and `QUOTE` where there is no `_`.
pub open spec fn parse_pool_name_spec(name: Seq<char>) -> (Seq<char>, Seq<char>) {
    match second_field(name, '_') {
        Some(q) => (first_field(name, '_'), q),
        None => (name, "QUOTE"@),
    }
}

/// Splits a pool name such as `SUI_USDC` into base and quote symbols.
pub fn parse_pool_name(pool_name: &str) -> (r: (&str, &str))
    ensures
        (r.0@, r.1@) == parse_pool_name_spec(pool_name@),
{
    let v = chars_of(pool_name);
    let p = find_char(&v, '_');
    proof {
        lemma_first_pos_bounds(v@, '_');
    }
    if p == v.len() {
        return (pool_name, "QUOTE");
    }
    let mut rest: Vec<char> = Vec::new();
    let mut i = p + 1;
    while i < v.len()
        invariant
            p + 1 <= i <= v.len(),
            rest@ =~= v@.subrange(p + 1, i as int),
        decreases v.len() - i,
    {
        rest.push(v[i]);
        i = i + 1;
    }
    assert(rest@ =~= v@.skip(p + 1));
    let q = find_char(&rest, '_');
    let base = pool_name.substring_char(0, p);
    let quote = pool_name.substring_char(p + 1, p + 1 + q);
    assert(quote@ =~= rest@.take(q as int));
    (base, quote)
}

/// Whether a pool name reads as a margin pool: its normal form holds `MARGIN`
/// or ends in `_M`.
pub open spec fn looks_like_margin_spec(name: Seq<char>) -> bool {
    let n = normalize_symbol_spec(name);
    contains_seq(n, "MARGIN"@) || ends_with_seq(n, "_M"@)
}

pub fn looks_like_margin_pool_name(pool_name: &str) -> (r: bool)
    ensures
        r == looks_like_margin_spec(pool_name@),
{
    let normalized = normalize_symbol(pool_name);
    let n = chars_of(normalized.as_str());
    let margin = chars_of("MARGIN");
    let suffix = chars_of("_M");
    contains_chars(&n, &margin) || ends_with_chars(&n, &suffix)
}

/// What is known of a pool: its name, its assets and their decimals, its sizes.
#[derive(Debug)]
pub struct PoolMetadata {
    pub pool_name: String,
    pub pool_id: String,
    pub base_asset_symbol: String,
    pub quote_asset_symbol: String,
    pub is_margin: bool,
    pub base_asset_decimals: u32,
    pub quote_asset_decimals: u32,
    pub min_size: i64,
    pub lot_size: i64,
    pub tick_size: i64,
}

impl Clone for PoolMetadata {
    fn clone(&self) -> (r: Self)
        ensures
            r == *self,
    {
        PoolMetadata {
            pool_name: self.pool_name.clone(),
            pool_id: self.pool_id.clone(),
            base_asset_symbol: self.base_asset_symbol.clone(),
            quote_asset_symbol: self.quote_asset_symbol.clone(),
            is_margin: self.is_margin,
            base_asset_decimals: self.base_asset_decimals,
            quote_asset_decimals: self.quote_asset_decimals,
            min_size: self.min_size,
            lot_size: self.lot_size,
            tick_size: self.tick_size,
        }
    }
}

/// Whether `m` is the metadata assumed for the pool `pool_name` before the
/// service is asked (see `PoolMetadata::fallback`).
pub open spec fn is_fallback_of(m: PoolMetadata, pool_name: Seq<char>) -> bool {
    &&& m.pool_name@ == pool_name
    &&& m.pool_id@ == Seq::<char>::empty()
    &&& (m.base_asset_symbol@, m.quote_asset_symbol@) == parse_pool_name_spec(pool_name)
    &&& m.is_margin == looks_like_margin_spec(pool_name)
    &&& m.base_asset_decimals == default_scale_decimals()
    &&& m.quote_asset_decimals == default_scale_decimals()
    &&& m.min_size == 0
    &&& m.lot_size == 0
    &&& m.tick_size == 0
}

impl PoolMetadata {
    /// The metadata assumed for a configured pool before the service is asked:
    /// assets from the name, six decimals, no sizes.
    pub fn fallback(pool_name: &str) -> (r: Self)
        ensures
            is_fallback_of(r, pool_name@),
    {
        let (base, quote) = parse_pool_name(pool_name);
        PoolMetadata {
            pool_name: pool_name.to_owned(),
            pool_id: String::new(),
            base_asset_symbol: base.to_owned(),
            quote_asset_symbol: quote.to_owned(),
            is_margin: looks_like_margin_pool_name(pool_name),
            base_asset_decimals: 6,
            quote_asset_decimals: 6,
            min_size: 0,
            lot_size: 0,
            tick_size: 0,
        }
    }

    /// `BASE/QUOTE`.
    pub fn display_name(&self) -> (r: String)
        ensures
            r@ == self.base_asset_symbol@ + "/"@ + self.quote_asset_symbol@,
    {
        let mut r = self.base_asset_symbol.clone();
        push_str(&mut r, "/");
        push_str(&mut r, self.quote_asset_symbol.as_str());
        r
    }
}


// ---------------------------------------------------------------------------
// API keys from environment variables
// ---------------------------------------------------------------------------

/// The pool symbol and key that one variable `name=value` configures for keys
/// ending in `suffix`: the name must end in the suffix, what precedes it must
/// be `BASE_QUOTE` (exactly one `_`), and the value must not be blank.
pub open spec fn pool_key_of_var(name: Seq<char>, value: Seq<char>, suffix: Seq<char>) -> Option<(Seq<char>, Seq<char>)> {
    if !ends_with_seq(name, suffix) {
        None
    } else {
        let prefix = name.take(name.len() - suffix.len());
        let p = first_pos(prefix, '_');
        if p < prefix.len() && !prefix.skip(p + 1).contains('_') && trim_seq(value).len() > 0 {
            Some((normalize_symbol_spec(prefix), value))
        } else {
            None
        }
    }
}

/// The keys that a list of variables configures, a later variable winning over
/// an earlier one for the same pool.
pub open spec fn discovered_keys(vars: Seq<(Seq<char>, Seq<char>)>, suffix: Seq<char>) -> Map<Seq<char>, Seq<char>>
    decreases vars.len(),
{
    if vars.len() == 0 {
        Map::empty()
    } else {
        let m = discovered_keys(vars.drop_last(), suffix);
        match pool_key_of_var(vars.last().0, vars.last().1, suffix) {
            Some((symbol, key)) => m.insert(symbol, key),
            None => m,
        }
    }
}

/// The pairs of a list of string pairs, as plain values.
pub open spec fn pair_views(v: Seq<(String, String)>) -> Seq<(Seq<char>, Seq<char>)> {
    v.map_values(|p: (String, String)| (p.0@, p.1@))
}

/// Every key occurs once.
pub open spec fn unique_keys(v: Seq<(Seq<char>, Seq<char>)>) -> bool {
    forall|i: int, j: int| 0 <= i < j < v.len() ==> v[i].0 != v[j].0
}

/// The map a list of unique keys stands for.
pub open spec fn pairs_map(v: Seq<(Seq<char>, Seq<char>)>) -> Map<Seq<char>, Seq<char>> {
    Map::new(
        |k: Seq<char>| exists|i: int| 0 <= i < v.len() && v[i].0 == k,
        |k: Seq<char>| v[choose|i: int| 0 <= i < v.len() && v[i].0 == k].1,
    )
}

pub proof fn lemma_pairs_map_at(v: Seq<(Seq<char>, Seq<char>)>, i: int)
    requires
        unique_keys(v),
        0 <= i < v.len(),
    ensures
        pairs_map(v).contains_key(v[i].0),
        pairs_map(v)[v[i].0] == v[i].1,
{
    let k = v[i].0;
    assert(exists|j: int| 0 <= j < v.len() && v[j].0 == k);
    let j = choose|j: int| 0 <= j < v.len() && v[j].0 == k;
    if j < i {
        assert(v[j].0 != v[i].0);
    } else if j > i {
        assert(v[i].0 != v[j].0);
    }
}

/// Whether a string ends in `suffix`, and the part before it.
fn split_suffix(name: &Vec<char>, suffix: &Vec<char>) -> (r: Option<Vec<char>>)
    ensures
        r is Some <==> ends_with_seq(name@, suffix@),
        r matches Some(p) ==> p@ == name@.take(name.len() - suffix.len()),
{
    if !ends_with_chars(name, suffix) {
        return None;
    }
    let n = name.len() - suffix.len();
    let mut p: Vec<char> = Vec::new();
    let mut i: usize = 0;
    while i < n
        invariant
            n <= name.len(),
            i <= n,
            p@ =~= name@.take(i as int),
        decreases n - i,
    {
        p.push(name[i]);
        i = i + 1;
    }
    Some(p)
}

/// The symbol and key one variable configures (see `pool_key_of_var`).
pub fn pool_key_from_var(name: &str, value: &str, suffix: &str) -> (r: Option<(String, String)>)
    ensures
        match r {
            Some(p) => pool_key_of_var(name@, value@, suffix@) == Some((p.0@, p.1@)),
            None => pool_key_of_var(name@, value@, suffix@) is None,
        },
{
    let n = chars_of(name);
    let sfx = chars_of(suffix);
    let prefix = match split_suffix(&n, &sfx) {
        None => return None,
        Some(p) => p,
    };
    let p = find_char(&prefix, '_');
    proof {
        lemma_first_pos_bounds(prefix@, '_');
    }
    if p == prefix.len() {
        return None;
    }
    let mut rest: Vec<char> = Vec::new();
    let mut i = p + 1;
    while i < prefix.len()
        invariant
            p + 1 <= i <= prefix.len(),
            rest@ =~= prefix@.subrange(p + 1, i as int),
        decreases prefix.len() - i,
    {
        rest.push(prefix[i]);
        i = i + 1;
    }
    assert(rest@ =~= prefix@.skip(p + 1));
    let q = find_char(&rest, '_');
    proof {
        lemma_first_pos_bounds(rest@, '_');
    }
    if q < rest.len() {
        return None;
    }
    let vv = chars_of(value);
    let trimmed = trim_chars(&vv);
    if trimmed.len() == 0 {
        return None;
    }
    let symbol_chars = replace_chars(&upper_chars(&trim_chars(&prefix)), '.', '_');
    Some((string_from_chars(&symbol_chars), value.to_owned()))
}

/// The API keys configured by environment variables whose names end in
/// `suffix` (such as `SUI_USDC_STREAM_API_KEY`), by normalized pool symbol; a
/// later variable wins over an earlier one for the same pool.
pub fn discover_pool_keys(vars: &Vec<(String, String)>, suffix: &str) -> (r: Vec<(String, String)>)
    ensures
        unique_keys(pair_views(r@)),
        pairs_map(pair_views(r@)) == discovered_keys(pair_views(vars@), suffix@),
{
    let mut keys: Vec<(String, String)> = Vec::new();
    let mut i: usize = 0;
    while i < vars.len()
        invariant
            i <= vars.len(),
            unique_keys(pair_views(keys@)),
            pairs_map(pair_views(keys@)) == discovered_keys(pair_views(vars@).take(i as int), suffix@),
        decreases vars.len() - i,
    {
        let ghost before = pair_views(keys@);
        proof {
            assert(pair_views(vars@).take(i + 1).drop_last() =~= pair_views(vars@).take(i as int));
            assert(pair_views(vars@).take(i + 1).last() == (vars@[i as int].0@, vars@[i as int].1@));
        }
        match pool_key_from_var(vars[i].0.as_str(), vars[i].1.as_str(), suffix) {
            None => {},
            Some(pair) => {
                let ghost sym = pair.0@;
                let mut j: usize = 0;
                let mut at: Option<usize> = None;
                while j < keys.len() && at.is_none()
                    invariant
                        j <= keys.len(),
                        at is None ==> forall|m: int| 0 <= m < j ==> (#[trigger] keys@[m]).0@ != sym,
                        at matches Some(k) ==> k < keys.len() && keys@[k as int].0@ == sym,
                        pair.0@ == sym,
                    decreases keys.len() - j + (if at is None { 1int } else { 0int }),
                {
                    if keys[j].0 == pair.0 {
                        at = Some(j);
                    } else {
                        j = j + 1;
                    }
                }
                match at {
                    Some(k) => {
                        proof {
                            lemma_pairs_map_at(before, k as int);
                        }
                        keys.set(k, pair);
                        proof {
                            let after = pair_views(keys@);
                            assert(after =~= before.update(k as int, (pair.0@, pair.1@)));
                            assert forall|a: int, b: int| 0 <= a < b < after.len() implies after[a].0 != after[b].0 by {
                                assert(after[a].0 == before[a].0);
                                assert(after[b].0 == before[b].0);
                            }
                            assert forall|key: Seq<char>| #[trigger] pairs_map(after).contains_key(key) <==> pairs_map(before).insert(sym, pair.1@).contains_key(key) by {
                                if pairs_map(before).contains_key(key) {
                                    let m = choose|m: int| 0 <= m < before.len() && before[m].0 == key;
                                    assert(after[m].0 == key);
                                }
                                if pairs_map(after).contains_key(key) {
                                    let m = choose|m: int| 0 <= m < after.len() && after[m].0 == key;
                                    assert(before[m].0 == key);
                                }
                            }
                            assert forall|key: Seq<char>| #[trigger] pairs_map(after).contains_key(key) implies pairs_map(after)[key] == pairs_map(before).insert(sym, pair.1@)[key] by {
                                let m = choose|m: int| 0 <= m < after.len() && after[m].0 == key;
                                lemma_pairs_map_at(after, m);
                                if m != k {
                                    lemma_pairs_map_at(before, m);
                                }
                            }
                            assert(pairs_map(after) =~= pairs_map(before).insert(sym, pair.1@));
                        }
                    },
                    None => {
                        keys.push(pair);
                        proof {
                            let after = pair_views(keys@);
                            assert(after =~= before.push((pair.0@, pair.1@)));
                            assert forall|a: int, b: int| 0 <= a < b < after.len() implies after[a].0 != after[b].0 by {
                                if b == before.len() {
                                    assert(keys@[a].0@ != sym);
                                }
                            }
                            assert forall|key: Seq<char>| #[trigger] pairs_map(after).contains_key(key) <==> pairs_map(before).insert(sym, pair.1@).contains_key(key) by {
                                if pairs_map(before).contains_key(key) {
                                    let m = choose|m: int| 0 <= m < before.len() && before[m].0 == key;
                                    assert(after[m].0 == key);
                                }
                                if key == sym {
                                    assert(after[before.len() as int].0 == key);
                                }
                                if pairs_map(after).contains_key(key) {
                                    let m = choose|m: int| 0 <= m < after.len() && after[m].0 == key;
                                    if m < before.len() {
                                        assert(before[m].0 == key);
                                    }
                                }
                            }
                            assert forall|key: Seq<char>| #[trigger] pairs_map(after).contains_key(key) implies pairs_map(after)[key] == pairs_map(before).insert(sym, pair.1@)[key] by {
                                let m = choose|m: int| 0 <= m < after.len() && after[m].0 == key;
                                lemma_pairs_map_at(after, m);
                                if m < before.len() {
                                    lemma_pairs_map_at(before, m);
                                }
                            }
                            assert(pairs_map(after) =~= pairs_map(before).insert(sym, pair.1@));
                        }
                    },
                }
            },
        }
        i = i + 1;
    }
    assert(pair_views(vars@).take(i as int) =~= pair_views(vars@));
    keys
}

} // verus!
