use vstd::prelude::*;

use crate::api::OhlcvCandle;
use crate::decimal::{
    checked_add, checked_mul, decimal_lt, decimal_product, decimal_rounded, decimal_sum, decimal_text, round_dp,
    to_text, Decimal,
};
use crate::json::{parse_u64, parse_u64_spec};
use crate::types::{Counter, Kline, KlineType};

verus! {

broadcast use vstd::seq_lib::group_seq_properties;

// ---------------------------------------------------------------------------
// Periods
// ---------------------------------------------------------------------------

/// Length in seconds of the bucket a trade of the given period falls into.
pub open spec fn interval_secs_spec(kline_type: KlineType) -> int {
    match kline_type {
        KlineType::PerMinute => 60,
        KlineType::PerFiveMinutes => 300,
        KlineType::PerFifteenMinutes => 900,
        KlineType::PerThirtyMinutes | KlineType::PerHour => 3600,
        _ => 86400,
    }
}

/// Start of the bucket that holds `timestamp`: the timestamp rounded down to a
/// multiple of the period's interval.
pub open spec fn bucket_start_spec(timestamp: int, kline_type: KlineType) -> int {
    timestamp - timestamp % interval_secs_spec(kline_type)
}

pub fn interval_secs(kline_type: KlineType) -> (r: i64)
    ensures
        r == interval_secs_spec(kline_type),
{
    match kline_type {
        KlineType::PerMinute => 60,
        KlineType::PerFiveMinutes => 300,
        KlineType::PerFifteenMinutes => 900,
        KlineType::PerThirtyMinutes | KlineType::PerHour => 3_600,
        KlineType::PerDay | KlineType::PerWeek | KlineType::PerMonth | KlineType::PerYear => 86_400,
    }
}

/// The timestamp of the bucket of the given period that holds `timestamp`.
pub fn bucket_start_timestamp(timestamp: i64, kline_type: KlineType) -> (r: i64)
    requires
        bucket_start_spec(timestamp as int, kline_type) >= i64::MIN,
    ensures
        r == bucket_start_spec(timestamp as int, kline_type),
{
    let interval = interval_secs(kline_type);
    let rem = timestamp.checked_rem_euclid(interval);
    match rem {
        Some(m) => timestamp - m,
        None => timestamp,
    }
}

/// The bucket holds the timestamp, starts on a multiple of the interval, and
/// a bucket start is its own bucket.
pub proof fn lemma_bucket_start(timestamp: int, kline_type: KlineType)
    ensures
        bucket_start_spec(timestamp, kline_type) <= timestamp,
        timestamp < bucket_start_spec(timestamp, kline_type) + interval_secs_spec(kline_type),
        bucket_start_spec(timestamp, kline_type) % interval_secs_spec(kline_type) == 0,
        bucket_start_spec(bucket_start_spec(timestamp, kline_type), kline_type) == bucket_start_spec(
            timestamp,
            kline_type,
        ),
{
    let i = interval_secs_spec(kline_type);
    let q = timestamp / i;
    let b = timestamp - timestamp % i;
    vstd::arithmetic::div_mod::lemma_fundamental_div_mod(timestamp, i);
    vstd::arithmetic::mul::lemma_mul_is_commutative(i, q);
    assert(b == q * i);
    vstd::arithmetic::div_mod::lemma_mod_multiples_basic(q, i);
    assert(b % i == 0);
}

/// The request interval name that the candlestick service knows a period by.
pub open spec fn timeframe_spec(kline_type: KlineType) -> Seq<char> {
    match kline_type {
        KlineType::PerMinute => "1m"@,
        KlineType::PerFiveMinutes => "5m"@,
        KlineType::PerFifteenMinutes => "15m"@,
        KlineType::PerThirtyMinutes | KlineType::PerHour => "1h"@,
        _ => "1d"@,
    }
}

pub fn timeframe(kline_type: KlineType) -> (r: &'static str)
    ensures
        r@ == timeframe_spec(kline_type),
{
    match kline_type {
        KlineType::PerMinute => "1m",
        KlineType::PerFiveMinutes => "5m",
        KlineType::PerFifteenMinutes => "15m",
        KlineType::PerThirtyMinutes => "1h",
        KlineType::PerHour => "1h",
        KlineType::PerDay => "1d",
        KlineType::PerWeek | KlineType::PerMonth | KlineType::PerYear => "1d",
    }
}

// ---------------------------------------------------------------------------
// Sequences of klines
// ---------------------------------------------------------------------------

/// Timestamps strictly increase along the sequence.
pub open spec fn strictly_sorted(s: Seq<Kline>) -> bool {
    forall|i: int, j: int| 0 <= i < j < s.len() ==> s[i].timestamp < s[j].timestamp
}

pub open spec fn all_wf(s: Seq<Kline>) -> bool {
    forall|i: int| 0 <= i < s.len() ==> (#[trigger] s[i]).wf()
}

/// The klines of a sequence, by timestamp.
pub open spec fn by_timestamp(s: Seq<Kline>) -> Map<i64, Kline> {
    Map::new(
        |t: i64| exists|i: int| 0 <= i < s.len() && s[i].timestamp == t,
        |t: i64| s[choose|i: int| 0 <= i < s.len() && s[i].timestamp == t],
    )
}

/// The klines of a sequence by timestamp, a later one winning over an earlier
/// one with the same timestamp.
pub open spec fn latest_by_timestamp(s: Seq<Kline>) -> Map<i64, Kline>
    decreases s.len(),
{
    if s.len() == 0 {
        Map::empty()
    } else {
        latest_by_timestamp(s.drop_last()).insert(s.last().timestamp, s.last())
    }
}

pub proof fn lemma_by_timestamp_index(s: Seq<Kline>, i: int)
    requires
        strictly_sorted(s),
        0 <= i < s.len(),
    ensures
        by_timestamp(s).contains_key(s[i].timestamp),
        by_timestamp(s)[s[i].timestamp] == s[i],
{
    let t = s[i].timestamp;
    assert(exists|j: int| 0 <= j < s.len() && s[j].timestamp == t);
    let j = choose|j: int| 0 <= j < s.len() && s[j].timestamp == t;
    if j < i {
        assert(s[j].timestamp < s[i].timestamp);
    } else if j > i {
        assert(s[i].timestamp < s[j].timestamp);
    }
}

/// Two strictly sorted sequences with the same klines by timestamp are equal.
pub proof fn lemma_sorted_determined(a: Seq<Kline>, b: Seq<Kline>)
    requires
        strictly_sorted(a),
        strictly_sorted(b),
        by_timestamp(a) == by_timestamp(b),
    ensures
        a == b,
    decreases a.len() + b.len(),
{
    if a.len() == 0 || b.len() == 0 {
        if a.len() > 0 {
            lemma_by_timestamp_index(a, 0);
            assert(by_timestamp(b).contains_key(a[0].timestamp));
        }
        if b.len() > 0 {
            lemma_by_timestamp_index(b, 0);
            assert(by_timestamp(a).contains_key(b[0].timestamp));
        }
        assert(a =~= b);
    } else {
        let la = a.last();
        let lb = b.last();
        lemma_by_timestamp_index(a, a.len() - 1);
        lemma_by_timestamp_index(b, b.len() - 1);
        assert(by_timestamp(b).contains_key(la.timestamp));
        assert(by_timestamp(a).contains_key(lb.timestamp));
        let ib = choose|j: int| 0 <= j < b.len() && b[j].timestamp == la.timestamp;
        let ia = choose|j: int| 0 <= j < a.len() && a[j].timestamp == lb.timestamp;
        assert(la.timestamp <= lb.timestamp) by {
            if ib < b.len() - 1 {
                assert(b[ib].timestamp < lb.timestamp);
            }
        }
        assert(lb.timestamp <= la.timestamp) by {
            if ia < a.len() - 1 {
                assert(a[ia].timestamp < la.timestamp);
            }
        }
        assert(la == lb);
        let a2 = a.drop_last();
        let b2 = b.drop_last();
        assert(by_timestamp(a2) =~= by_timestamp(a).remove(la.timestamp)) by {
            assert forall|t: i64| #[trigger] by_timestamp(a2).contains_key(t) <==> by_timestamp(a).remove(la.timestamp).contains_key(t) by {
                if by_timestamp(a2).contains_key(t) {
                    let k = choose|k: int| 0 <= k < a2.len() && a2[k].timestamp == t;
                    assert(a[k].timestamp == t);
                    assert(a[k].timestamp < la.timestamp);
                }
                if by_timestamp(a).remove(la.timestamp).contains_key(t) {
                    let k = choose|k: int| 0 <= k < a.len() && a[k].timestamp == t;
                    assert(k != a.len() - 1);
                    assert(a2[k].timestamp == t);
                }
            }
            assert forall|t: i64| #[trigger] by_timestamp(a2).contains_key(t) implies by_timestamp(a2)[t] == by_timestamp(a).remove(la.timestamp)[t] by {
                let k = choose|k: int| 0 <= k < a2.len() && a2[k].timestamp == t;
                lemma_by_timestamp_index(a2, k);
                lemma_by_timestamp_index(a, k);
            }
        }
        assert(by_timestamp(b2) =~= by_timestamp(b).remove(lb.timestamp)) by {
            assert forall|t: i64| #[trigger] by_timestamp(b2).contains_key(t) <==> by_timestamp(b).remove(lb.timestamp).contains_key(t) by {
                if by_timestamp(b2).contains_key(t) {
                    let k = choose|k: int| 0 <= k < b2.len() && b2[k].timestamp == t;
                    assert(b[k].timestamp == t);
                    assert(b[k].timestamp < lb.timestamp);
                }
                if by_timestamp(b).remove(lb.timestamp).contains_key(t) {
                    let k = choose|k: int| 0 <= k < b.len() && b[k].timestamp == t;
                    assert(k != b.len() - 1);
                    assert(b2[k].timestamp == t);
                }
            }
            assert forall|t: i64| #[trigger] by_timestamp(b2).contains_key(t) implies by_timestamp(b2)[t] == by_timestamp(b).remove(lb.timestamp)[t] by {
                let k = choose|k: int| 0 <= k < b2.len() && b2[k].timestamp == t;
                lemma_by_timestamp_index(b2, k);
                lemma_by_timestamp_index(b, k);
            }
        }
        lemma_sorted_determined(a2, b2);
        assert(a =~= a2.push(la));
        assert(b =~= b2.push(lb));
    }
}


/// Puts `k` into a strictly sorted sequence: in place of the kline with the
/// same timestamp, or at the place its timestamp belongs.
#[verifier::spinoff_prover]
#[verifier::rlimit(50)]
fn insert_sorted(v: &mut Vec<Kline>, k: Kline)
    requires
        strictly_sorted(old(v)@),
    ensures
        strictly_sorted(final(v)@),
        by_timestamp(final(v)@) == by_timestamp(old(v)@).insert(k.timestamp, k),
        forall|x: Kline| final(v)@.contains(x) ==> x == k || old(v)@.contains(x),
{
    let ghost before = v@;
    let mut p: usize = 0;
    while p < v.len() && v[p].timestamp < k.timestamp
        invariant
            p <= v.len(),
            v@ == before,
            forall|j: int| 0 <= j < p ==> (#[trigger] v@[j]).timestamp < k.timestamp,
        decreases v.len() - p,
    {
        p = p + 1;
    }
    if p < v.len() && v[p].timestamp == k.timestamp {
        v.set(p, k);
        proof {
            let after = v@;
            assert(after =~= before.update(p as int, k));
            assert forall|a: int, b: int| 0 <= a < b < after.len() implies after[a].timestamp < after[b].timestamp by {
                assert(before[a].timestamp < before[b].timestamp);
            }
            assert forall|t: i64| #[trigger] by_timestamp(after).contains_key(t) <==> by_timestamp(before).insert(k.timestamp, k).contains_key(t) by {
                if by_timestamp(before).contains_key(t) {
                    let j = choose|j: int| 0 <= j < before.len() && before[j].timestamp == t;
                    assert(after[j].timestamp == t);
                }
                if by_timestamp(after).contains_key(t) {
                    let j = choose|j: int| 0 <= j < after.len() && after[j].timestamp == t;
                    assert(before[j].timestamp == t);
                }
            }
            assert forall|t: i64| #[trigger] by_timestamp(after).contains_key(t) implies by_timestamp(after)[t] == by_timestamp(before).insert(k.timestamp, k)[t] by {
                let j = choose|j: int| 0 <= j < after.len() && after[j].timestamp == t;
                lemma_by_timestamp_index(after, j);
                if j != p {
                    lemma_by_timestamp_index(before, j);
                }
            }
            assert(by_timestamp(after) =~= by_timestamp(before).insert(k.timestamp, k));
            assert forall|x: Kline| after.contains(x) implies x == k || before.contains(x) by {
                let j = choose|j: int| 0 <= j < after.len() && after[j] == x;
                if j != p {
                    assert(before[j] == x);
                }
            }
        }
    } else {
        v.insert(p, k);
        proof {
            let after = v@;
            assert(after =~= before.insert(p as int, k));
            assert forall|a: int, b: int| 0 <= a < b < after.len() implies after[a].timestamp < after[b].timestamp by {
                if b < p {
                    assert(before[a].timestamp < before[b].timestamp);
                } else if b == p {
                } else if a < p {
                    assert(before[a].timestamp < k.timestamp);
                    assert(before[p as int].timestamp > k.timestamp);
                    if b - 1 > p {
                        assert(before[p as int].timestamp < before[b - 1].timestamp);
                    }
                } else if a == p {
                    assert(before[p as int].timestamp > k.timestamp);
                    if b - 1 > p {
                        assert(before[p as int].timestamp < before[b - 1].timestamp);
                    }
                } else {
                    assert(before[a - 1].timestamp < before[b - 1].timestamp);
                }
            }
            assert forall|t: i64| #[trigger] by_timestamp(after).contains_key(t) <==> by_timestamp(before).insert(k.timestamp, k).contains_key(t) by {
                if by_timestamp(before).contains_key(t) {
                    let j = choose|j: int| 0 <= j < before.len() && before[j].timestamp == t;
                    if j < p {
                        assert(after[j].timestamp == t);
                    } else {
                        assert(after[j + 1].timestamp == t);
                    }
                }
                if t == k.timestamp {
                    assert(after[p as int].timestamp == t);
                }
                if by_timestamp(after).contains_key(t) {
                    let j = choose|j: int| 0 <= j < after.len() && after[j].timestamp == t;
                    if j < p {
                        assert(before[j].timestamp == t);
                    } else if j > p {
                        assert(before[j - 1].timestamp == t);
                    }
                }
            }
            assert forall|t: i64| #[trigger] by_timestamp(after).contains_key(t) implies by_timestamp(after)[t] == by_timestamp(before).insert(k.timestamp, k)[t] by {
                let j = choose|j: int| 0 <= j < after.len() && after[j].timestamp == t;
                lemma_by_timestamp_index(after, j);
                if j < p {
                    lemma_by_timestamp_index(before, j);
                } else if j > p {
                    lemma_by_timestamp_index(before, j - 1);
                }
            }
            assert(by_timestamp(after) =~= by_timestamp(before).insert(k.timestamp, k));
            assert forall|x: Kline| after.contains(x) implies x == k || before.contains(x) by {
                let j = choose|j: int| 0 <= j < after.len() && after[j] == x;
                if j < p {
                    assert(before[j] == x);
                } else if j > p {
                    assert(before[j - 1] == x);
                }
            }
        }
    }
}

// ---------------------------------------------------------------------------
// The store of klines, by counter and period
// ---------------------------------------------------------------------------

/// The klines of one counter and one period, and whether the service has older
/// ones to give.
#[derive(Debug)]
pub struct KlineEntry {
    pub counter: Counter,
    pub kline_type: KlineType,
    pub has_more: bool,
    pub klines: Vec<Kline>,
}

/// A request for older klines that a page could not be filled from.
#[derive(Debug)]
pub struct KlineRequest {
    pub counter: Counter,
    pub kline_type: KlineType,
    pub before: i64,
    pub count: usize,
}

pub type StoreKey = (Seq<char>, KlineType);

pub open spec fn entry_key(e: KlineEntry) -> StoreKey {
    (e.counter@, e.kline_type)
}

pub open spec fn entry_value(e: KlineEntry) -> (bool, Seq<Kline>) {
    (e.has_more, e.klines@)
}

/// No key occurs twice.
pub open spec fn keys_unique(es: Seq<KlineEntry>) -> bool {
    forall|i: int, j: int| 0 <= i < j < es.len() ==> entry_key(es[i]) != entry_key(es[j])
}

/// The entries as a map from key to value.
pub open spec fn view_of(es: Seq<KlineEntry>) -> Map<StoreKey, (bool, Seq<Kline>)> {
    Map::new(
        |k: StoreKey| exists|i: int| 0 <= i < es.len() && entry_key(es[i]) == k,
        |k: StoreKey| entry_value(es[choose|i: int| 0 <= i < es.len() && entry_key(es[i]) == k]),
    )
}

pub proof fn lemma_view_of_at(es: Seq<KlineEntry>, i: int)
    requires
        keys_unique(es),
        0 <= i < es.len(),
    ensures
        view_of(es).contains_key(entry_key(es[i])),
        view_of(es)[entry_key(es[i])] == entry_value(es[i]),
{
    let k = entry_key(es[i]);
    assert(exists|j: int| 0 <= j < es.len() && entry_key(es[j]) == k);
    let j = choose|j: int| 0 <= j < es.len() && entry_key(es[j]) == k;
    if j < i {
        assert(entry_key(es[j]) != entry_key(es[i]));
    } else if j > i {
        assert(entry_key(es[i]) != entry_key(es[j]));
    }
}

pub proof fn lemma_view_of_update(es: Seq<KlineEntry>, i: int, e: KlineEntry)
    requires
        keys_unique(es),
        0 <= i < es.len(),
        entry_key(e) == entry_key(es[i]),
    ensures
        keys_unique(es.update(i, e)),
        view_of(es.update(i, e)) == view_of(es).insert(entry_key(e), entry_value(e)),
{
    let ns = es.update(i, e);
    assert forall|a: int, b: int| 0 <= a < b < ns.len() implies entry_key(ns[a]) != entry_key(ns[b]) by {
        assert(entry_key(ns[a]) == entry_key(es[a]));
        assert(entry_key(ns[b]) == entry_key(es[b]));
    }
    let m = view_of(es).insert(entry_key(e), entry_value(e));
    assert forall|k: StoreKey| #[trigger] view_of(ns).contains_key(k) <==> m.contains_key(k) by {
        if view_of(es).contains_key(k) {
            let j = choose|j: int| 0 <= j < es.len() && entry_key(es[j]) == k;
            assert(entry_key(ns[j]) == k);
        }
        if view_of(ns).contains_key(k) {
            let j = choose|j: int| 0 <= j < ns.len() && entry_key(ns[j]) == k;
            assert(entry_key(es[j]) == k);
        }
        if k == entry_key(e) {
            assert(entry_key(ns[i]) == k);
        }
    }
    assert forall|k: StoreKey| #[trigger] view_of(ns).contains_key(k) implies view_of(ns)[k] == m[k] by {
        let j = choose|j: int| 0 <= j < ns.len() && entry_key(ns[j]) == k;
        lemma_view_of_at(ns, j);
        if j != i {
            lemma_view_of_at(es, j);
        }
    }
    assert(view_of(ns) =~= m);
}

pub proof fn lemma_view_of_push(es: Seq<KlineEntry>, e: KlineEntry)
    requires
        keys_unique(es),
        !view_of(es).contains_key(entry_key(e)),
    ensures
        keys_unique(es.push(e)),
        view_of(es.push(e)) == view_of(es).insert(entry_key(e), entry_value(e)),
{
    let ns = es.push(e);
    assert forall|a: int, b: int| 0 <= a < b < ns.len() implies entry_key(ns[a]) != entry_key(ns[b]) by {
        if b == es.len() {
            if entry_key(ns[a]) == entry_key(ns[b]) {
                assert(entry_key(es[a]) == entry_key(e));
            }
        }
    }
    let m = view_of(es).insert(entry_key(e), entry_value(e));
    assert forall|k: StoreKey| #[trigger] view_of(ns).contains_key(k) <==> m.contains_key(k) by {
        if view_of(es).contains_key(k) {
            let j = choose|j: int| 0 <= j < es.len() && entry_key(es[j]) == k;
            assert(entry_key(ns[j]) == k);
        }
        if view_of(ns).contains_key(k) {
            let j = choose|j: int| 0 <= j < ns.len() && entry_key(ns[j]) == k;
            if j < es.len() {
                assert(entry_key(es[j]) == k);
            }
        }
        if k == entry_key(e) {
            assert(entry_key(ns[es.len() as int]) == k);
        }
    }
    assert forall|k: StoreKey| #[trigger] view_of(ns).contains_key(k) implies view_of(ns)[k] == m[k] by {
        let j = choose|j: int| 0 <= j < ns.len() && entry_key(ns[j]) == k;
        lemma_view_of_at(ns, j);
        if j < es.len() {
            lemma_view_of_at(es, j);
        }
    }
    assert(view_of(ns) =~= m);
}

/// Klines by counter and period.
#[derive(Debug)]
pub struct KlineStore {
    entries: Vec<KlineEntry>,
}

impl KlineStore {
    /// No key occurs twice; every sequence of klines is strictly sorted by
    /// timestamp and holds well-formed decimals.
    pub closed spec fn wf(&self) -> bool {
        &&& keys_unique(self.entries@)
        &&& forall|i: int|
            0 <= i < self.entries.len() ==> strictly_sorted(#[trigger] self.entries@[i].klines@)
                && all_wf(self.entries@[i].klines@)
    }

    /// The store as a map from (counter, period) to (has more, klines).
    pub closed spec fn view(&self) -> Map<StoreKey, (bool, Seq<Kline>)> {
        view_of(self.entries@)
    }

    /// In a well-formed store every list of candlesticks is in strictly
    /// increasing time order and each candlestick is well-formed.
    pub proof fn lemma_wf_view(&self)
        requires
            self.wf(),
        ensures
            forall|k: StoreKey|
                #[trigger] self@.contains_key(k) ==> strictly_sorted(self@[k].1) && all_wf(self@[k].1),
    {
        assert forall|k: StoreKey| #[trigger] self@.contains_key(k) implies strictly_sorted(self@[k].1) && all_wf(self@[k].1) by {
            let i = choose|i: int| 0 <= i < self.entries.len() && entry_key(self.entries@[i]) == k;
            assert(strictly_sorted(self.entries@[i].klines@));
        }
    }

    pub fn new() -> (r: Self)
        ensures
            r.wf(),
            r@ == Map::<StoreKey, (bool, Seq<Kline>)>::empty(),
    {
        let r = KlineStore { entries: Vec::new() };
        assert(r@ =~= Map::<StoreKey, (bool, Seq<Kline>)>::empty());
        r
    }

    pub fn clear(&mut self)
        ensures
            final(self).wf(),
            final(self)@ == Map::<StoreKey, (bool, Seq<Kline>)>::empty(),
    {
        self.entries = Vec::new();
        assert(self@ =~= Map::<StoreKey, (bool, Seq<Kline>)>::empty());
    }

    /// Index of the entry of a key.
    fn find(&self, counter: &Counter, kline_type: KlineType) -> (r: Option<usize>)
        requires
            self.wf(),
        ensures
            match r {
                Some(i) => i < self.entries.len() && entry_key(self.entries@[i as int]) == (counter@, kline_type),
                None => !self@.contains_key((counter@, kline_type)),
            },
    {
        let mut i: usize = 0;
        while i < self.entries.len()
            invariant
                i <= self.entries.len(),
                forall|j: int| 0 <= j < i ==> entry_key(#[trigger] self.entries@[j]) != (counter@, kline_type),
            decreases self.entries.len() - i,
        {
            if self.entries[i].kline_type == kline_type && self.entries[i].counter == *counter {
                return Some(i);
            }
            i = i + 1;
        }
        None
    }

    /// A copy of the klines of entry `i`.
    fn copy_klines(&self, i: usize) -> (r: Vec<Kline>)
        requires
            i < self.entries.len(),
        ensures
            r@ == self.entries@[i as int].klines@,
    {
        let mut r: Vec<Kline> = Vec::new();
        let mut j: usize = 0;
        while j < self.entries[i].klines.len()
            invariant
                i < self.entries.len(),
                j <= self.entries@[i as int].klines.len(),
                r@ =~= self.entries@[i as int].klines@.take(j as int),
            decreases self.entries@[i as int].klines.len() - j,
        {
            r.push(self.entries[i].klines[j]);
            j = j + 1;
        }
        r
    }
}

/// What a key held before, or nothing.
pub open spec fn klines_of(m: Map<StoreKey, (bool, Seq<Kline>)>, k: StoreKey) -> Seq<Kline> {
    if m.contains_key(k) {
        m[k].1
    } else {
        Seq::empty()
    }
}

/// The klines a page shows: counting pages back from the newest kline.
pub open spec fn page_of(ks: Seq<Kline>, page: int, page_size: int) -> Seq<Kline> {
    if ks.len() >= page * page_size {
        let offset = ks.len() - page * page_size;
        let start = if offset >= page_size {
            offset - page_size
        } else {
            0
        };
        ks.subrange(start, offset)
    } else {
        Seq::empty()
    }
}

impl KlineStore {
    /// Merges `data` into the klines of `(counter, kline_type)`: a kline takes
    /// the place of one with the same timestamp, the others are added, and the
    /// whole stays sorted by timestamp. `more` records whether older klines exist.
    pub fn update(&mut self, counter: Counter, kline_type: KlineType, data: Vec<Kline>, more: bool)
        requires
            old(self).wf(),
            all_wf(data@),
        ensures
            final(self).wf(),
            final(self)@.dom() == old(self)@.dom().insert((counter@, kline_type)),
            final(self)@.remove((counter@, kline_type)) == old(self)@.remove((counter@, kline_type)),
            final(self)@[(counter@, kline_type)].0 == more,
            strictly_sorted(final(self)@[(counter@, kline_type)].1),
            by_timestamp(final(self)@[(counter@, kline_type)].1) == by_timestamp(
                klines_of(old(self)@, (counter@, kline_type)),
            ).union_prefer_right(latest_by_timestamp(data@)),
    {
        let ghost key = (counter@, kline_type);
        let ghost prev = klines_of(self@, key);
        let found = self.find(&counter, kline_type);
        let mut ks: Vec<Kline> = match found {
            Some(i) => {
                proof {
                    lemma_view_of_at(self.entries@, i as int);
                }
                self.copy_klines(i)
            },
            None => Vec::new(),
        };
        assert(ks@ == prev);
        assert(strictly_sorted(ks@) && all_wf(ks@)) by {
            if found is Some {
                assert(strictly_sorted(self.entries@[found->0 as int].klines@));
            }
        }
        let mut i: usize = 0;
        while i < data.len()
            invariant
                i <= data.len(),
                strictly_sorted(ks@),
                all_wf(ks@),
                all_wf(data@),
                by_timestamp(ks@) == by_timestamp(prev).union_prefer_right(
                    latest_by_timestamp(data@.take(i as int)),
                ),
            decreases data.len() - i,
        {
            let k = data[i];
            let ghost before = ks@;
            insert_sorted(&mut ks, k);
            proof {
                assert(data@.take(i + 1).drop_last() =~= data@.take(i as int));
                assert(all_wf(ks@)) by {
                    assert forall|j: int| 0 <= j < ks@.len() implies (#[trigger] ks@[j]).wf() by {
                        assert(ks@.contains(ks@[j]));
                        if ks@[j] != k {
                            let m = choose|m: int| 0 <= m < before.len() && before[m] == ks@[j];
                        }
                    }
                }
                assert(by_timestamp(ks@) =~= by_timestamp(prev).union_prefer_right(
                    latest_by_timestamp(data@.take(i + 1)),
                ));
            }
            i = i + 1;
        }
        assert(data@.take(i as int) =~= data@);
        let e = KlineEntry { counter: counter.clone(), kline_type, has_more: more, klines: ks };
        match found {
            Some(idx) => {
                proof {
                    lemma_view_of_update(self.entries@, idx as int, e);
                }
                self.entries.set(idx, e);
            },
            None => {
                proof {
                    lemma_view_of_push(self.entries@, e);
                }
                self.entries.push(e);
            },
        }
        proof {
            assert(self@ == view_of(self.entries@));
            assert(self@.remove(key) =~= old(self)@.remove(key));
        }
    }

    /// The klines of page `page` (counted back from the newest), `page_size` to
    /// a page, and the request to make when the store does not hold them: all of
    /// them when the key is unknown, older ones when the page is short and the
    /// service has more.
    pub fn by_pagination(&self, counter: Counter, kline_type: KlineType, page: usize, page_size: usize) -> (r: (
        Vec<Kline>,
        Option<KlineRequest>,
    ))
        requires
            self.wf(),
            !self@.contains_key((counter@, kline_type)) ==> page < usize::MAX && (page + 1) * page_size
                <= usize::MAX,
            self@.contains_key((counter@, kline_type)) ==> page * page_size <= usize::MAX,
        ensures
            !self@.contains_key((counter@, kline_type)) ==> {
                &&& r.0@ == Seq::<Kline>::empty()
                &&& r.1 matches Some(q) && q.counter@ == counter@ && q.kline_type == kline_type
                    && q.before == 0 && q.count == (page + 1) * page_size
            },
            self@.contains_key((counter@, kline_type)) ==> {
                let (more, ks) = self@[(counter@, kline_type)];
                let shown = page_of(ks, page as int, page_size as int);
                &&& r.0@ == shown
                &&& (r.1 is Some <==> more && shown.len() < page_size)
                &&& r.1 matches Some(q) ==> q.counter@ == counter@ && q.kline_type == kline_type
                    && q.before == (if ks.len() > 0 {
                    ks[0].timestamp
                } else {
                    0
                }) && q.count == page_size
            },
    {
        let found = self.find(&counter, kline_type);
        let i = match found {
            None => {
                let count = (page + 1) * page_size;
                return (Vec::new(), Some(KlineRequest { counter, kline_type, before: 0, count }));
            },
            Some(i) => i,
        };
        proof {
            lemma_view_of_at(self.entries@, i as int);
        }
        let entry = &self.entries[i];
        let ghost ks = entry.klines@;
        let skipped = page * page_size;
        let mut results: Vec<Kline> = Vec::new();
        if entry.klines.len() >= skipped {
            let offset = entry.klines.len() - skipped;
            let start = if offset >= page_size {
                offset - page_size
            } else {
                0
            };
            let mut j = start;
            while j < offset
                invariant
                    start <= j <= offset <= ks.len(),
                    entry.klines@ == ks,
                    results@ =~= ks.subrange(start as int, j as int),
                decreases offset - j,
            {
                results.push(entry.klines[j]);
                j = j + 1;
            }
        }
        assert(results@ =~= page_of(ks, page as int, page_size as int));
        let request = if entry.has_more && results.len() < page_size {
            let before = if entry.klines.len() > 0 {
                entry.klines[0].timestamp
            } else {
                0
            };
            Some(KlineRequest { counter, kline_type, before, count: page_size })
        } else {
            None
        };
        (results, request)
    }
}

// ---------------------------------------------------------------------------
// Folding a trade into the klines
// ---------------------------------------------------------------------------

pub open spec fn saturating_add_spec(a: u64, b: int) -> u64 {
    if a + b > u64::MAX {
        u64::MAX
    } else {
        (a + b) as u64
    }
}

pub open spec fn abs_int(v: int) -> int {
    if v < 0 {
        -v
    } else {
        v
    }
}

/// The raw base quantity of a trade in base-asset units: the raw value with
/// `base_decimals` fractional digits, without its sign.
pub open spec fn normalized_volume(volume_raw: i64, base_decimals: u32) -> Decimal {
    Decimal { mantissa: volume_raw as i128, scale: base_decimals, negative: volume_raw < 0 }.abs_spec()
}

/// A kline after one trade at `price` of `volume_raw`: an empty (zero) open,
/// high or low takes the price, the high and low widen to it, it closes the
/// kline, and volume, turnover and trade count grow. `None` where the turnover
/// overflows a decimal.
pub open spec fn kline_after_trade(k: Kline, price: Decimal, volume_raw: i64, base_decimals: u32) -> Option<Kline> {
    match decimal_product(price, normalized_volume(volume_raw, base_decimals)) {
        None => None,
        Some(q) => match decimal_sum(k.balance, q.abs_spec()) {
            None => None,
            Some(b) => Some(
                Kline {
                    timestamp: k.timestamp,
                    open: if k.open.mantissa == 0 {
                        price
                    } else {
                        k.open
                    },
                    high: if k.high.mantissa == 0 || price.scaled() > k.high.scaled() {
                        price
                    } else {
                        k.high
                    },
                    low: if k.low.mantissa == 0 || price.scaled() < k.low.scaled() {
                        price
                    } else {
                        k.low
                    },
                    close: price,
                    amount: saturating_add_spec(k.amount, abs_int(volume_raw as int)),
                    balance: b,
                    total: saturating_add_spec(k.total, 1),
                },
            ),
        },
    }
}

/// The kline a trade opens for a bucket that has none yet.
pub open spec fn fresh_kline(bucket: i64, price: Decimal) -> Kline {
    Kline {
        timestamp: bucket,
        open: price,
        high: price,
        low: price,
        close: price,
        amount: 0,
        balance: Decimal { mantissa: 0, scale: 0, negative: false },
        total: 0,
    }
}

/// The klines of one period after a trade in `bucket`: the bucket's kline takes
/// the trade; a bucket newer than every kline gets a new one; a trade older than
/// the newest kline and without its bucket changes nothing. `None` where the
/// turnover overflows.
pub open spec fn traded_klines(ks: Seq<Kline>, bucket: i64, price: Decimal, volume_raw: i64, base_decimals: u32) -> Option<Seq<Kline>> {
    if exists|i: int| 0 <= i < ks.len() && ks[i].timestamp == bucket {
        let i = choose|i: int| 0 <= i < ks.len() && ks[i].timestamp == bucket;
        match kline_after_trade(ks[i], price, volume_raw, base_decimals) {
            Some(k) => Some(ks.update(i, k)),
            None => None,
        }
    } else if ks.len() == 0 || ks.last().timestamp < bucket {
        match kline_after_trade(fresh_kline(bucket, price), price, volume_raw, base_decimals) {
            Some(k) => Some(ks.push(k)),
            None => None,
        }
    } else {
        Some(ks)
    }
}

/// A trade closes its kline at the trade's price and keeps the price inside
/// the kline's range: the low becomes the lesser of the old low (where one is
/// set) and the price, the high the greater; the open, once set, stays; the
/// time stays; the trade count grows by one (short of the largest count).
pub proof fn lemma_trade_in_range(k: Kline, price: Decimal, volume_raw: i64, base_decimals: u32)
    ensures
        kline_after_trade(k, price, volume_raw, base_decimals) matches Some(r) ==> {
            &&& r.close == price
            &&& r.low.scaled() <= price.scaled() <= r.high.scaled()
            &&& r.low.scaled() <= r.close.scaled() <= r.high.scaled()
            &&& k.low.mantissa != 0 ==> r.low.scaled() <= k.low.scaled()
                && (r.low.scaled() == k.low.scaled() || r.low.scaled() == price.scaled())
            &&& k.high.mantissa != 0 ==> r.high.scaled() >= k.high.scaled()
                && (r.high.scaled() == k.high.scaled() || r.high.scaled() == price.scaled())
            &&& k.low.mantissa == 0 ==> r.low == price
            &&& k.high.mantissa == 0 ==> r.high == price
            &&& k.open.mantissa != 0 ==> r.open == k.open
            &&& k.open.mantissa == 0 ==> r.open == price
            &&& r.timestamp == k.timestamp
            &&& k.total < u64::MAX ==> r.total == k.total + 1
            &&& k.amount + abs_int(volume_raw as int) <= u64::MAX ==> r.amount == k.amount + abs_int(
                volume_raw as int,
            )
            &&& r.amount >= k.amount
        },
{
}

/// A trade of one pool leaves the klines of every other pool as they were,
/// and keeps whether more history is to be had.
pub proof fn lemma_trade_other_pools(
    key: StoreKey,
    value: (bool, Seq<Kline>),
    counter: Seq<char>,
    timestamp: i64,
    price: Decimal,
    volume_raw: i64,
    base_decimals: u32,
)
    ensures
        key.0 != counter ==> traded_value(key, value, counter, timestamp, price, volume_raw, base_decimals) == value,
        traded_value(key, value, counter, timestamp, price, volume_raw, base_decimals).0 == value.0,
{
}

/// After a trade in `bucket`, where the klines have that bucket or the bucket
/// is newer than all of them, the kline of that bucket closes at the trade's
/// price, its range holds the price, and no other kline changes.
pub proof fn lemma_trade_reaches_bucket(ks: Seq<Kline>, bucket: i64, price: Decimal, volume_raw: i64, base_decimals: u32)
    requires
        (exists|i: int| 0 <= i < ks.len() && ks[i].timestamp == bucket) || ks.len() == 0 || ks.last().timestamp
            < bucket,
    ensures
        traded_klines(ks, bucket, price, volume_raw, base_decimals) matches Some(rs) ==> exists|j: int|
            {
                &&& 0 <= j < rs.len()
                &&& rs[j].timestamp == bucket
                &&& rs[j].close == price
                &&& rs[j].low.scaled() <= price.scaled() <= rs[j].high.scaled()
                &&& forall|i: int| 0 <= i < rs.len() && i != j ==> i < ks.len() && #[trigger] rs[i] == ks[i]
            },
{
    if let Some(rs) = traded_klines(ks, bucket, price, volume_raw, base_decimals) {
        if exists|i: int| 0 <= i < ks.len() && ks[i].timestamp == bucket {
            let i = choose|i: int| 0 <= i < ks.len() && ks[i].timestamp == bucket;
            lemma_trade_in_range(ks[i], price, volume_raw, base_decimals);
            assert(rs[i].timestamp == bucket);
        } else {
            let f = fresh_kline(bucket, price);
            lemma_trade_in_range(f, price, volume_raw, base_decimals);
            let j = ks.len() as int;
            assert(rs[j].timestamp == bucket);
        }
    }
}

/// Folds one trade into a kline (the trade's turnover must not overflow).
fn apply_trade_to_kline(kline: &mut Kline, price: Decimal, volume_raw: i64, base_decimals: u32)
    requires
        old(kline).wf(),
        price.wf(),
        base_decimals <= 28,
        kline_after_trade(*old(kline), price, volume_raw, base_decimals) is Some,
    ensures
        Some(*final(kline)) == kline_after_trade(*old(kline), price, volume_raw, base_decimals),
        final(kline).wf(),
{
    if kline.open.is_zero() {
        kline.open = price;
    }
    if kline.high.is_zero() || decimal_lt(&kline.high, &price) {
        kline.high = price;
    }
    if kline.low.is_zero() || decimal_lt(&price, &kline.low) {
        kline.low = price;
    }
    kline.close = price;
    let volume_u64: u64 = if volume_raw < 0 {
        (0i128 - volume_raw as i128) as u64
    } else {
        volume_raw as u64
    };
    kline.amount = kline.amount.saturating_add(volume_u64);
    let normalized = Decimal::from_i128_with_scale(volume_raw as i128, base_decimals).abs();
    let product = checked_mul(&price, &normalized);
    let quote_volume = match product {
        Some(q) => q.abs(),
        None => {
            return;
        },
    };
    match checked_add(&kline.balance, &quote_volume) {
        Some(b) => {
            kline.balance = b;
        },
        None => {
            return;
        },
    }
    kline.total = kline.total.saturating_add(1);
}

/// What the store holds for an entry after a trade of `counter`.
pub open spec fn traded_value(
    key: StoreKey,
    value: (bool, Seq<Kline>),
    counter: Seq<char>,
    timestamp: i64,
    price: Decimal,
    volume_raw: i64,
    base_decimals: u32,
) -> (bool, Seq<Kline>) {
    if key.0 == counter {
        (
            value.0,
            traded_klines(
                value.1,
                bucket_start_spec(timestamp as int, key.1) as i64,
                price,
                volume_raw,
                base_decimals,
            ).unwrap(),
        )
    } else {
        value
    }
}

/// Every bucket of the trade's timestamp is an `i64`, and the trade's turnover
/// fits every kline of the counter that it goes into.
pub open spec fn trade_fits(
    m: Map<StoreKey, (bool, Seq<Kline>)>,
    counter: Seq<char>,
    timestamp: i64,
    price: Decimal,
    volume_raw: i64,
    base_decimals: u32,
) -> bool {
    &&& forall|kt: KlineType| bucket_start_spec(timestamp as int, kt) >= i64::MIN
    &&& forall|key: StoreKey|
        #[trigger] m.contains_key(key) && key.0 == counter ==> traded_klines(
            m[key].1,
            bucket_start_spec(timestamp as int, key.1) as i64,
            price,
            volume_raw,
            base_decimals,
        ) is Some
}


/// The klines of one period after a trade in `bucket` (see `traded_klines`).
fn trade_into(ks: &Vec<Kline>, bucket: i64, price: Decimal, volume_raw: i64, base_decimals: u32) -> (r: Vec<Kline>)
    requires
        strictly_sorted(ks@),
        all_wf(ks@),
        price.wf(),
        base_decimals <= 28,
        traded_klines(ks@, bucket, price, volume_raw, base_decimals) is Some,
    ensures
        Some(r@) == traded_klines(ks@, bucket, price, volume_raw, base_decimals),
        strictly_sorted(r@),
        all_wf(r@),
{
    let mut out: Vec<Kline> = Vec::new();
    let mut p: usize = 0;
    let mut found = false;
    while !found && p < ks.len()
        invariant
            p <= ks.len(),
            !found ==> forall|j: int| 0 <= j < p ==> (#[trigger] ks@[j]).timestamp != bucket,
            found ==> p < ks.len() && ks@[p as int].timestamp == bucket,
        decreases ks.len() - p + (if found { 0int } else { 1int }),
    {
        if ks[p].timestamp == bucket {
            found = true;
        } else {
            p = p + 1;
        }
    }
    let mut j: usize = 0;
    while j < ks.len()
        invariant
            j <= ks.len(),
            out@ =~= ks@.take(j as int),
        decreases ks.len() - j,
    {
        out.push(ks[j]);
        j = j + 1;
    }
    assert(out@ =~= ks@);
    if found {
        proof {
            let i = choose|i: int| 0 <= i < ks@.len() && ks@[i].timestamp == bucket;
            if i < p {
                assert(ks@[i].timestamp < ks@[p as int].timestamp);
            } else if i > p {
                assert(ks@[p as int].timestamp < ks@[i].timestamp);
            }
        }
        let mut k = ks[p];
        apply_trade_to_kline(&mut k, price, volume_raw, base_decimals);
        out.set(p, k);
        assert(out@ == ks@.update(p as int, k));
        assert forall|a: int, b: int| 0 <= a < b < out@.len() implies out@[a].timestamp < out@[b].timestamp by {
            assert(ks@[a].timestamp < ks@[b].timestamp);
        }
        assert forall|a: int| 0 <= a < out@.len() implies (#[trigger] out@[a]).wf() by {
            if a != p {
                assert(ks@[a].wf());
            }
        }
    } else {
        assert(p == ks.len());
        assert forall|i: int| 0 <= i < ks@.len() implies ks@[i].timestamp != bucket by {
            assert(ks@[i].timestamp != bucket);
        }
        let n = ks.len();
        if n == 0 || ks[n - 1].timestamp < bucket {
            let mut k = Kline {
                timestamp: bucket,
                open: price,
                high: price,
                low: price,
                close: price,
                amount: 0,
                balance: Decimal::zero(),
                total: 0,
            };
            assert(k == fresh_kline(bucket, price));
            apply_trade_to_kline(&mut k, price, volume_raw, base_decimals);
            out.push(k);
            assert forall|a: int, b: int| 0 <= a < b < out@.len() implies out@[a].timestamp < out@[b].timestamp by {
                if b < n {
                    assert(ks@[a].timestamp < ks@[b].timestamp);
                } else if a < n - 1 {
                    assert(ks@[a].timestamp < ks@[n - 1].timestamp);
                }
            }
            assert forall|a: int| 0 <= a < out@.len() implies (#[trigger] out@[a]).wf() by {
                if a < n {
                    assert(ks@[a].wf());
                }
            }
        }
    }
    out
}

pub proof fn lemma_view_of_pointwise(
    old_es: Seq<KlineEntry>,
    new_es: Seq<KlineEntry>,
    f: spec_fn(StoreKey, (bool, Seq<Kline>)) -> (bool, Seq<Kline>),
)
    requires
        keys_unique(old_es),
        new_es.len() == old_es.len(),
        forall|j: int| 0 <= j < old_es.len() ==> entry_key(#[trigger] new_es[j]) == entry_key(old_es[j]),
        forall|j: int|
            0 <= j < old_es.len() ==> entry_value(#[trigger] new_es[j]) == f(
                entry_key(old_es[j]),
                entry_value(old_es[j]),
            ),
    ensures
        keys_unique(new_es),
        view_of(new_es) == Map::new(
            |k: StoreKey| view_of(old_es).contains_key(k),
            |k: StoreKey| f(k, view_of(old_es)[k]),
        ),
{
    assert forall|a: int, b: int| 0 <= a < b < new_es.len() implies entry_key(new_es[a]) != entry_key(new_es[b]) by {
        assert(entry_key(new_es[a]) == entry_key(old_es[a]));
        assert(entry_key(new_es[b]) == entry_key(old_es[b]));
    }
    let m = Map::new(
        |k: StoreKey| view_of(old_es).contains_key(k),
        |k: StoreKey| f(k, view_of(old_es)[k]),
    );
    assert forall|k: StoreKey| #[trigger] view_of(new_es).contains_key(k) <==> m.contains_key(k) by {
        if view_of(old_es).contains_key(k) {
            let j = choose|j: int| 0 <= j < old_es.len() && entry_key(old_es[j]) == k;
            assert(entry_key(new_es[j]) == k);
        }
        if view_of(new_es).contains_key(k) {
            let j = choose|j: int| 0 <= j < new_es.len() && entry_key(new_es[j]) == k;
            assert(entry_key(old_es[j]) == k);
        }
    }
    assert forall|k: StoreKey| #[trigger] view_of(new_es).contains_key(k) implies view_of(new_es)[k] == m[k] by {
        let j = choose|j: int| 0 <= j < new_es.len() && entry_key(new_es[j]) == k;
        lemma_view_of_at(new_es, j);
        lemma_view_of_at(old_es, j);
    }
    assert(view_of(new_es) =~= m);
}

impl KlineStore {
    /// Folds a trade of `counter` into the klines of every period held for it.
    /// A trade without volume changes nothing.
    pub fn apply_trade(&mut self, counter: &Counter, timestamp: i64, price: Decimal, volume_raw: i64, base_decimals: u32)
        requires
            old(self).wf(),
            price.wf(),
            volume_raw != 0 ==> base_decimals <= 28,
            volume_raw != 0 ==> trade_fits(old(self)@, counter@, timestamp, price, volume_raw, base_decimals),
        ensures
            final(self).wf(),
            volume_raw == 0 ==> final(self)@ == old(self)@,
            volume_raw != 0 ==> final(self)@ == Map::new(
                |k: StoreKey| old(self)@.contains_key(k),
                |k: StoreKey| traded_value(k, old(self)@[k], counter@, timestamp, price, volume_raw, base_decimals),
            ),
    {
        if volume_raw == 0 {
            return;
        }
        let ghost old_es = self.entries@;
        let ghost f = |k: StoreKey, v: (bool, Seq<Kline>)| traded_value(k, v, counter@, timestamp, price, volume_raw, base_decimals);
        let mut i: usize = 0;
        while i < self.entries.len()
            invariant
                i <= self.entries.len(),
                self.entries.len() == old_es.len(),
                keys_unique(old_es),
                old_es == old(self).entries@,
                old(self).wf(),
                price.wf(),
                base_decimals <= 28,
                trade_fits(old(self)@, counter@, timestamp, price, volume_raw, base_decimals),
                forall|j: int| 0 <= j < old_es.len() ==> entry_key(#[trigger] self.entries@[j]) == entry_key(old_es[j]),
                forall|j: int| 0 <= j < i ==> entry_value(#[trigger] self.entries@[j]) == traded_value(entry_key(old_es[j]), entry_value(old_es[j]), counter@, timestamp, price, volume_raw, base_decimals),
                forall|j: int| i <= j < old_es.len() ==> #[trigger] self.entries@[j] == old_es[j],
                forall|j: int|
                    0 <= j < self.entries.len() ==> strictly_sorted(#[trigger] self.entries@[j].klines@)
                        && all_wf(self.entries@[j].klines@),
            decreases old_es.len() - i,
        {
            if self.entries[i].counter == *counter {
                let kt = self.entries[i].kline_type;
                proof {
                    lemma_view_of_at(old_es, i as int);
                    assert(old(self)@.contains_key(entry_key(old_es[i as int])));
                }
                let bucket = bucket_start_timestamp(timestamp, kt);
                let ks = trade_into(&self.entries[i].klines, bucket, price, volume_raw, base_decimals);
                let e = KlineEntry {
                    counter: self.entries[i].counter.clone(),
                    kline_type: kt,
                    has_more: self.entries[i].has_more,
                    klines: ks,
                };
                self.entries.set(i, e);
                assert(entry_value(self.entries@[i as int]) == traded_value(entry_key(old_es[i as int]), entry_value(old_es[i as int]), counter@, timestamp, price, volume_raw, base_decimals));
            } else {
                assert(self.entries@[i as int] == old_es[i as int]);
                assert(entry_value(self.entries@[i as int]) == traded_value(entry_key(old_es[i as int]), entry_value(old_es[i as int]), counter@, timestamp, price, volume_raw, base_decimals));
            }
            i = i + 1;
        }
        proof {
            assert forall|j: int| 0 <= j < old_es.len() implies entry_value(#[trigger] self.entries@[j]) == f(entry_key(old_es[j]), entry_value(old_es[j])) by {
                assert(entry_value(self.entries@[j]) == traded_value(entry_key(old_es[j]), entry_value(old_es[j]), counter@, timestamp, price, volume_raw, base_decimals));
            }
            lemma_view_of_pointwise(old_es, self.entries@, f);
            assert(self@ =~= Map::new(
                |k: StoreKey| old(self)@.contains_key(k),
                |k: StoreKey| traded_value(k, old(self)@[k], counter@, timestamp, price, volume_raw, base_decimals),
            ));
        }
    }

    /// Folds the trade in, as `apply_trade` does, where its turnover fits every
    /// kline it goes into; otherwise leaves the store unchanged. Says which.
    pub fn try_apply_trade(&mut self, counter: &Counter, timestamp: i64, price: Decimal, volume_raw: i64, base_decimals: u32) -> (applied: bool)
        requires
            old(self).wf(),
            price.wf(),
            volume_raw != 0 ==> base_decimals <= 28,
            forall|kt: KlineType| bucket_start_spec(timestamp as int, kt) >= i64::MIN,
        ensures
            final(self).wf(),
            applied == (volume_raw == 0 || trade_fits(old(self)@, counter@, timestamp, price, volume_raw, base_decimals)),
            !applied ==> final(self)@ == old(self)@,
            applied && volume_raw == 0 ==> final(self)@ == old(self)@,
            applied && volume_raw != 0 ==> final(self)@ == Map::new(
                |k: StoreKey| old(self)@.contains_key(k),
                |k: StoreKey| traded_value(k, old(self)@[k], counter@, timestamp, price, volume_raw, base_decimals),
            ),
    {
        if volume_raw == 0 {
            return true;
        }
        let mut i: usize = 0;
        while i < self.entries.len()
            invariant
                i <= self.entries.len(),
                self.wf(),
                price.wf(),
                base_decimals <= 28,
                forall|kt: KlineType| bucket_start_spec(timestamp as int, kt) >= i64::MIN,
                self.entries@ == old(self).entries@,
                volume_raw != 0,
                forall|j: int|
                    0 <= j < i ==> (#[trigger] self.entries@[j]).counter@ == counter@ ==> traded_klines(
                        self.entries@[j].klines@,
                        bucket_start_spec(timestamp as int, self.entries@[j].kline_type) as i64,
                        price,
                        volume_raw,
                        base_decimals,
                    ) is Some,
            decreases self.entries.len() - i,
        {
            if self.entries[i].counter == *counter {
                let bucket = bucket_start_timestamp(timestamp, self.entries[i].kline_type);
                if !trade_possible(&self.entries[i].klines, bucket, price, volume_raw, base_decimals) {
                    proof {
                        lemma_view_of_at(self.entries@, i as int);
                        let key = entry_key(self.entries@[i as int]);
                        assert(self@.contains_key(key));
                        assert(!trade_fits(self@, counter@, timestamp, price, volume_raw, base_decimals));
                        assert(self@ == old(self)@);
                    }
                    return false;
                }
            }
            i = i + 1;
        }
        proof {
            assert forall|key: StoreKey| #[trigger] self@.contains_key(key) && key.0 == counter@ implies traded_klines(
                self@[key].1,
                bucket_start_spec(timestamp as int, key.1) as i64,
                price,
                volume_raw,
                base_decimals,
            ) is Some by {
                let j = choose|j: int| 0 <= j < self.entries.len() && entry_key(self.entries@[j]) == key;
                lemma_view_of_at(self.entries@, j);
            }
        }
        self.apply_trade(counter, timestamp, price, volume_raw, base_decimals);
        true
    }
}

/// Whether a trade's turnover fits the kline it goes into.
fn kline_trade_possible(k: &Kline, price: Decimal, volume_raw: i64, base_decimals: u32) -> (r: bool)
    requires
        k.wf(),
        price.wf(),
        base_decimals <= 28,
    ensures
        r == kline_after_trade(*k, price, volume_raw, base_decimals) is Some,
{
    let normalized = Decimal::from_i128_with_scale(volume_raw as i128, base_decimals).abs();
    match checked_mul(&price, &normalized) {
        None => false,
        Some(q) => {
            let a = q.abs();
            checked_add(&k.balance, &a).is_some()
        },
    }
}

/// Whether `traded_klines` gives a result.
fn trade_possible(ks: &Vec<Kline>, bucket: i64, price: Decimal, volume_raw: i64, base_decimals: u32) -> (r: bool)
    requires
        strictly_sorted(ks@),
        all_wf(ks@),
        price.wf(),
        base_decimals <= 28,
    ensures
        r == traded_klines(ks@, bucket, price, volume_raw, base_decimals) is Some,
{
    let mut p: usize = 0;
    let mut found = false;
    while !found && p < ks.len()
        invariant
            p <= ks.len(),
            !found ==> forall|j: int| 0 <= j < p ==> (#[trigger] ks@[j]).timestamp != bucket,
            found ==> p < ks.len() && ks@[p as int].timestamp == bucket,
        decreases ks.len() - p + (if found { 0int } else { 1int }),
    {
        if ks[p].timestamp == bucket {
            found = true;
        } else {
            p = p + 1;
        }
    }
    if found {
        proof {
            let i = choose|i: int| 0 <= i < ks@.len() && ks@[i].timestamp == bucket;
            if i < p {
                assert(ks@[i].timestamp < ks@[p as int].timestamp);
            } else if i > p {
                assert(ks@[p as int].timestamp < ks@[i].timestamp);
            }
            assert(ks@[p as int].wf());
        }
        kline_trade_possible(&ks[p], price, volume_raw, base_decimals)
    } else {
        assert forall|i: int| 0 <= i < ks@.len() implies ks@[i].timestamp != bucket by {
            assert(ks@[i].timestamp != bucket);
        }
        let n = ks.len();
        if n == 0 || ks[n - 1].timestamp < bucket {
            let k = Kline {
                timestamp: bucket,
                open: price,
                high: price,
                low: price,
                close: price,
                amount: 0,
                balance: Decimal::zero(),
                total: 0,
            };
            assert(k == fresh_kline(bucket, price));
            kline_trade_possible(&k, price, volume_raw, base_decimals)
        } else {
            true
        }
    }
}

/// Merging the same klines a second time changes nothing: where `b` is `a`
/// merged with `d` and `c` is `b` merged with `d`, both sorted as `update`
/// leaves them, `c` is `b`.
pub proof fn lemma_update_idempotent(a: Seq<Kline>, b: Seq<Kline>, c: Seq<Kline>, d: Seq<Kline>)
    requires
        strictly_sorted(b),
        strictly_sorted(c),
        by_timestamp(b) == by_timestamp(a).union_prefer_right(latest_by_timestamp(d)),
        by_timestamp(c) == by_timestamp(b).union_prefer_right(latest_by_timestamp(d)),
    ensures
        c == b,
{
    let m = by_timestamp(a);
    let l = latest_by_timestamp(d);
    assert(m.union_prefer_right(l).union_prefer_right(l) =~= m.union_prefer_right(l));
    lemma_sorted_determined(c, b);
}

// ---------------------------------------------------------------------------
// Candlesticks fetched from the service
// ---------------------------------------------------------------------------

/// The most candlesticks asked for at once.
pub open spec fn max_request() -> int {
    100
}

/// How many candlesticks to ask for: the count wanted, at most a hundred.
pub fn request_limit(count: usize) -> (r: usize)
    ensures
        r == if count < max_request() { count as int } else { max_request() },
{
    if count < 100 {
        count
    } else {
        100
    }
}

/// The whole base volume of a candlestick: rounded to a whole number and read
/// back as a `u64`, zero where it does not read.
pub open spec fn candle_amount(v: Decimal) -> u64 {
    match parse_u64_spec(decimal_text(decimal_rounded(v, 0))) {
        Some(u) => u,
        None => 0,
    }
}

/// Every decimal of the candlestick is well formed.
pub open spec fn candle_wf(c: OhlcvCandle) -> bool {
    c.open.wf() && c.high.wf() && c.low.wf() && c.close.wf() && c.volume_base.wf() && c.volume_quote.wf()
}

/// Whether `k` is the kline of the candlestick `c`.
pub open spec fn is_kline_of(k: Kline, c: OhlcvCandle) -> bool {
    &&& k.timestamp == c.timestamp
    &&& k.open == c.open
    &&& k.high == c.high
    &&& k.low == c.low
    &&& k.close == c.close
    &&& k.amount == candle_amount(c.volume_base)
    &&& k.balance == c.volume_quote
    &&& k.total == c.trade_count
}

/// The kline of a candlestick.
pub fn kline_from_candle(c: &OhlcvCandle) -> (r: Kline)
    requires
        candle_wf(*c),
    ensures
        is_kline_of(r, *c),
        r.wf(),
{
    let rounded = round_dp(&c.volume_base, 0);
    let text = to_text(&rounded);
    let amount = match parse_u64(text.as_str()) {
        Some(u) => u,
        None => 0,
    };
    Kline {
        timestamp: c.timestamp,
        open: c.open,
        high: c.high,
        low: c.low,
        close: c.close,
        amount,
        balance: c.volume_quote,
        total: c.trade_count,
    }
}

/// The klines of candlesticks, in order.
pub fn klines_from_candles(candles: &Vec<OhlcvCandle>) -> (r: Vec<Kline>)
    requires
        forall|i: int| 0 <= i < candles.len() ==> candle_wf(#[trigger] candles@[i]),
    ensures
        r.len() == candles.len(),
        forall|i: int| 0 <= i < candles.len() ==> is_kline_of(#[trigger] r@[i], candles@[i]),
        all_wf(r@),
{
    let mut r: Vec<Kline> = Vec::new();
    let mut i: usize = 0;
    while i < candles.len()
        invariant
            i <= candles.len(),
            r.len() == i,
            forall|j: int| 0 <= j < candles.len() ==> candle_wf(#[trigger] candles@[j]),
            forall|j: int| 0 <= j < i ==> is_kline_of(#[trigger] r@[j], candles@[j]),
            forall|j: int| 0 <= j < i ==> (#[trigger] r@[j]).wf(),
        decreases candles.len() - i,
    {
        r.push(kline_from_candle(&candles[i]));
        i = i + 1;
    }
    r
}

impl KlineStore {
    /// Stores the candlesticks fetched for `count` wanted: their klines are
    /// merged in (see `update`), and more are known to exist where as many as
    /// wanted came.
    pub fn store_candles(&mut self, counter: Counter, kline_type: KlineType, candles: &Vec<OhlcvCandle>, count: usize)
        requires
            old(self).wf(),
            forall|i: int| 0 <= i < candles.len() ==> candle_wf(#[trigger] candles@[i]),
        ensures
            final(self).wf(),
            final(self)@.dom() == old(self)@.dom().insert((counter@, kline_type)),
            final(self)@.remove((counter@, kline_type)) == old(self)@.remove((counter@, kline_type)),
            final(self)@[(counter@, kline_type)].0 == (candles.len() == count),
            strictly_sorted(final(self)@[(counter@, kline_type)].1),
            exists|ks: Seq<Kline>| {
                &&& ks.len() == candles.len()
                &&& (forall|i: int| 0 <= i < candles.len() ==> is_kline_of(#[trigger] ks[i], candles@[i]))
                &&& by_timestamp(final(self)@[(counter@, kline_type)].1) == by_timestamp(
                    klines_of(old(self)@, (counter@, kline_type)),
                ).union_prefer_right(latest_by_timestamp(ks))
            },
    {
        let klines = klines_from_candles(candles);
        let ghost ks = klines@;
        let more = klines.len() == count;
        self.update(counter, kline_type, klines, more);
    }
}

} // verus!
