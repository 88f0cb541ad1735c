use vstd::prelude::*;

use dashmap::DashMap;
use std::sync::Arc;

use crate::pool::{is_fresh_but_named, is_fresh_pool, same_pool, Pool};
use crate::types::Counter;

verus! {

#[verifier::external_type_specification]
#[verifier::external_body]
#[verifier::reject_recursive_types(K)]
#[verifier::reject_recursive_types(V)]
#[verifier::reject_recursive_types(S)]
pub struct ExDashMap<K, V, S>(DashMap<K, V, S>);

/// The pools a concurrent map holds, by the text of their key.
pub uninterp spec fn pool_map_contents(m: DashMap<String, Arc<Pool>>) -> Map<Seq<char>, Pool>;

/// No pools.
pub open spec fn no_pools() -> Map<Seq<char>, Pool> {
    Map::empty()
}

/// Calls `DashMap::new`: the map is empty.
#[verifier::external_body]
fn pool_map_new() -> (r: DashMap<String, Arc<Pool>>)
    ensures
        pool_map_contents(r) == no_pools(),
{
    DashMap::new()
}

/// Calls `DashMap::get` and clones the `Arc` it finds: the pool stored under the
/// key, if any.
#[verifier::external_body]
fn pool_map_get(m: &DashMap<String, Arc<Pool>>, key: &str) -> (r: Option<Arc<Pool>>)
    ensures
        r is Some <==> pool_map_contents(*m).contains_key(key@),
        r matches Some(p) ==> *p == pool_map_contents(*m)[key@],
{
    m.get(key).map(|entry| Arc::clone(entry.value()))
}

/// Calls `DashMap::insert`: the key now maps to the value, the rest is kept.
#[verifier::external_body]
fn pool_map_insert(m: &mut DashMap<String, Arc<Pool>>, key: String, value: Arc<Pool>)
    ensures
        pool_map_contents(*final(m)) == pool_map_contents(*old(m)).insert(key@, *value),
{
    m.insert(key, value);
}

/// Calls `DashMap::remove`: the key is gone, the rest is kept.
#[verifier::external_body]
fn pool_map_remove(m: &mut DashMap<String, Arc<Pool>>, key: &str)
    ensures
        pool_map_contents(*final(m)) == pool_map_contents(*old(m)).remove(key@),
{
    m.remove(key);
}

/// Calls `DashMap::clear`: the map is empty.
#[verifier::external_body]
fn pool_map_clear(m: &mut DashMap<String, Arc<Pool>>)
    ensures
        pool_map_contents(*final(m)) == no_pools(),
{
    m.clear();
}

/// Calls `DashMap::len`: the number of keys.
#[verifier::external_body]
fn pool_map_len(m: &DashMap<String, Arc<Pool>>) -> (r: usize)
    ensures
        r == pool_map_contents(*m).len(),
{
    m.len()
}

/// A pool stored under its counter is what is then found under it; other
/// counters keep their pools.
pub proof fn lemma_get_after_insert(m: Map<Seq<char>, Pool>, pool: Pool, other: Seq<char>)
    ensures
        m.insert(pool.counter@, pool).contains_key(pool.counter@),
        m.insert(pool.counter@, pool)[pool.counter@] == pool,
        other != pool.counter@ ==> m.insert(pool.counter@, pool).contains_key(other) == m.contains_key(other),
        other != pool.counter@ && m.contains_key(other) ==> m.insert(pool.counter@, pool)[other] == m[other],
{
}

/// The keys of a list of counters.
pub open spec fn counter_keys(counters: Seq<Counter>) -> Set<Seq<char>> {
    counters.map_values(|c: Counter| c@).to_set()
}

/// A pool just made for a counter that the watchlist shows: its name is the
/// counter's text, and it holds no quote, book or trades yet.
pub open spec fn is_placeholder_pool(p: Pool, key: Seq<char>) -> bool {
    &&& p.counter@ == key
    &&& p.name@ == key
    &&& is_fresh_but_named(p, p.counter)
}

/// The pools, by counter.
pub struct PoolStore {
    inner: DashMap<String, Arc<Pool>>,
}

impl View for PoolStore {
    type V = Map<Seq<char>, Pool>;

    closed spec fn view(&self) -> Map<Seq<char>, Pool> {
        pool_map_contents(self.inner)
    }
}

impl PoolStore {
    pub fn new() -> (r: Self)
        ensures
            r@ == Map::<Seq<char>, Pool>::empty(),
    {
        PoolStore { inner: pool_map_new() }
    }

    /// The pool of a counter, if there is one.
    pub fn get(&self, counter: &Counter) -> (r: Option<Arc<Pool>>)
        ensures
            r is Some <==> self@.contains_key(counter@),
            r matches Some(p) ==> *p == self@[counter@],
    {
        pool_map_get(&self.inner, counter.as_str())
    }

    /// The pools of several counters, in their order.
    pub fn mget(&self, counters: &[Counter]) -> (r: Vec<Option<Arc<Pool>>>)
        ensures
            r.len() == counters@.len(),
            forall|i: int|
                0 <= i < counters@.len() ==> ((#[trigger] r@[i]) is Some <==> self@.contains_key(
                    counters@[i]@,
                )),
            forall|i: int|
                0 <= i < counters@.len() ==> (#[trigger] r@[i] matches Some(p) ==> *p == self@[counters@[i]@]),
    {
        let mut out: Vec<Option<Arc<Pool>>> = Vec::new();
        let mut i: usize = 0;
        while i < counters.len()
            invariant
                i <= counters@.len(),
                out.len() == i,
                forall|j: int|
                    0 <= j < i ==> ((#[trigger] out@[j]) is Some <==> self@.contains_key(counters@[j]@)),
                forall|j: int|
                    0 <= j < i ==> (#[trigger] out@[j] matches Some(p) ==> *p == self@[counters@[j]@]),
            decreases counters@.len() - i,
        {
            out.push(self.get(&counters[i]));
            i = i + 1;
        }
        out
    }

    /// Stores a pool under its counter, in place of any earlier one.
    pub fn insert(&mut self, pool: Pool)
        ensures
            final(self)@ == old(self)@.insert(pool.counter@, pool),
    {
        let key = pool.counter.to_string();
        pool_map_insert(&mut self.inner, key, Arc::new(pool));
    }

    /// Changes the pool of a counter (a new pool where there is none) by `f`.
    pub fn modify<F>(&mut self, counter: Counter, f: F)
        where
            F: FnOnce(Pool) -> Pool,
        requires
            forall|p: Pool| #[trigger] f.requires((p,)),
        ensures
            exists|p: Pool, q: Pool|
                {
                    &&& f.ensures((p,), q)
                    &&& (if old(self)@.contains_key(counter@) {
                        same_pool(p, old(self)@[counter@])
                    } else {
                        is_fresh_pool(p, counter)
                    })
                    &&& q.counter@ == counter@ ==> final(self)@ == old(self)@.insert(counter@, q)
                    &&& q.counter@ != counter@ ==> final(self)@ == old(self)@.insert(q.counter@, q)
                },
    {
        let pool = match self.get(&counter) {
            Some(s) => (*s).clone(),
            None => Pool::new(counter),
        };
        let changed = f(pool);
        self.insert(changed);
    }

    /// Stores a pool named after its counter for each counter that has none;
    /// the pools already stored stay as they are.
    pub fn insert_missing_named(&mut self, counters: &[Counter])
        ensures
            final(self)@.dom() == old(self)@.dom().union(counter_keys(counters@)),
            forall|k: Seq<char>| #[trigger] old(self)@.contains_key(k) ==> final(self)@[k] == old(self)@[k],
            forall|k: Seq<char>|
                #[trigger] final(self)@.contains_key(k) && !old(self)@.contains_key(k)
                    ==> is_placeholder_pool(final(self)@[k], k),
    {
        let ghost start = self@;
        let mut i: usize = 0;
        while i < counters.len()
            invariant
                i <= counters@.len(),
                self@.dom() == start.dom().union(counter_keys(counters@.take(i as int))),
                forall|k: Seq<char>| #[trigger] start.contains_key(k) ==> self@[k] == start[k],
                forall|k: Seq<char>|
                    #[trigger] self@.contains_key(k) && !start.contains_key(k)
                        ==> is_placeholder_pool(self@[k], k),
            decreases counters@.len() - i,
        {
            let ghost before = self@;
            if self.get(&counters[i]).is_none() {
                let pool = Pool::named(counters[i].clone());
                self.insert(pool);
            }
            proof {
                let next = counters@.take(i + 1);
                assert(next == counters@.take(i as int).push(counters@[i as int]));
                assert(counter_keys(next) == counter_keys(counters@.take(i as int)).insert(counters@[i as int]@)) by {
                    assert(next.map_values(|c: Counter| c@) == counters@.take(i as int).map_values(|c: Counter| c@).push(counters@[i as int]@));
                    counters@.take(i as int).map_values(|c: Counter| c@).lemma_push_to_set_commute(counters@[i as int]@);
                }
                assert(self@.dom() =~= start.dom().union(counter_keys(next)));
            }
            i = i + 1;
        }
        proof {
            assert(counters@.take(counters@.len() as int) == counters@);
        }
    }

    pub fn remove(&mut self, counter: &Counter)
        ensures
            final(self)@ == old(self)@.remove(counter@),
    {
        pool_map_remove(&mut self.inner, counter.as_str());
    }

    pub fn clear(&mut self)
        ensures
            final(self)@ == Map::<Seq<char>, Pool>::empty(),
    {
        pool_map_clear(&mut self.inner);
    }

    pub fn len(&self) -> (r: usize)
        ensures
            r == self@.len(),
    {
        pool_map_len(&self.inner)
    }

    pub fn is_empty(&self) -> (r: bool)
        ensures
            r == (self@.len() == 0),
    {
        pool_map_len(&self.inner) == 0
    }
}

} // verus!
