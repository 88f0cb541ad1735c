use vstd::prelude::*;

use crate::text::chars_of;
use crate::types::Counter;

verus! {

broadcast use vstd::seq_lib::group_seq_properties;

#[derive(Debug)]
pub struct WatchlistGroup {
    pub id: u64,
    pub name: String,
}

impl Clone for WatchlistGroup {
    fn clone(&self) -> (r: Self)
        ensures
            r == *self,
    {
        WatchlistGroup { id: self.id, name: self.name.clone() }
    }
}

/// The texts of a sequence of counters.
pub open spec fn views(s: Seq<Counter>) -> Seq<Seq<char>> {
    s.map_values(|c: Counter| c@)
}

/// The sequence with every repeated element dropped, first occurrences kept in
/// their order.
pub open spec fn dedup(s: Seq<Seq<char>>) -> Seq<Seq<char>>
    decreases s.len(),
{
    if s.len() == 0 {
        Seq::empty()
    } else {
        let d = dedup(s.drop_last());
        if d.contains(s.last()) {
            d
        } else {
            d.push(s.last())
        }
    }
}

/// No element occurs twice.
pub open spec fn no_duplicates(s: Seq<Seq<char>>) -> bool {
    forall|i: int, j: int| 0 <= i < j < s.len() ==> s[i] != s[j]
}

/// Lexicographic order on code points, which is the order `str::cmp` gives
/// (UTF-8 preserves the order of code points).
pub open spec fn lex_le(a: Seq<char>, b: Seq<char>) -> bool
    decreases a.len(),
{
    if a.len() == 0 {
        true
    } else if b.len() == 0 {
        false
    } else if a[0] != b[0] {
        a[0] < b[0]
    } else {
        lex_le(a.drop_first(), b.drop_first())
    }
}

/// Every element is at most every later element.
pub open spec fn sorted(s: Seq<Seq<char>>) -> bool {
    forall|i: int, j: int| 0 <= i < j < s.len() ==> lex_le(s[i], s[j])
}

pub proof fn lemma_lex_total(a: Seq<char>, b: Seq<char>)
    ensures
        lex_le(a, b) || lex_le(b, a),
    decreases a.len(),
{
    if a.len() > 0 && b.len() > 0 {
        if a[0] == b[0] {
            lemma_lex_total(a.drop_first(), b.drop_first());
        } else {
        }
    }
}

pub proof fn lemma_lex_transitive(a: Seq<char>, b: Seq<char>, c: Seq<char>)
    requires
        lex_le(a, b),
        lex_le(b, c),
    ensures
        lex_le(a, c),
    decreases a.len(),
{
    if a.len() > 0 && b.len() > 0 && c.len() > 0 && a[0] == b[0] && b[0] == c[0] {
        lemma_lex_transitive(a.drop_first(), b.drop_first(), c.drop_first());
    }
}

pub proof fn lemma_lex_reflexive(a: Seq<char>)
    ensures
        lex_le(a, a),
    decreases a.len(),
{
    if a.len() > 0 {
        lemma_lex_reflexive(a.drop_first());
    }
}

/// `a <= b` in the order of `str::cmp`.
pub fn str_le(a: &str, b: &str) -> (r: bool)
    ensures
        r == lex_le(a@, b@),
{
    let x = chars_of(a);
    let y = chars_of(b);
    let mut i: usize = 0;
    while i < x.len() && i < y.len() && x[i] == y[i]
        invariant
            i <= x.len(),
            i <= y.len(),
            lex_le(x@, y@) == lex_le(x@.skip(i as int), y@.skip(i as int)),
        decreases x.len() - i,
    {
        assert(x@.skip(i as int).drop_first() =~= x@.skip(i + 1));
        assert(y@.skip(i as int).drop_first() =~= y@.skip(i + 1));
        i = i + 1;
    }
    if i == x.len() {
        true
    } else if i == y.len() {
        false
    } else {
        x[i] < y[i]
    }
}

pub proof fn lemma_dedup_props(s: Seq<Seq<char>>)
    ensures
        no_duplicates(dedup(s)),
        forall|x: Seq<char>| dedup(s).contains(x) <==> s.contains(x),
        dedup(s).len() <= s.len(),
    decreases s.len(),
{
    if s.len() > 0 {
        let t = s.drop_last();
        lemma_dedup_props(t);
        assert(s =~= t.push(s.last()));
        let d = dedup(t);
        if !d.contains(s.last()) {
            let e = d.push(s.last());
            assert forall|i: int, j: int| 0 <= i < j < e.len() implies e[i] != e[j] by {
                if j == e.len() - 1 {
                    assert(d.contains(e[i]));
                }
            }
        }
    }
}

/// A sequence without repetitions is left as it is.
pub proof fn lemma_dedup_no_duplicates(s: Seq<Seq<char>>)
    requires
        no_duplicates(s),
    ensures
        dedup(s) == s,
    decreases s.len(),
{
    if s.len() > 0 {
        let t = s.drop_last();
        assert(no_duplicates(t));
        lemma_dedup_no_duplicates(t);
        assert(!t.contains(s.last())) by {
            if t.contains(s.last()) {
                let k = choose|k: int| 0 <= k < t.len() && t[k] == s.last();
                assert(s[k] == s[s.len() - 1]);
            }
        }
        assert(s =~= t.push(s.last()));
    }
}

#[derive(Debug)]
pub struct Watchlist {
    pub group_id: Option<u64>,
    pub counters: Vec<Counter>,
    pub groups: Vec<WatchlistGroup>,
    pub hidden: bool,
    pub sort_by: (u8, u8, bool),
}

impl Watchlist {
    pub fn new() -> (r: Self)
        ensures
            r.group_id is None,
            r.counters.len() == 0,
            r.groups.len() == 0,
            !r.hidden,
            r.sort_by == (0u8, 0u8, false),
    {
        Watchlist {
            group_id: None,
            counters: Vec::new(),
            groups: Vec::new(),
            hidden: false,
            sort_by: (0, 0, false),
        }
    }

    pub fn set_group_id(&mut self, id: u64)
        ensures
            final(self).group_id == Some(id),
            final(self).counters == old(self).counters,
            final(self).groups == old(self).groups,
            final(self).hidden == old(self).hidden,
            final(self).sort_by == old(self).sort_by,
    {
        self.group_id = Some(id);
    }

    pub fn set_counters(&mut self, counters: Vec<Counter>)
        ensures
            final(self).counters == counters,
            final(self).group_id == old(self).group_id,
            final(self).groups == old(self).groups,
            final(self).hidden == old(self).hidden,
            final(self).sort_by == old(self).sort_by,
    {
        self.counters = counters;
    }

    pub fn counters(&self) -> (r: &[Counter])
        ensures
            r@ == self.counters@,
    {
        self.counters.as_slice()
    }

    /// Keeps the counters in their order, each only at its first occurrence.
    pub fn load(&mut self, counters: Vec<Counter>)
        ensures
            views(final(self).counters@) == dedup(views(counters@)),
            final(self).group_id == old(self).group_id,
            final(self).groups == old(self).groups,
            final(self).hidden == old(self).hidden,
            final(self).sort_by == old(self).sort_by,
    {
        let mut deduped: Vec<Counter> = Vec::new();
        let mut i: usize = 0;
        while i < counters.len()
            invariant
                i <= counters.len(),
                views(deduped@) == dedup(views(counters@.take(i as int))),
            decreases counters.len() - i,
        {
            let ghost prefix = views(counters@.take(i as int));
            let ghost next = views(counters@.take(i + 1));
            assert(next.drop_last() =~= prefix);
            assert(next.last() == counters@[i as int]@);
            let mut seen = false;
            let mut j: usize = 0;
            while j < deduped.len()
                invariant
                    j <= deduped.len(),
                    i < counters.len(),
                    seen == exists|k: int| 0 <= k < j && deduped@[k]@ == counters@[i as int]@,
                decreases deduped.len() - j,
            {
                if deduped[j] == counters[i] {
                    seen = true;
                }
                j = j + 1;
            }
            proof {
                if seen {
                    let k = choose|k: int| 0 <= k < j && deduped@[k]@ == counters@[i as int]@;
                    assert(views(deduped@)[k] == counters@[i as int]@);
                } else {
                    assert forall|k: int| 0 <= k < views(deduped@).len() implies views(deduped@)[k]
                        != counters@[i as int]@ by {
                        assert(views(deduped@)[k] == deduped@[k]@);
                    }
                }
            }
            if !seen {
                let c = counters[i].clone();
                deduped.push(c);
                assert(views(deduped@) =~= dedup(prefix).push(counters@[i as int]@));
            }
            i = i + 1;
        }
        assert(counters@.take(i as int) =~= counters@);
        self.counters = deduped;
    }

    pub fn set_hidden(&mut self, hidden: bool)
        ensures
            final(self).hidden == hidden,
            final(self).counters == old(self).counters,
            final(self).group_id == old(self).group_id,
            final(self).groups == old(self).groups,
            final(self).sort_by == old(self).sort_by,
    {
        self.hidden = hidden;
    }

    pub fn set_sortby(&mut self, sortby: (u8, u8, bool))
        ensures
            final(self).sort_by == sortby,
            final(self).counters == old(self).counters,
            final(self).group_id == old(self).group_id,
            final(self).groups == old(self).groups,
            final(self).hidden == old(self).hidden,
    {
        self.sort_by = sortby;
    }

    /// Sorts the counters by their text.
    pub fn refresh(&mut self)
        ensures
            sorted(views(final(self).counters@)),
            views(final(self).counters@).to_multiset() == views(old(self).counters@).to_multiset(),
            final(self).group_id == old(self).group_id,
            final(self).groups == old(self).groups,
            final(self).hidden == old(self).hidden,
            final(self).sort_by == old(self).sort_by,
    {
        let mut out: Vec<Counter> = Vec::new();
        let mut i: usize = 0;
        while i < self.counters.len()
            invariant
                i <= self.counters.len(),
                sorted(views(out@)),
                views(out@).to_multiset() == views(self.counters@.take(i as int)).to_multiset(),
            decreases self.counters.len() - i,
        {
            let x = self.counters[i].clone();
            // first position whose element is greater than x
            let mut p: usize = 0;
            while p < out.len() && str_le(out[p].as_str(), x.as_str())
                invariant
                    p <= out.len(),
                    forall|k: int| 0 <= k < p ==> lex_le(#[trigger] views(out@)[k], x@),
                decreases out.len() - p,
            {
                p = p + 1;
            }
            let ghost before = views(out@);
            proof {
                if p < out.len() {
                    assert(!lex_le(before[p as int], x@));
                    lemma_lex_total(before[p as int], x@);
                }
            }
            out.insert(p, x);
            proof {
                let after = views(out@);
                assert(after =~= before.insert(p as int, x@));
                assert forall|a: int, b: int| 0 <= a < b < after.len() implies lex_le(after[a], after[b]) by {
                    if a < p && b == p {
                    } else if a == p && b > p {
                        if b - 1 > p {
                            lemma_lex_transitive(x@, before[p as int], before[b - 1]);
                        }
                    } else if a < p && b > p {
                    } else if a > p {
                    } else {
                    }
                }
                assert(after.remove(p as int) =~= before);
                assert(after.to_multiset().remove(x@) =~= before.to_multiset());
                assert(after.to_multiset().count(x@) > 0);
                assert(after.to_multiset() =~= before.to_multiset().insert(x@));
                let pre = views(self.counters@.take(i as int));
                let post = views(self.counters@.take(i + 1));
                assert(post =~= pre.push(x@));
                assert(post.to_multiset() =~= pre.to_multiset().insert(x@));
            }
            i = i + 1;
        }
        assert(self.counters@.take(i as int) =~= self.counters@);
        self.counters = out;
    }

    pub fn groups(&self) -> (r: &[WatchlistGroup])
        ensures
            r@ == self.groups@,
    {
        self.groups.as_slice()
    }

    /// Takes in a freshly fetched watchlist: its groups, and its counters
    /// without repeats, hidden, unsorted by column and put in order of their
    /// text; the group chosen is kept.
    pub fn reload(&mut self, counters: Vec<Counter>, groups: Vec<WatchlistGroup>)
        ensures
            final(self).groups == groups,
            sorted(views(final(self).counters@)),
            views(final(self).counters@).to_multiset() == dedup(views(counters@)).to_multiset(),
            final(self).hidden,
            final(self).sort_by == (0u8, 0u8, false),
            final(self).group_id == old(self).group_id,
    {
        self.set_groups(groups);
        self.load(counters);
        self.set_hidden(true);
        self.set_sortby((0, 0, false));
        self.refresh();
    }

    pub fn set_groups(&mut self, groups: Vec<WatchlistGroup>)
        ensures
            final(self).groups == groups,
            final(self).counters == old(self).counters,
            final(self).group_id == old(self).group_id,
            final(self).hidden == old(self).hidden,
            final(self).sort_by == old(self).sort_by,
    {
        self.groups = groups;
    }

    /// The first group whose id is the selected group id.
    pub fn group(&self) -> (r: Option<&WatchlistGroup>)
        ensures
            match self.group_id {
                None => r is None,
                Some(id) => match r {
                    None => forall|k: int| 0 <= k < self.groups.len() ==> self.groups@[k].id != id,
                    Some(g) => exists|k: int|
                        0 <= k < self.groups.len() && *g == self.groups@[k] && g.id == id
                            && forall|m: int| 0 <= m < k ==> self.groups@[m].id != id,
                },
            },
    {
        let id = match self.group_id {
            None => return None,
            Some(id) => id,
        };
        let mut k: usize = 0;
        while k < self.groups.len()
            invariant
                k <= self.groups.len(),
                self.group_id == Some(id),
                forall|m: int| 0 <= m < k ==> self.groups@[m].id != id,
            decreases self.groups.len() - k,
        {
            if self.groups[k].id == id {
                return Some(&self.groups[k]);
            }
            k = k + 1;
        }
        None
    }
}

impl Default for Watchlist {
    fn default() -> (r: Self)
        ensures
            r.group_id is None,
            r.counters.len() == 0,
            r.groups.len() == 0,
            !r.hidden,
            r.sort_by == (0u8, 0u8, false),
    {
        Watchlist::new()
    }
}

} // verus!
