use vstd::prelude::*;

use crate::text::chars_of;

verus! {

broadcast use vstd::seq_lib::group_seq_properties;

/// `a` comes before `b` in the order of their characters, a proper prefix
/// first: the order in which Rust sorts strings.
pub open spec fn text_lt(a: Seq<char>, b: Seq<char>) -> bool
    decreases a.len(),
{
    if a.len() == 0 {
        b.len() > 0
    } else if b.len() == 0 {
        false
    } else if a[0] != b[0] {
        a[0] < b[0]
    } else {
        text_lt(a.drop_first(), b.drop_first())
    }
}

/// No text comes before itself.
pub proof fn lemma_text_lt_irreflexive(a: Seq<char>)
    ensures
        !text_lt(a, a),
    decreases a.len(),
{
    if a.len() > 0 {
        lemma_text_lt_irreflexive(a.drop_first());
    }
}

/// Of two different texts, one comes before the other.
pub proof fn lemma_text_lt_total(a: Seq<char>, b: Seq<char>)
    ensures
        a != b ==> text_lt(a, b) || text_lt(b, a),
    decreases a.len(),
{
    if a.len() > 0 && b.len() > 0 && a[0] == b[0] {
        lemma_text_lt_total(a.drop_first(), b.drop_first());
        if a != b {
            assert(a.drop_first() != b.drop_first()) by {
                if a.drop_first() == b.drop_first() {
                    assert(a =~= seq![a[0]] + a.drop_first());
                    assert(b =~= seq![b[0]] + b.drop_first());
                }
            }
        }
    } else if a.len() == 0 && b.len() == 0 {
        assert(a =~= b);
    }
}

/// The order of texts is transitive.
pub proof fn lemma_text_lt_transitive(a: Seq<char>, b: Seq<char>, c: Seq<char>)
    requires
        text_lt(a, b),
        text_lt(b, c),
    ensures
        text_lt(a, c),
    decreases a.len(),
{
    if a.len() > 0 && b.len() > 0 && c.len() > 0 && a[0] == b[0] && b[0] == c[0] {
        lemma_text_lt_transitive(a.drop_first(), b.drop_first(), c.drop_first());
    }
}

/// No two texts each come before the other.
pub proof fn lemma_text_lt_asymmetric(a: Seq<char>, b: Seq<char>)
    requires
        text_lt(a, b),
    ensures
        !text_lt(b, a),
{
    if text_lt(b, a) {
        lemma_text_lt_transitive(a, b, a);
        lemma_text_lt_irreflexive(a);
    }
}

/// The watchlist's order (`lex_le`) and this one agree: `a` is at most `b`
/// exactly where `b` does not sort before `a`.
pub proof fn lemma_lex_le_agrees(a: Seq<char>, b: Seq<char>)
    ensures
        crate::watchlist::lex_le(a, b) == !text_lt(b, a),
    decreases a.len(),
{
    if a.len() > 0 && b.len() > 0 && a[0] == b[0] {
        lemma_lex_le_agrees(a.drop_first(), b.drop_first());
    }
}

/// Whether `a` sorts before `b`.
pub fn text_less(a: &str, b: &str) -> (r: bool)
    ensures
        r == text_lt(a@, b@),
{
    let va = chars_of(a);
    let vb = chars_of(b);
    let mut i: usize = 0;
    while i < va.len() && i < vb.len() && va[i] == vb[i]
        invariant
            i <= va.len(),
            i <= vb.len(),
            text_lt(va@, vb@) == text_lt(va@.skip(i as int), vb@.skip(i as int)),
        decreases va.len() - i,
    {
        assert(va@.skip(i as int).drop_first() =~= va@.skip(i + 1));
        assert(vb@.skip(i as int).drop_first() =~= vb@.skip(i + 1));
        i = i + 1;
    }
    assert(va@.skip(0) =~= va@);
    assert(vb@.skip(0) =~= vb@);
    if i == va.len() {
        i < vb.len()
    } else if i == vb.len() {
        false
    } else {
        va[i] < vb[i]
    }
}

/// The texts of some strings, in order.
pub open spec fn texts(v: Seq<String>) -> Seq<Seq<char>> {
    v.map_values(|s: String| s@)
}

/// Each text sorts strictly before every later one.
pub open spec fn strictly_sorted_texts(s: Seq<Seq<char>>) -> bool {
    forall|i: int, j: int| 0 <= i < j < s.len() ==> text_lt(#[trigger] s[i], #[trigger] s[j])
}

/// Puts `x` into a strictly sorted list of strings, where its text is not
/// there yet; the list stays strictly sorted and gains exactly that text.
pub fn insert_sorted_unique(out: &mut Vec<String>, x: String)
    requires
        strictly_sorted_texts(texts(old(out)@)),
    ensures
        strictly_sorted_texts(texts(final(out)@)),
        texts(final(out)@).to_set() == texts(old(out)@).to_set().insert(x@),
{
    let ghost before = texts(out@);
    let mut p: usize = 0;
    while p < out.len() && text_less(out[p].as_str(), x.as_str())
        invariant
            p <= out.len(),
            texts(out@) == before,
            strictly_sorted_texts(before),
            forall|k: int| 0 <= k < p ==> text_lt(#[trigger] before[k], x@),
        decreases out.len() - p,
    {
        p = p + 1;
    }
    if p < out.len() && crate::text::str_eq(out[p].as_str(), x.as_str()) {
        proof {
            assert(before[p as int] == x@);
            assert(before.to_set().contains(x@));
            assert(before.to_set().insert(x@) =~= before.to_set());
        }
        return;
    }
    proof {
        if p < out.len() {
            lemma_text_lt_total(before[p as int], x@);
        }
        assert forall|k: int| p <= k < before.len() implies text_lt(x@, #[trigger] before[k]) by {
            if k > p {
                lemma_text_lt_transitive(x@, before[p as int], before[k]);
            }
        }
    }
    out.insert(p, x);
    let ghost after = texts(out@);
    assert(after =~= before.insert(p as int, x@));
    proof {
        assert forall|i: int, j: int| 0 <= i < j < after.len() implies text_lt(#[trigger] after[i], #[trigger] after[j]) by {
            if j < p {
            } else if j == p {
            } else if i < p {
                lemma_text_lt_transitive(before[i], x@, before[j - 1]);
            } else if i == p {
            } else {
            }
        }
        assert(after.to_set() =~= before.to_set().insert(x@)) by {
            assert forall|t: Seq<char>| after.to_set().contains(t) implies before.to_set().insert(x@).contains(t) by {
                let k = choose|k: int| 0 <= k < after.len() && after[k] == t;
                if k < p {
                    assert(before[k] == t);
                } else if k > p {
                    assert(before[k - 1] == t);
                }
            }
            assert forall|t: Seq<char>| before.to_set().insert(x@).contains(t) implies after.to_set().contains(t) by {
                if t == x@ {
                    assert(after[p as int] == t);
                } else {
                    let k = choose|k: int| 0 <= k < before.len() && before[k] == t;
                    if k < p {
                        assert(after[k] == t);
                    } else {
                        assert(after[k + 1] == t);
                    }
                }
            }
        }
    }
}

/// The distinct texts of some strings, each once, sorted.
pub fn sorted_unique(items: Vec<String>) -> (r: Vec<String>)
    ensures
        strictly_sorted_texts(texts(r@)),
        texts(r@).to_set() == texts(items@).to_set(),
{
    let mut out: Vec<String> = Vec::new();
    let mut rest = items;
    let ghost all = texts(rest@);
    let ghost mut taken: Seq<Seq<char>> = Seq::empty();
    while rest.len() > 0
        invariant
            strictly_sorted_texts(texts(out@)),
            texts(out@).to_set() == taken.to_set(),
            taken.to_set().union(texts(rest@).to_set()) == all.to_set(),
        decreases rest.len(),
    {
        let ghost rest_before = texts(rest@);
        let x = rest.pop().unwrap();
        proof {
            assert(rest_before =~= texts(rest@).push(x@));
            assert(rest_before.to_set() =~= texts(rest@).to_set().insert(x@));
            taken = taken.push(x@);
            assert(taken.to_set() =~= taken.drop_last().to_set().insert(x@));
        }
        insert_sorted_unique(&mut out, x);
        proof {
            assert(taken.to_set().union(texts(rest@).to_set()) =~= all.to_set());
        }
    }
    proof {
        assert(texts(rest@).to_set() =~= Set::empty());
        assert(taken.to_set().union(Set::empty()) =~= taken.to_set());
    }
    out
}

} // verus!
