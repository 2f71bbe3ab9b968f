//! The order in which names are listed: lexicographic by code point, which is
//! the order of the names' UTF-8 bytes.

use vstd::prelude::*;
use vstd::relations::{sorted_by, total_ordering};
use vstd::seq_lib::{lemma_sorted_unique, to_multiset_build, to_multiset_insert};
use crate::text::to_chars;

verus! {

/// `a` comes before `b`, or equals it, in lexicographic order by code point.
pub open spec fn lex_leq(a: Seq<char>, b: Seq<char>) -> bool
    decreases a.len(),
{
    if a.len() == 0 {
        true
    } else if b.len() == 0 {
        false
    } else if a[0] == b[0] {
        lex_leq(a.drop_first(), b.drop_first())
    } else {
        a[0] < b[0]
    }
}

/// `lex_leq` as a relation, for use with the sequence library.
pub open spec fn name_order() -> spec_fn(Seq<char>, Seq<char>) -> bool {
    |a: Seq<char>, b: Seq<char>| lex_leq(a, b)
}

/// Every name is at or before itself.
pub proof fn lemma_lex_reflexive(a: Seq<char>)
    ensures
        lex_leq(a, a),
    decreases a.len(),
{
    if a.len() > 0 {
        lemma_lex_reflexive(a.drop_first());
    }
}

/// Two names that are each at or before the other are the same name.
pub proof fn lemma_lex_antisymmetric(a: Seq<char>, b: Seq<char>)
    requires
        lex_leq(a, b),
        lex_leq(b, a),
    ensures
        a == b,
    decreases a.len(),
{
    if a.len() == 0 {
        assert(a =~= b);
    } else {
        lemma_lex_antisymmetric(a.drop_first(), b.drop_first());
        assert(a =~= seq![a[0]] + a.drop_first());
        assert(b =~= seq![b[0]] + b.drop_first());
    }
}

/// The order is transitive.
pub proof fn lemma_lex_transitive(a: Seq<char>, b: Seq<char>, c: Seq<char>)
    requires
        lex_leq(a, b),
        lex_leq(b, c),
    ensures
        lex_leq(a, c),
    decreases a.len(),
{
    if a.len() > 0 && a[0] == b[0] && b[0] == c[0] {
        lemma_lex_transitive(a.drop_first(), b.drop_first(), c.drop_first());
    }
}

/// Any two names are comparable.
pub proof fn lemma_lex_total(a: Seq<char>, b: Seq<char>)
    ensures
        lex_leq(a, b) || lex_leq(b, a),
    decreases a.len(),
{
    if a.len() > 0 && b.len() > 0 && a[0] == b[0] {
        lemma_lex_total(a.drop_first(), b.drop_first());
    }
}

/// The order on names is a total order.
pub proof fn lemma_name_order_total()
    ensures
        total_ordering(name_order()),
{
    let r = name_order();
    assert forall|a: Seq<char>| #[trigger] r(a, a) by {
        lemma_lex_reflexive(a);
    }
    assert forall|a: Seq<char>, b: Seq<char>| #[trigger] r(a, b) && #[trigger] r(b, a) implies a
        == b by {
        lemma_lex_antisymmetric(a, b);
    }
    assert forall|a: Seq<char>, b: Seq<char>, c: Seq<char>| #[trigger]
        r(a, b) && #[trigger] r(b, c) implies r(a, c) by {
        lemma_lex_transitive(a, b, c);
    }
    assert forall|a: Seq<char>, b: Seq<char>| #[trigger] r(a, b) || #[trigger] r(b, a) by {
        lemma_lex_total(a, b);
    }
}

/// Whether `a` is at or before `b`.
pub fn chars_leq(a: &Vec<char>, b: &Vec<char>) -> (r: bool)
    ensures
        r == lex_leq(a@, b@),
{
    let mut i: usize = 0;
    proof {
        assert(a@.skip(0) =~= a@);
        assert(b@.skip(0) =~= b@);
    }
    while i < a.len() && i < b.len() && a[i] == b[i]
        invariant
            i <= a.len(),
            i <= b.len(),
            lex_leq(a@, b@) == lex_leq(a@.skip(i as int), b@.skip(i as int)),
        decreases a.len() - i,
    {
        proof {
            assert(a@.skip(i as int).drop_first() =~= a@.skip(i + 1));
            assert(b@.skip(i as int).drop_first() =~= b@.skip(i + 1));
        }
        i = i + 1;
    }
    if i >= a.len() {
        true
    } else if i >= b.len() {
        false
    } else {
        a[i] < b[i]
    }
}

/// Whether the name `a` is at or before the name `b`.
pub fn name_leq(a: &str, b: &str) -> (r: bool)
    ensures
        r == lex_leq(a@, b@),
{
    let ca = to_chars(a);
    let cb = to_chars(b);
    chars_leq(&ca, &cb)
}

/// The names that a sequence of strings spells.
pub open spec fn names_of(v: Seq<String>) -> Seq<Seq<char>> {
    v.map_values(|s: String| s@)
}

/// The names of `v` in ascending order.
pub fn sort_names(v: &Vec<String>) -> (out: Vec<String>)
    ensures
        names_of(out@) == names_of(v@).sort_by(name_order()),
        sorted_by(names_of(out@), name_order()),
        names_of(out@).to_multiset() == names_of(v@).to_multiset(),
{
    let mut out: Vec<String> = Vec::new();
    let mut keys: Vec<Vec<char>> = Vec::new();
    let mut i: usize = 0;
    proof {
        assert(names_of(v@.take(0)) =~= names_of(out@));
    }
    while i < v.len()
        invariant
            i <= v.len(),
            keys.len() == out.len(),
            forall|j: int| 0 <= j < out.len() ==> #[trigger] keys@[j]@ == out@[j]@,
            sorted_by(names_of(out@), name_order()),
            names_of(out@).to_multiset() == names_of(v@.take(i as int)).to_multiset(),
        decreases v.len() - i,
    {
        let name = v[i].clone();
        let key = to_chars(name.as_str());
        let mut p: usize = 0;
        while p < keys.len() && chars_leq(&keys[p], &key)
            invariant
                p <= keys.len(),
                keys.len() == out.len(),
                forall|j: int| 0 <= j < out.len() ==> #[trigger] keys@[j]@ == out@[j]@,
                forall|j: int| 0 <= j < p ==> lex_leq(#[trigger] keys@[j]@, key@),
            decreases keys.len() - p,
        {
            p = p + 1;
        }
        proof {
            let before = names_of(out@);
            let after = before.insert(p as int, key@);
            assert(names_of(out@.insert(p as int, name)) =~= after);
            assert(names_of(v@.take(i + 1)) =~= names_of(v@.take(i as int)).push(key@));
            to_multiset_insert(before, p as int, key@);
            to_multiset_build(names_of(v@.take(i as int)), key@);
            assert forall|x: int, y: int| 0 <= x < y < after.len() implies #[trigger] name_order()(
                after[x],
                after[y],
            ) by {
                if y < p {
                    assert(name_order()(before[x], before[y]));
                } else if y == p {
                    assert(lex_leq(keys@[x]@, key@));
                } else if x == p {
                    lemma_lex_total(keys@[p as int]@, key@);
                    if y - 1 > p {
                        assert(name_order()(before[p as int], before[y - 1]));
                        lemma_lex_transitive(key@, before[p as int], before[y - 1]);
                    }
                } else if x < p {
                    assert(name_order()(before[x], before[y - 1]));
                } else {
                    assert(name_order()(before[x - 1], before[y - 1]));
                }
            }
        }
        out.insert(p, name);
        keys.insert(p, key);
        i = i + 1;
    }
    proof {
        assert(v@.take(v.len() as int) =~= v@);
        lemma_name_order_total();
        names_of(v@).lemma_sort_by_ensures(name_order());
        lemma_sorted_unique(names_of(out@), names_of(v@).sort_by(name_order()), name_order());
    }
    out
}

} // verus!
