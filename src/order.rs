//! The order in which names are listed: lexicographic by Unicode scalar value,
//! which is the order of `String`'s `Ord` (byte order of UTF-8).

use vstd::prelude::*;
use vstd::multiset::Multiset;
use vstd::relations::{sorted_by, total_ordering};
use vstd::seq_lib::lemma_sorted_unique;

verus! {

/// `a` sorts no later than `b`.
pub open spec fn name_le(a: Seq<char>, b: Seq<char>) -> bool
    decreases a.len(),
{
    if a.len() == 0 {
        true
    } else if b.len() == 0 {
        false
    } else if a[0] != b[0] {
        (a[0] as int) < (b[0] as int)
    } else {
        name_le(a.drop_first(), b.drop_first())
    }
}

/// `name_le` as a relation, for the sequence library's sorting vocabulary.
pub open spec fn name_order() -> spec_fn(Seq<char>, Seq<char>) -> bool {
    |a: Seq<char>, b: Seq<char>| name_le(a, b)
}

/// The names of `s` in listing order.
pub open spec fn sorted_names(s: Seq<Seq<char>>) -> Seq<Seq<char>> {
    s.sort_by(name_order())
}

pub proof fn lemma_name_le_reflexive(a: Seq<char>)
    ensures
        name_le(a, a),
    decreases a.len(),
{
    if a.len() > 0 {
        lemma_name_le_reflexive(a.drop_first());
    }
}

pub proof fn lemma_name_le_antisymmetric(a: Seq<char>, b: Seq<char>)
    requires
        name_le(a, b),
        name_le(b, a),
    ensures
        a == b,
    decreases a.len(),
{
    if a.len() > 0 && b.len() > 0 {
        if a[0] == b[0] {
            lemma_name_le_antisymmetric(a.drop_first(), b.drop_first());
            assert(a =~= seq![a[0]] + a.drop_first());
            assert(b =~= seq![b[0]] + b.drop_first());
        }
    }
}

pub proof fn lemma_name_le_transitive(a: Seq<char>, b: Seq<char>, c: Seq<char>)
    requires
        name_le(a, b),
        name_le(b, c),
    ensures
        name_le(a, c),
    decreases a.len(),
{
    if a.len() > 0 && b.len() > 0 && c.len() > 0 {
        if a[0] == b[0] && b[0] == c[0] {
            lemma_name_le_transitive(a.drop_first(), b.drop_first(), c.drop_first());
        }
    }
}

pub proof fn lemma_name_le_total(a: Seq<char>, b: Seq<char>)
    ensures
        name_le(a, b) || name_le(b, a),
    decreases a.len(),
{
    if a.len() > 0 && b.len() > 0 && a[0] == b[0] {
        lemma_name_le_total(a.drop_first(), b.drop_first());
    }
}

/// The listing order is a total order: reflexive, antisymmetric, transitive,
/// and any two names are comparable.
pub proof fn lemma_name_order_total()
    ensures
        total_ordering(name_order()),
{
    assert forall|a: Seq<char>| #[trigger] name_order()(a, a) by {
        lemma_name_le_reflexive(a);
    }
    assert forall|a: Seq<char>, b: Seq<char>|
        #[trigger] name_order()(a, b) && #[trigger] name_order()(b, a) implies a == b by {
        lemma_name_le_antisymmetric(a, b);
    }
    assert forall|a: Seq<char>, b: Seq<char>, c: Seq<char>|
        #[trigger] name_order()(a, b) && #[trigger] name_order()(b, c) implies name_order()(
        a,
        c,
    ) by {
        lemma_name_le_transitive(a, b, c);
    }
    assert forall|a: Seq<char>, b: Seq<char>|
        #[trigger] name_order()(a, b) || #[trigger] name_order()(b, a) by {
        lemma_name_le_total(a, b);
    }
}

/// Sorting names is order-independent: two sequences that hold the same names
/// (with the same multiplicities), in whatever order, are listed identically.
pub proof fn lemma_listing_order_independent(a: Seq<Seq<char>>, b: Seq<Seq<char>>)
    requires
        a.to_multiset() == b.to_multiset(),
    ensures
        sorted_names(a) == sorted_names(b),
{
    lemma_name_order_total();
    a.lemma_sort_by_ensures(name_order());
    b.lemma_sort_by_ensures(name_order());
    lemma_sorted_unique(sorted_names(a), sorted_names(b), name_order());
}

/// Compares two names in listing order.
pub fn name_le_exec(a: &Vec<char>, b: &Vec<char>) -> (r: bool)
    ensures
        r == name_le(a@, b@),
{
    let mut i: usize = 0;
    assert(a@.skip(0) =~= a@);
    assert(b@.skip(0) =~= b@);
    while i < a.len() && i < b.len()
        invariant
            i <= a.len(),
            i <= b.len(),
            name_le(a@, b@) == name_le(a@.skip(i as int), b@.skip(i as int)),
        decreases a.len() - i,
    {
        if a[i] != b[i] {
            return a[i] < b[i];
        }
        assert(a@.skip(i as int).drop_first() =~= a@.skip(i + 1));
        assert(b@.skip(i as int).drop_first() =~= b@.skip(i + 1));
        i = i + 1;
    }
    i == a.len()
}

/// The names held by a vector of character vectors.
pub open spec fn names_of(v: Seq<Vec<char>>) -> Seq<Seq<char>> {
    v.map_values(|x: Vec<char>| x@)
}

/// The position of a least name of `v`.
fn index_of_least(v: &Vec<Vec<char>>) -> (m: usize)
    requires
        v.len() > 0,
    ensures
        m < v.len(),
        forall|j: int| 0 <= j < v.len() ==> name_le(v@[m as int]@, #[trigger] v@[j]@),
{
    let mut m: usize = 0;
    let mut i: usize = 1;
    proof {
        lemma_name_le_reflexive(v@[0]@);
    }
    while i < v.len()
        invariant
            0 < i <= v.len(),
            m < i,
            forall|j: int| 0 <= j < i ==> name_le(v@[m as int]@, #[trigger] v@[j]@),
        decreases v.len() - i,
    {
        if !name_le_exec(&v[m], &v[i]) {
            proof {
                lemma_name_le_total(v@[m as int]@, v@[i as int]@);
                assert forall|j: int| 0 <= j <= i implies name_le(v@[i as int]@, #[trigger] v@[j]@) by {
                    if j < i {
                        lemma_name_le_transitive(v@[i as int]@, v@[m as int]@, v@[j]@);
                    } else {
                        lemma_name_le_reflexive(v@[j]@);
                    }
                }
            }
            m = i;
        }
        i = i + 1;
    }
    m
}

/// Sorts names into listing order.
pub fn sort_names(names: Vec<Vec<char>>) -> (r: Vec<Vec<char>>)
    ensures
        names_of(r@) == sorted_names(names_of(names@)),
{
    broadcast use vstd::seq_lib::group_to_multiset_ensures;
    broadcast use vstd::multiset::group_multiset_axioms;

    let ghost all = names_of(names@);
    let mut rest = names;
    let mut out: Vec<Vec<char>> = Vec::new();
    proof {
        assert(names_of(out@).to_multiset() =~= Multiset::empty());
        assert(names_of(out@).to_multiset().add(names_of(rest@).to_multiset()) =~= all.to_multiset());
    }
    while rest.len() > 0
        invariant
            names_of(out@).to_multiset().add(names_of(rest@).to_multiset()) == all.to_multiset(),
            sorted_by(names_of(out@), name_order()),
            forall|i: int, j: int| 0 <= i < out.len() && 0 <= j < rest.len() ==> name_le(
                #[trigger] out@[i]@,
                #[trigger] rest@[j]@,
            ),
        decreases rest.len(),
    {
        let m = index_of_least(&rest);
        let ghost before = rest@;
        let ghost out_before = out@;
        let x = rest.remove(m);
        out.push(x);
        proof {
            assert(names_of(rest@) =~= names_of(before).remove(m as int));
            assert(names_of(out@) =~= names_of(out_before).push(before[m as int]@));
            vstd::seq_lib::to_multiset_remove(names_of(before), m as int);
            vstd::seq_lib::to_multiset_contains(names_of(before), before[m as int]@);
            assert(names_of(before)[m as int] == before[m as int]@);
            assert(names_of(before).contains(before[m as int]@));
            vstd::seq_lib::to_multiset_build(names_of(out_before), before[m as int]@);
            assert(names_of(out@).to_multiset().add(names_of(rest@).to_multiset()) =~= all.to_multiset());
            assert forall|i: int, j: int| 0 <= i < j < out.len() implies #[trigger] name_order()(
                names_of(out@)[i],
                names_of(out@)[j],
            ) by {
                if j == out.len() - 1 {
                    assert(name_le(out_before[i]@, before[m as int]@));
                } else {
                    assert(name_order()(names_of(out_before)[i], names_of(out_before)[j]));
                }
            }
            assert forall|i: int, j: int| 0 <= i < out.len() && 0 <= j < rest.len() implies name_le(
                #[trigger] out@[i]@,
                #[trigger] rest@[j]@,
            ) by {
                let k = if j < m { j } else { j + 1 };
                assert(rest@[j] == before[k]);
                if i == out.len() - 1 {
                    assert(name_le(before[m as int]@, before[k]@));
                } else {
                    assert(name_le(out_before[i]@, before[k]@));
                }
            }
        }
    }
    proof {
        assert(names_of(rest@).to_multiset() =~= Multiset::empty());
        assert(names_of(out@).to_multiset() =~= all.to_multiset());
        lemma_name_order_total();
        all.lemma_sort_by_ensures(name_order());
        lemma_sorted_unique(names_of(out@), sorted_names(all), name_order());
    }
    out
}

} // verus!
