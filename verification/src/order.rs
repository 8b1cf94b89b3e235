//! Ordering by name: what makes the generated output the same on every run.
//!
//! A list of names is ordered by a stable insertion sort over the
//! lexicographic order of the names. The outcome is stated as a list of
//! indices into the names.

use crate::text::{text_before_or_equal, text_le, views};
use vstd::prelude::*;
use vstd::relations::{sorted_by, total_ordering};

verus! {

/// The order `order` with the index `x` put in its place: behind the last
/// index whose name comes before that of `x` or equals it.
pub open spec fn inserted(order: Seq<int>, names: Seq<Seq<char>>, x: int) -> Seq<int>
    decreases order.len(),
{
    if order.len() == 0 {
        seq![x]
    } else if text_le(names[order.last()], names[x]) {
        order.push(x)
    } else {
        inserted(order.drop_last(), names, x).push(order.last())
    }
}

/// The first `n` indices of `names`, ordered by name; indices of equal names
/// keep their order.
pub open spec fn ordered(names: Seq<Seq<char>>, n: int) -> Seq<int>
    decreases n,
{
    if n <= 0 {
        Seq::empty()
    } else {
        inserted(ordered(names, n - 1), names, n - 1)
    }
}

/// Whether the names come in lexicographic order along `order`.
pub open spec fn in_order(order: Seq<int>, names: Seq<Seq<char>>) -> bool {
    forall|i: int, j: int|
        0 <= i <= j < order.len() ==> text_le(
            names[#[trigger] order[i]],
            names[#[trigger] order[j]],
        )
}

/// Whether every index of `order` is an index into a list of length `n`.
pub open spec fn within(order: Seq<int>, n: int) -> bool {
    forall|i: int| 0 <= i < order.len() ==> 0 <= #[trigger] order[i] < n
}

/// Every text comes before itself or equals it.
pub proof fn lemma_text_le_reflexive(a: Seq<char>)
    ensures
        text_le(a, a),
    decreases a.len(),
{
    if a.len() > 0 {
        lemma_text_le_reflexive(a.drop_first());
    }
}

/// Of two texts one comes before the other or equals it.
pub proof fn lemma_text_le_total(a: Seq<char>, b: Seq<char>)
    ensures
        text_le(a, b) || text_le(b, a),
    decreases a.len(),
{
    if a.len() > 0 && b.len() > 0 && a[0] == b[0] {
        lemma_text_le_total(a.drop_first(), b.drop_first());
    }
}

/// The lexicographic order is transitive.
pub proof fn lemma_text_le_transitive(a: Seq<char>, b: Seq<char>, c: Seq<char>)
    requires
        text_le(a, b),
        text_le(b, c),
    ensures
        text_le(a, c),
    decreases a.len(),
{
    if a.len() > 0 && b.len() > 0 && c.len() > 0 {
        if a[0] == b[0] && b[0] == c[0] {
            lemma_text_le_transitive(a.drop_first(), b.drop_first(), c.drop_first());
        }
    }
}

/// Where the index is put: behind `p` indices, if the names of all later ones
/// come strictly after and the name just before does not.
pub proof fn lemma_inserted_at(order: Seq<int>, names: Seq<Seq<char>>, x: int, p: int)
    requires
        0 <= p <= order.len(),
        forall|j: int| p <= j < order.len() ==> !text_le(names[#[trigger] order[j]], names[x]),
        p > 0 ==> text_le(names[order[p - 1]], names[x]),
    ensures
        inserted(order, names, x) == order.subrange(0, p).push(x) + order.subrange(
            p,
            order.len() as int,
        ),
    decreases order.len(),
{
    if order.len() == 0 {
        assert(inserted(order, names, x) =~= order.subrange(0, p).push(x) + order.subrange(
            p,
            order.len() as int,
        ));
    } else if p == order.len() {
        assert(order.subrange(0, p) =~= order);
        assert(inserted(order, names, x) =~= order.subrange(0, p).push(x) + order.subrange(
            p,
            order.len() as int,
        ));
    } else {
        let head = order.drop_last();
        assert(!text_le(names[order[order.len() - 1]], names[x]));
        assert forall|j: int| p <= j < head.len() implies !text_le(
            names[#[trigger] head[j]],
            names[x],
        ) by {
            assert(head[j] == order[j]);
        }
        if p > 0 {
            assert(head[p - 1] == order[p - 1]);
        }
        lemma_inserted_at(head, names, x, p);
        assert(head.subrange(0, p) =~= order.subrange(0, p));
        assert(inserted(order, names, x) =~= order.subrange(0, p).push(x) + order.subrange(
            p,
            order.len() as int,
        ));
    }
}

/// Putting an index into an order keeps the names in order.
pub proof fn lemma_inserted_in_order(order: Seq<int>, names: Seq<Seq<char>>, x: int)
    requires
        in_order(order, names),
    ensures
        in_order(inserted(order, names, x), names),
        inserted(order, names, x).len() == order.len() + 1,
        forall|i: int|
            0 <= i < order.len() + 1 ==> (#[trigger] inserted(order, names, x)[i]) == x || exists|
                j: int,
            |
                0 <= j < order.len() && order[j] == inserted(order, names, x)[i],
    decreases order.len(),
{
    let out = inserted(order, names, x);
    if order.len() == 0 {
        lemma_text_le_reflexive(names[x]);
    } else if text_le(names[order.last()], names[x]) {
        assert forall|i: int, j: int| 0 <= i <= j < out.len() implies text_le(
            names[#[trigger] out[i]],
            names[#[trigger] out[j]],
        ) by {
            if j == order.len() {
                if i == order.len() {
                    lemma_text_le_reflexive(names[x]);
                } else {
                    assert(out[i] == order[i]);
                    assert(text_le(names[order[i]], names[order[order.len() - 1]]));
                    lemma_text_le_transitive(names[order[i]], names[order.last()], names[x]);
                }
            } else {
                assert(out[i] == order[i] && out[j] == order[j]);
            }
        }
        assert forall|i: int| 0 <= i < order.len() + 1 implies (#[trigger] out[i]) == x || exists|
            j: int,
        |
            0 <= j < order.len() && order[j] == out[i] by {
            if i < order.len() {
                assert(order[i] == out[i]);
            }
        }
    } else {
        let head = order.drop_last();
        assert(in_order(head, names)) by {
            assert forall|i: int, j: int| 0 <= i <= j < head.len() implies text_le(
                names[#[trigger] head[i]],
                names[#[trigger] head[j]],
            ) by {
                assert(head[i] == order[i] && head[j] == order[j]);
            }
        }
        lemma_inserted_in_order(head, names, x);
        let inner = inserted(head, names, x);
        lemma_text_le_total(names[order.last()], names[x]);
        assert forall|i: int, j: int| 0 <= i <= j < out.len() implies text_le(
            names[#[trigger] out[i]],
            names[#[trigger] out[j]],
        ) by {
            if j == out.len() - 1 {
                if i == j {
                    lemma_text_le_reflexive(names[order.last()]);
                } else {
                    assert(out[i] == inner[i]);
                    if inner[i] == x {
                    } else {
                        let k = choose|k: int| 0 <= k < head.len() && head[k] == inner[i];
                        assert(head[k] == order[k]);
                        assert(text_le(names[order[k]], names[order[order.len() - 1]]));
                    }
                }
            } else {
                assert(out[i] == inner[i] && out[j] == inner[j]);
            }
        }
        assert forall|i: int| 0 <= i < order.len() + 1 implies (#[trigger] out[i]) == x || exists|
            j: int,
        |
            0 <= j < order.len() && order[j] == out[i] by {
            if i == out.len() - 1 {
                assert(order[order.len() - 1] == out[i]);
            } else {
                assert(out[i] == inner[i]);
                if inner[i] != x {
                    let k = choose|k: int| 0 <= k < head.len() && head[k] == inner[i];
                    assert(order[k] == out[i]);
                }
            }
        }
    }
}

/// The order by name lists `n` indices below `n`, and the names come in
/// lexicographic order along it.
pub proof fn lemma_ordered_is_sorted(names: Seq<Seq<char>>, n: int)
    requires
        0 <= n <= names.len(),
    ensures
        ordered(names, n).len() == n,
        within(ordered(names, n), n),
        in_order(ordered(names, n), names),
    decreases n,
{
    if n > 0 {
        lemma_ordered_is_sorted(names, n - 1);
        lemma_inserted_in_order(ordered(names, n - 1), names, n - 1);
        let before = ordered(names, n - 1);
        let out = ordered(names, n);
        assert forall|i: int| 0 <= i < out.len() implies 0 <= #[trigger] out[i] < n by {
            if out[i] != n - 1 {
                let j = choose|j: int| 0 <= j < before.len() && before[j] == out[i];
                assert(0 <= before[j] < n - 1);
            }
        }
    }
}

/// The names of `names` along `order`.
pub open spec fn along(names: Seq<Seq<char>>, order: Seq<int>) -> Seq<Seq<char>> {
    Seq::new(order.len(), |i: int| names[order[i]])
}

/// The names in the order by name.
pub open spec fn sorted_names(names: Seq<Seq<char>>) -> Seq<Seq<char>> {
    along(names, ordered(names, names.len() as int))
}

/// The first `n` indices, each once and in order.
pub open spec fn first_indices(n: int) -> Seq<int> {
    Seq::new(n as nat, |i: int| i)
}

/// The lexicographic order as a relation.
pub open spec fn by_text() -> spec_fn(Seq<char>, Seq<char>) -> bool {
    |a: Seq<char>, b: Seq<char>| text_le(a, b)
}

/// Two texts of which each comes before the other or equals it are equal.
pub proof fn lemma_text_le_antisymmetric(a: Seq<char>, b: Seq<char>)
    requires
        text_le(a, b),
        text_le(b, a),
    ensures
        a == b,
    decreases a.len(),
{
    if a.len() > 0 {
        lemma_text_le_antisymmetric(a.drop_first(), b.drop_first());
        assert(a =~= seq![a[0]] + a.drop_first());
        assert(b =~= seq![b[0]] + b.drop_first());
    }
    assert(a =~= b);
}

/// The lexicographic order is a total order.
pub proof fn lemma_text_order_is_total()
    ensures
        total_ordering(by_text()),
{
    let le = by_text();
    assert forall|a: Seq<char>| #[trigger] le(a, a) by {
        lemma_text_le_reflexive(a);
    }
    assert forall|a: Seq<char>, b: Seq<char>| #[trigger] le(a, b) && #[trigger] le(b, a) implies a
        == b by {
        lemma_text_le_antisymmetric(a, b);
    }
    assert forall|a: Seq<char>, b: Seq<char>, c: Seq<char>| #[trigger]
        le(a, b) && #[trigger] le(b, c) implies le(a, c) by {
        lemma_text_le_transitive(a, b, c);
    }
    assert forall|a: Seq<char>, b: Seq<char>| #[trigger] le(a, b) || #[trigger] le(b, a) by {
        lemma_text_le_total(a, b);
    }
}

/// Putting an index into an order adds that index, and its name, once:
/// nothing else comes or goes.
pub proof fn lemma_inserted_holds(order: Seq<int>, names: Seq<Seq<char>>, x: int)
    ensures
        inserted(order, names, x).to_multiset() == order.to_multiset().insert(x),
        along(names, inserted(order, names, x)).to_multiset() == along(
            names,
            order,
        ).to_multiset().insert(names[x]),
    decreases order.len(),
{
    broadcast use vstd::seq_lib::group_to_multiset_ensures;

    let out = inserted(order, names, x);
    if order.len() == 0 || text_le(names[order.last()], names[x]) {
        assert(out =~= order.push(x));
        assert(along(names, out) =~= along(names, order).push(names[x]));
    } else {
        let head = order.drop_last();
        let inner = inserted(head, names, x);
        lemma_inserted_holds(head, names, x);
        assert(order =~= head.push(order.last()));
        assert(along(names, order) =~= along(names, head).push(names[order.last()]));
        assert(along(names, out) =~= along(names, inner).push(names[order.last()]));
        assert(out.to_multiset() =~= order.to_multiset().insert(x));
        assert(along(names, out).to_multiset() =~= along(names, order).to_multiset().insert(
            names[x],
        ));
    }
}

/// The order by name is a permutation: every one of the first `n` indices
/// stands in it once, so no name is lost and none is doubled.
pub proof fn lemma_ordered_is_permutation(names: Seq<Seq<char>>, n: int)
    requires
        0 <= n <= names.len(),
    ensures
        ordered(names, n).to_multiset() == first_indices(n).to_multiset(),
        along(names, ordered(names, n)).to_multiset() == names.subrange(0, n).to_multiset(),
    decreases n,
{
    broadcast use vstd::seq_lib::group_to_multiset_ensures;

    if n > 0 {
        lemma_ordered_is_permutation(names, n - 1);
        lemma_inserted_holds(ordered(names, n - 1), names, n - 1);
        assert(first_indices(n) =~= first_indices(n - 1).push(n - 1));
        assert(names.subrange(0, n) =~= names.subrange(0, n - 1).push(names[n - 1]));
    } else {
        assert(ordered(names, n) =~= first_indices(n));
        assert(along(names, ordered(names, n)) =~= names.subrange(0, n));
    }
}

/// The order in which names go in does not show in the order in which they
/// come out: two lists that hold the same names, each as often as the other,
/// give the same ordered list.
pub proof fn lemma_input_order_does_not_show(a: Seq<Seq<char>>, b: Seq<Seq<char>>)
    requires
        a.to_multiset() == b.to_multiset(),
    ensures
        sorted_names(a) == sorted_names(b),
{
    lemma_sorted_names(a);
    lemma_sorted_names(b);
    lemma_text_order_is_total();
    vstd::seq_lib::lemma_sorted_unique(sorted_names(a), sorted_names(b), by_text());
}

/// The names in the order by name are the names that went in, and they come
/// in lexicographic order.
pub proof fn lemma_sorted_names(a: Seq<Seq<char>>)
    ensures
        sorted_names(a).to_multiset() == a.to_multiset(),
        sorted_names(a).len() == a.len(),
        sorted_by(sorted_names(a), by_text()),
{
    let n = a.len() as int;
    let order = ordered(a, n);
    lemma_ordered_is_sorted(a, n);
    lemma_ordered_is_permutation(a, n);
    assert(a.subrange(0, n) =~= a);
    let out = sorted_names(a);
    assert forall|i: int, j: int| 0 <= i < j < out.len() implies #[trigger] by_text()(
        out[i],
        out[j],
    ) by {
        assert(text_le(a[order[i]], a[order[j]]));
    }
}

/// The indices of `v` as integers.
pub open spec fn indices(v: Seq<usize>) -> Seq<int> {
    Seq::new(v.len(), |i: int| v[i] as int)
}

/// The indices of `names`, ordered by name; indices of equal names keep
/// their order.
pub fn sort_order(names: &Vec<String>) -> (r: Vec<usize>)
    ensures
        indices(r@) == ordered(views(names@), names@.len() as int),
        r@.len() == names@.len(),
        within(indices(r@), names@.len() as int),
        in_order(indices(r@), views(names@)),
{
    let mut out: Vec<usize> = Vec::new();
    let mut n: usize = 0;
    let ghost all = views(names@);
    assert(indices(out@) =~= ordered(all, 0));
    while n < names.len()
        invariant
            n <= names@.len(),
            all == views(names@),
            indices(out@) == ordered(all, n as int),
            out@.len() == n,
            forall|i: int| 0 <= i < out@.len() ==> out@[i] < n,
        decreases names@.len() - n,
    {
        let ghost order = indices(out@);
        let mut p: usize = out.len();
        while p > 0 && !text_before_or_equal(names[out[p - 1]].as_str(), names[n].as_str())
            invariant
                p <= out@.len(),
                n < names@.len(),
                all == views(names@),
                order == indices(out@),
                forall|i: int| 0 <= i < out@.len() ==> out@[i] < n,
                forall|j: int|
                    p <= j < out@.len() ==> !text_le(all[#[trigger] order[j]], all[n as int]),
            decreases p,
        {
            p -= 1;
        }
        proof {
            if p > 0 {
                assert(order[p - 1] == out@[p - 1] as int);
            }
            lemma_inserted_at(order, all, n as int, p as int);
        }
        out.insert(p, n);
        assert(indices(out@) =~= order.subrange(0, p as int).push(n as int) + order.subrange(
            p as int,
            order.len() as int,
        ));
        n += 1;
    }
    proof {
        lemma_ordered_is_sorted(all, names@.len() as int);
    }
    out
}

} // verus!
