//! The order of texts, and lists sorted by it.

use vstd::prelude::*;
use vstd::relations::{sorted_by, total_ordering};

use crate::text::{chars_of, views};

verus! {

/// Texts are ordered by their first different character; a prefix comes before
/// what it begins.
pub open spec fn text_le(a: Seq<char>, b: Seq<char>) -> bool
    decreases a.len(),
{
    if a.len() == 0 {
        true
    } else if b.len() == 0 {
        false
    } else if a[0] == b[0] {
        text_le(a.drop_first(), b.drop_first())
    } else {
        (a[0] as int) < (b[0] as int)
    }
}

/// Every text is in order with itself.
pub proof fn lemma_text_le_reflexive(a: Seq<char>)
    ensures
        text_le(a, a),
    decreases a.len(),
{
    if a.len() > 0 {
        lemma_text_le_reflexive(a.drop_first());
    }
}

/// Two texts that are in order both ways are equal.
pub proof fn lemma_text_le_antisymmetric(a: Seq<char>, b: Seq<char>)
    requires
        text_le(a, b),
        text_le(b, a),
    ensures
        a == b,
    decreases a.len(),
{
    if a.len() > 0 {
        lemma_text_le_antisymmetric(a.drop_first(), b.drop_first());
        assert(a == seq![a[0]] + a.drop_first());
        assert(b == seq![b[0]] + b.drop_first());
    } else {
        assert(b.len() == 0);
        assert(a == b);
    }
}

/// The order of texts is transitive.
pub proof fn lemma_text_le_transitive(a: Seq<char>, b: Seq<char>, c: Seq<char>)
    requires
        text_le(a, b),
        text_le(b, c),
    ensures
        text_le(a, c),
    decreases a.len(),
{
    if a.len() > 0 && a[0] == b[0] && b[0] == c[0] {
        lemma_text_le_transitive(a.drop_first(), b.drop_first(), c.drop_first());
    }
}

/// Any two texts are in order one way or the other.
pub proof fn lemma_text_le_total(a: Seq<char>, b: Seq<char>)
    ensures
        text_le(a, b) || text_le(b, a),
    decreases a.len(),
{
    if a.len() > 0 && b.len() > 0 && a[0] == b[0] {
        lemma_text_le_total(a.drop_first(), b.drop_first());
    }
}

/// Whether the code of `c` is below that of `d`.
fn comes_before(c: char, d: char) -> (r: bool)
    ensures
        r == ((c as int) < (d as int)),
{
    (c as u32) < (d as u32)
}

/// Whether `a` comes no later than `b`.
pub fn in_order(a: &str, b: &str) -> (r: bool)
    ensures
        r == text_le(a@, b@),
{
    let x = chars_of(a);
    let y = chars_of(b);
    let mut i: usize = 0;
    assert(a@.skip(0) == a@);
    assert(b@.skip(0) == b@);
    while i < x.len() && i < y.len() && x[i] == y[i]
        invariant
            x@ == a@,
            y@ == b@,
            i <= x@.len(),
            i <= y@.len(),
            text_le(a@, b@) == text_le(a@.skip(i as int), b@.skip(i as int)),
        ensures
            i <= x@.len(),
            i <= y@.len(),
            i < x@.len() && i < y@.len() ==> x@[i as int] != y@[i as int],
            text_le(a@, b@) == text_le(a@.skip(i as int), b@.skip(i as int)),
        decreases x@.len() - i,
    {
        assert(a@.skip(i as int).drop_first() == a@.skip(i + 1));
        assert(b@.skip(i as int).drop_first() == b@.skip(i + 1));
        i += 1;
    }
    if i >= x.len() {
        true
    } else if i >= y.len() {
        false
    } else {
        comes_before(x[i], y[i])
    }
}

// ---------------------------------------------------------------------------
// Texts in order, each one once
// ---------------------------------------------------------------------------

/// Whether the texts stand in order, each one once.
pub open spec fn ascending(list: Seq<Seq<char>>) -> bool {
    forall|i: int, j: int|
        0 <= i < j < list.len() ==> text_le(#[trigger] list[i], #[trigger] list[j]) && list[i]
            != list[j]
}

/// The texts of `list` in order, each one once.
pub fn sort_distinct(list: &Vec<String>) -> (out: Vec<String>)
    ensures
        ascending(views(out@)),
        forall|t: Seq<char>| #[trigger] views(out@).contains(t) <==> views(list@).contains(t),
{
    let mut out: Vec<String> = Vec::new();
    let ghost all = views(list@);
    for i in 0..list.len()
        invariant
            all == views(list@),
            ascending(views(out@)),
            forall|t: Seq<char>| #[trigger]
                views(out@).contains(t) <==> all.take(i as int).contains(t),
    {
        let item = &list[i];
        let ghost t = item@;
        let ghost before = views(out@);
        let mut at: usize = out.len();
        while at > 0 && !in_order(out[at - 1].as_str(), item.as_str())
            invariant
                at <= out@.len(),
                before == views(out@),
                t == item@,
                forall|j: int| at <= j < before.len() ==> !text_le(#[trigger] before[j], t),
            ensures
                at <= out@.len(),
                at > 0 ==> text_le(before[at - 1], t),
                forall|j: int| at <= j < before.len() ==> !text_le(#[trigger] before[j], t),
            decreases at,
        {
            at -= 1;
        }
        let ghost next = all.take(i + 1);
        assert(next =~= all.take(i as int).push(t));
        assert forall|u: Seq<char>| #[trigger] next.contains(u) <==> all.take(i as int).contains(u)
            || u == t by {
            if all.take(i as int).contains(u) {
                let k = choose|k: int| 0 <= k < i && all.take(i as int)[k] == u;
                assert(next[k] == u);
            }
            if u == t {
                assert(next[i as int] == t);
            }
        }
        let known: bool = at > 0 && out[at - 1] == *item;
        if !known {
            out.insert(at, item.clone());
            proof {
                let after = views(out@);
                assert(after =~= before.insert(at as int, t));
                lemma_insert_ascending(before, at as int, t);
                assert forall|u: Seq<char>| #[trigger] after.contains(u) <==> before.contains(u)
                    || u == t by {
                    if before.contains(u) {
                        let k = choose|k: int| 0 <= k < before.len() && before[k] == u;
                        if k < at {
                            assert(after[k] == u);
                        } else {
                            assert(after[k + 1] == u);
                        }
                    }
                    if u == t {
                        assert(after[at as int] == t);
                    }
                    if after.contains(u) {
                        let k = choose|k: int| 0 <= k < after.len() && after[k] == u;
                        if k < at {
                            assert(before[k] == u);
                        } else if k > at {
                            assert(before[k - 1] == u);
                        }
                    }
                }
                assert forall|u: Seq<char>| #[trigger] after.contains(u) <==> next.contains(u) by {
                    assert(before.contains(u) <==> all.take(i as int).contains(u));
                }
            }
        } else {
            proof {
                assert(before[at - 1] == t);
                assert(before.contains(t));
                assert forall|u: Seq<char>| #[trigger] before.contains(u) <==> next.contains(u) by {
                    assert(before.contains(u) <==> all.take(i as int).contains(u));
                }
            }
        }
    }
    assert(all.take(list@.len() as int) =~= all);
    out
}

proof fn lemma_insert_ascending(list: Seq<Seq<char>>, at: int, t: Seq<char>)
    requires
        ascending(list),
        0 <= at <= list.len(),
        at > 0 ==> text_le(list[at - 1], t) && list[at - 1] != t,
        forall|j: int| at <= j < list.len() ==> !text_le(#[trigger] list[j], t),
    ensures
        ascending(list.insert(at, t)),
{
    let after = list.insert(at, t);
    assert forall|i: int, j: int| 0 <= i < j < after.len() implies text_le(
        #[trigger] after[i],
        #[trigger] after[j],
    ) && after[i] != after[j] by {
        if i == at {
            assert(after[j] == list[j - 1]);
            lemma_text_le_total(t, list[j - 1]);
            lemma_text_le_reflexive(t);
        } else if j == at {
            assert(after[i] == list[i]);
            if i < at - 1 {
                assert(text_le(list[i], list[at - 1]) && list[i] != list[at - 1]);
                lemma_text_le_transitive(list[i], list[at - 1], t);
                if list[i] == t {
                    lemma_text_le_antisymmetric(list[i], list[at - 1]);
                }
            }
        } else {
            let x = if i < at {
                i
            } else {
                i - 1
            };
            let y = if j < at {
                j
            } else {
                j - 1
            };
            assert(after[i] == list[x]);
            assert(after[j] == list[y]);
        }
    }
}

// ---------------------------------------------------------------------------
// Entries sorted by key
// ---------------------------------------------------------------------------

/// A key with its value.
pub type Pair = (Seq<char>, Seq<char>);

/// Sorted entries with one more: behind all those whose keys come no later.
pub open spec fn insert_pair(sorted: Seq<Pair>, e: Pair) -> Seq<Pair>
    decreases sorted.len(),
{
    if sorted.len() == 0 || text_le(sorted.last().0, e.0) {
        sorted.push(e)
    } else {
        insert_pair(sorted.drop_last(), e).push(sorted.last())
    }
}

/// Entries sorted by key; those with equal keys keep their order.
pub open spec fn sort_pairs(list: Seq<Pair>) -> Seq<Pair>
    decreases list.len(),
{
    if list.len() == 0 {
        list
    } else {
        insert_pair(sort_pairs(list.drop_last()), list.last())
    }
}

/// The keys and values of a list.
pub open spec fn pair_list(list: Seq<(String, String)>) -> Seq<Pair> {
    Seq::new(list.len(), |i: int| (list[i].0@, list[i].1@))
}

/// Pairs ordered by key, then by value.
pub open spec fn pair_le(a: Pair, b: Pair) -> bool {
    if a.0 == b.0 {
        text_le(a.1, b.1)
    } else {
        text_le(a.0, b.0)
    }
}

proof fn lemma_insert_pair_at(sorted: Seq<Pair>, e: Pair, at: int)
    requires
        0 <= at <= sorted.len(),
        at > 0 ==> text_le(sorted[at - 1].0, e.0),
        forall|j: int| at <= j < sorted.len() ==> !text_le(#[trigger] sorted[j].0, e.0),
    ensures
        insert_pair(sorted, e) == sorted.insert(at, e),
    decreases sorted.len(),
{
    if at == sorted.len() {
        assert(sorted.insert(at, e) =~= sorted.push(e));
    } else {
        assert(!text_le(sorted[sorted.len() - 1].0, e.0));
        let rest = sorted.drop_last();
        assert forall|j: int| at <= j < rest.len() implies !text_le(#[trigger] rest[j].0, e.0) by {
            assert(rest[j] == sorted[j]);
        }
        lemma_insert_pair_at(rest, e, at);
        assert(rest.insert(at, e).push(sorted.last()) =~= sorted.insert(at, e));
    }
}

/// Sorts entries by key.
pub fn sorted_pairs(list: &Vec<(String, String)>) -> (out: Vec<(String, String)>)
    ensures
        pair_list(out@) == sort_pairs(pair_list(list@)),
{
    let mut out: Vec<(String, String)> = Vec::new();
    assert(pair_list(out@) =~= sort_pairs(pair_list(list@).take(0)));
    for i in 0..list.len()
        invariant
            pair_list(out@) == sort_pairs(pair_list(list@).take(i as int)),
            out@.len() == i,
    {
        let key: String = list[i].0.clone();
        let value: String = list[i].1.clone();
        let ghost e = (key@, value@);
        let ghost before = pair_list(out@);
        let mut at: usize = out.len();
        while at > 0 && !in_order(out[at - 1].0.as_str(), key.as_str())
            invariant
                at <= out@.len(),
                before == pair_list(out@),
                e.0 == key@,
                forall|j: int| at <= j < before.len() ==> !text_le(#[trigger] before[j].0, e.0),
            ensures
                at <= out@.len(),
                at > 0 ==> text_le(before[at - 1].0, e.0),
                forall|j: int| at <= j < before.len() ==> !text_le(#[trigger] before[j].0, e.0),
            decreases at,
        {
            at -= 1;
        }
        out.insert(at, (key, value));
        proof {
            lemma_insert_pair_at(before, e, at as int);
            assert(pair_list(out@) =~= before.insert(at as int, e));
            let next = pair_list(list@).take(i + 1);
            assert(next.drop_last() =~= pair_list(list@).take(i as int));
            assert(next.last() == e);
        }
    }
    assert(pair_list(list@).take(list@.len() as int) =~= pair_list(list@));
    out
}

/// Whether no key comes twice.
pub open spec fn distinct_keys(list: Seq<Pair>) -> bool {
    forall|i: int, j: int|
        0 <= i < list.len() && 0 <= j < list.len() && i != j ==> (#[trigger] list[i]).0 != (
        #[trigger] list[j]).0
}

proof fn lemma_insert_pair(sorted: Seq<Pair>, e: Pair)
    requires
        sorted_by(sorted, |a: Pair, b: Pair| pair_le(a, b)),
        distinct_keys(sorted),
        forall|i: int| 0 <= i < sorted.len() ==> (#[trigger] sorted[i]).0 != e.0,
    ensures
        sorted_by(insert_pair(sorted, e), |a: Pair, b: Pair| pair_le(a, b)),
        insert_pair(sorted, e).to_multiset() == sorted.to_multiset().insert(e),
        distinct_keys(insert_pair(sorted, e)),
    decreases sorted.len(),
{
    broadcast use vstd::seq_lib::group_to_multiset_ensures;

    let leq = |a: Pair, b: Pair| pair_le(a, b);
    let out = insert_pair(sorted, e);
    if sorted.len() == 0 || text_le(sorted.last().0, e.0) {
        assert forall|i: int, j: int| 0 <= i < j < out.len() implies #[trigger] leq(
            out[i],
            out[j],
        ) by {
            if j == sorted.len() {
                assert(leq(sorted[i], sorted.last()) || i == sorted.len() - 1);
                assert(sorted[i].0 != e.0);
                lemma_text_le_reflexive(sorted[i].0);
                lemma_text_le_transitive(sorted[i].0, sorted.last().0, e.0);
            } else {
                assert(leq(sorted[i], sorted[j]));
            }
        }
    } else {
        let rest = sorted.drop_last();
        let last = sorted.last();
        assert forall|i: int, j: int| 0 <= i < j < rest.len() implies #[trigger] leq(
            rest[i],
            rest[j],
        ) by {
            assert(leq(sorted[i], sorted[j]));
        }
        lemma_insert_pair(rest, e);
        let inner = insert_pair(rest, e);
        assert(sorted =~= rest.push(last));
        assert(out.to_multiset() =~= sorted.to_multiset().insert(e));
        assert forall|i: int| 0 <= i < inner.len() implies #[trigger] leq(inner[i], last) && inner[
            i
        ].0 != last.0 by {
            assert(inner.to_multiset().contains(inner[i]));
            if inner[i] == e {
                lemma_text_le_total(e.0, last.0);
            } else {
                assert(rest.to_multiset().contains(inner[i]));
                assert(rest.contains(inner[i]));
                let k = choose|k: int| 0 <= k < rest.len() && rest[k] == inner[i];
                assert(leq(sorted[k], sorted[sorted.len() - 1]));
                assert(sorted[k].0 != sorted[sorted.len() - 1].0);
            }
        }
        assert forall|i: int, j: int| 0 <= i < j < out.len() implies #[trigger] leq(
            out[i],
            out[j],
        ) by {
            if j == inner.len() {
                assert(leq(inner[i], last));
            } else {
                assert(leq(inner[i], inner[j]));
            }
        }
        assert forall|i: int, j: int|
            0 <= i < out.len() && 0 <= j < out.len() && i != j implies (#[trigger] out[i]).0 != (
        #[trigger] out[j]).0 by {
            if i == inner.len() {
                assert(leq(inner[j], last));
            } else if j == inner.len() {
                assert(leq(inner[i], last));
            } else {
                assert(inner[i].0 != inner[j].0);
            }
        }
    }
}

proof fn lemma_sort_pairs(list: Seq<Pair>)
    requires
        distinct_keys(list),
    ensures
        sorted_by(sort_pairs(list), |a: Pair, b: Pair| pair_le(a, b)),
        sort_pairs(list).to_multiset() == list.to_multiset(),
        distinct_keys(sort_pairs(list)),
    decreases list.len(),
{
    broadcast use vstd::seq_lib::group_to_multiset_ensures;

    if list.len() > 0 {
        let rest = list.drop_last();
        assert forall|i: int, j: int|
            0 <= i < rest.len() && 0 <= j < rest.len() && i != j implies (#[trigger] rest[i]).0 != (
        #[trigger] rest[j]).0 by {
            assert(list[i].0 != list[j].0);
        }
        lemma_sort_pairs(rest);
        let sorted = sort_pairs(rest);
        assert forall|i: int| 0 <= i < sorted.len() implies (#[trigger] sorted[i]).0
            != list.last().0 by {
            assert(sorted.to_multiset().contains(sorted[i]));
            assert(rest.contains(sorted[i]));
            let k = choose|k: int| 0 <= k < rest.len() && rest[k] == sorted[i];
            assert(list[k].0 != list[list.len() - 1].0);
        }
        lemma_insert_pair(sorted, list.last());
        assert(list =~= rest.push(list.last()));
    }
}

proof fn lemma_pair_order()
    ensures
        total_ordering(|a: Pair, b: Pair| pair_le(a, b)),
{
    let leq = |a: Pair, b: Pair| pair_le(a, b);
    assert forall|a: Pair| #[trigger] leq(a, a) by {
        lemma_text_le_reflexive(a.1);
    }
    assert forall|a: Pair, b: Pair| #[trigger] leq(a, b) && #[trigger] leq(b, a) implies a == b by {
        if a.0 == b.0 {
            lemma_text_le_antisymmetric(a.1, b.1);
        } else {
            lemma_text_le_antisymmetric(a.0, b.0);
        }
    }
    assert forall|a: Pair, b: Pair, c: Pair| #[trigger] leq(a, b) && #[trigger] leq(
        b,
        c,
    ) implies leq(a, c) by {
        if a.0 == b.0 && b.0 == c.0 {
            lemma_text_le_transitive(a.1, b.1, c.1);
        } else if a.0 != b.0 && b.0 != c.0 {
            lemma_text_le_transitive(a.0, b.0, c.0);
            if a.0 == c.0 {
                lemma_text_le_antisymmetric(a.0, b.0);
            }
        }
    }
    assert forall|a: Pair, b: Pair| #[trigger] leq(a, b) || #[trigger] leq(b, a) by {
        lemma_text_le_total(a.0, b.0);
        lemma_text_le_total(a.1, b.1);
    }
}

/// Two lists with the same entries and no repeated key sort to the same list,
/// whatever order their entries came in.
pub proof fn law_sorting_forgets_order(a: Seq<Pair>, b: Seq<Pair>)
    requires
        a.to_multiset() == b.to_multiset(),
        distinct_keys(a),
        distinct_keys(b),
    ensures
        sort_pairs(a) == sort_pairs(b),
{
    lemma_sort_pairs(a);
    lemma_sort_pairs(b);
    lemma_pair_order();
    vstd::seq_lib::lemma_sorted_unique(
        sort_pairs(a),
        sort_pairs(b),
        |x: Pair, y: Pair| pair_le(x, y),
    );
}

} // verus!
