use crate::target::{
    distinct_identities, key_lt, lemma_key_lt_irreflexive, lemma_key_lt_total,
    lemma_key_lt_transitive, lemma_key_order_chains, TestTarget, TestTargetView,
};
use vstd::multiset::Multiset;
use vstd::prelude::*;

verus! {

/// A list is in order when no target comes before one that stands earlier.
pub open spec fn in_order(s: Seq<TestTargetView>) -> bool {
    forall|i: int, j: int|
        0 <= i < j < s.len() ==> !key_lt(#[trigger] s[j].identity(), #[trigger] s[i].identity())
}

/// `t` put into `s` behind the leading targets that come before it.
pub open spec fn place(t: TestTargetView, s: Seq<TestTargetView>) -> Seq<TestTargetView>
    decreases s.len(),
{
    if s.len() > 0 && key_lt(s[0].identity(), t.identity()) {
        seq![s[0]] + place(t, s.drop_first())
    } else {
        seq![t] + s
    }
}

/// The list in execution order. Targets with equal keys keep the order in
/// which they were given.
pub open spec fn sorted_targets(s: Seq<TestTargetView>) -> Seq<TestTargetView>
    decreases s.len(),
{
    if s.len() == 0 {
        s
    } else {
        place(s[0], sorted_targets(s.drop_first()))
    }
}

/// `place` puts `t` at the first position whose target does not come before it.
pub proof fn lemma_place_is_insert(t: TestTargetView, s: Seq<TestTargetView>, p: int)
    requires
        0 <= p <= s.len(),
        forall|i: int| 0 <= i < p ==> key_lt(#[trigger] s[i].identity(), t.identity()),
        p < s.len() ==> !key_lt(s[p].identity(), t.identity()),
    ensures
        place(t, s) == s.insert(p, t),
    decreases p,
{
    if p == 0 {
        assert(seq![t] + s =~= s.insert(0, t));
    } else {
        let rest = s.drop_first();
        assert forall|i: int| 0 <= i < p - 1 implies key_lt(
            #[trigger] rest[i].identity(),
            t.identity(),
        ) by {
            assert(rest[i] == s[i + 1]);
        }
        lemma_place_is_insert(t, rest, p - 1);
        assert(seq![s[0]] + rest.insert(p - 1, t) =~= s.insert(p, t));
    }
}

/// Placing a target adds it once and keeps the others.
pub proof fn lemma_place_permutes(t: TestTargetView, s: Seq<TestTargetView>)
    ensures
        place(t, s).to_multiset() == s.to_multiset().insert(t),
        place(t, s).len() == s.len() + 1,
    decreases s.len(),
{
    broadcast use vstd::seq_lib::group_to_multiset_ensures;

    if s.len() > 0 && key_lt(s[0].identity(), t.identity()) {
        let rest = s.drop_first();
        lemma_place_permutes(t, rest);
        vstd::seq_lib::lemma_multiset_commutative(seq![s[0]], place(t, rest));
        vstd::seq_lib::lemma_multiset_commutative(seq![s[0]], rest);
        assert(seq![s[0]] + rest =~= s);
        assert(place(t, s).to_multiset() =~= s.to_multiset().insert(t));
    } else {
        vstd::seq_lib::lemma_multiset_commutative(seq![t], s);
        assert(seq![t].to_multiset() =~= Multiset::empty().insert(t)) by {
            assert(seq![t] =~= Seq::<TestTargetView>::empty().push(t));
        }
        assert(place(t, s).to_multiset() =~= s.to_multiset().insert(t));
    }
}

/// Placing a target into a list in order leaves it in order.
pub proof fn lemma_place_in_order(t: TestTargetView, s: Seq<TestTargetView>)
    requires
        in_order(s),
    ensures
        in_order(place(t, s)),
    decreases s.len(),
{
    let r = place(t, s);
    if s.len() > 0 && key_lt(s[0].identity(), t.identity()) {
        let rest = s.drop_first();
        assert forall|i: int, j: int| 0 <= i < j < rest.len() implies !key_lt(
            #[trigger] rest[j].identity(),
            #[trigger] rest[i].identity(),
        ) by {
            assert(rest[i] == s[i + 1] && rest[j] == s[j + 1]);
        }
        lemma_place_in_order(t, rest);
        lemma_place_permutes(t, rest);
        let tail = place(t, rest);
        assert forall|i: int, j: int| 0 <= i < j < r.len() implies !key_lt(
            #[trigger] r[j].identity(),
            #[trigger] r[i].identity(),
        ) by {
            if i == 0 {
                // every target of `tail` is `t` or stands in `rest`
                broadcast use vstd::seq_lib::group_to_multiset_ensures;

                assert(r[j] == tail[j - 1]);
                assert(tail.contains(tail[j - 1]));
                assert(tail.to_multiset().count(r[j]) > 0);
                if r[j] == t {
                    if key_lt(t.identity(), s[0].identity()) {
                        lemma_key_lt_transitive(s[0].identity(), t.identity(), s[0].identity());
                        lemma_key_lt_irreflexive(s[0].identity());
                    }
                } else {
                    assert(rest.to_multiset().count(r[j]) > 0);
                    assert(rest.contains(r[j]));
                    let k = choose|k: int| 0 <= k < rest.len() && rest[k] == r[j];
                    assert(s[k + 1] == r[j]);
                }
            } else {
                assert(r[i] == tail[i - 1] && r[j] == tail[j - 1]);
            }
        }
    } else {
        assert forall|i: int, j: int| 0 <= i < j < r.len() implies !key_lt(
            #[trigger] r[j].identity(),
            #[trigger] r[i].identity(),
        ) by {
            if i == 0 {
                assert(r[j] == s[j - 1]);
                if j - 1 > 0 {
                    lemma_key_order_chains(t.identity(), s[0].identity(), s[j - 1].identity());
                }
            } else {
                assert(r[i] == s[i - 1] && r[j] == s[j - 1]);
            }
        }
    }
}

/// The execution order is in order and holds the given targets, each as often
/// as it was given.
pub proof fn lemma_sorted_targets(s: Seq<TestTargetView>)
    ensures
        in_order(sorted_targets(s)),
        sorted_targets(s).to_multiset() == s.to_multiset(),
        sorted_targets(s).len() == s.len(),
    decreases s.len(),
{
    broadcast use vstd::seq_lib::group_to_multiset_ensures;

    if s.len() > 0 {
        let rest = s.drop_first();
        lemma_sorted_targets(rest);
        lemma_place_in_order(s[0], sorted_targets(rest));
        lemma_place_permutes(s[0], sorted_targets(rest));
        vstd::seq_lib::lemma_multiset_commutative(seq![s[0]], rest);
        assert(seq![s[0]] + rest =~= s);
        assert(seq![s[0]].to_multiset() =~= Multiset::empty().insert(s[0])) by {
            assert(seq![s[0]] =~= Seq::<TestTargetView>::empty().push(s[0]));
        }
        assert(sorted_targets(s).to_multiset() =~= s.to_multiset());
    }
}

/// A list that is in order is its own execution order.
pub proof fn lemma_sorted_targets_fixes_ordered(s: Seq<TestTargetView>)
    requires
        in_order(s),
    ensures
        sorted_targets(s) == s,
    decreases s.len(),
{
    if s.len() > 0 {
        let rest = s.drop_first();
        assert forall|i: int, j: int| 0 <= i < j < rest.len() implies !key_lt(
            #[trigger] rest[j].identity(),
            #[trigger] rest[i].identity(),
        ) by {
            assert(rest[i] == s[i + 1] && rest[j] == s[j + 1]);
        }
        lemma_sorted_targets_fixes_ordered(rest);
        if rest.len() > 0 {
            assert(rest[0] == s[1]);
        }
        assert(seq![s[0]] + rest =~= s);
    }
}

/// A list that holds the same targets as one whose targets all have an
/// identity of their own is such a list too.
pub proof fn lemma_permutation_keeps_identities_distinct(
    s: Seq<TestTargetView>,
    r: Seq<TestTargetView>,
)
    requires
        distinct_identities(s),
        s.to_multiset() == r.to_multiset(),
    ensures
        distinct_identities(r),
{
    broadcast use vstd::seq_lib::group_to_multiset_ensures;

    assert(s.no_duplicates()) by {
        assert forall|i: int, j: int| 0 <= i < s.len() && 0 <= j < s.len() && i != j implies s[i]
            != s[j] by {
            if i < j {
                assert(s[i].identity() != s[j].identity());
            } else {
                assert(s[j].identity() != s[i].identity());
            }
        }
    }
    s.lemma_multiset_has_no_duplicates();
    r.lemma_multiset_has_no_duplicates_conv();
    assert forall|i: int, j: int| 0 <= i < j < r.len() implies (#[trigger] r[i]).identity() != (
    #[trigger] r[j]).identity() by {
        assert(r[i] != r[j]);
        assert(r.contains(r[i]) && r.contains(r[j]));
        assert(r.to_multiset().count(r[i]) > 0 && r.to_multiset().count(r[j]) > 0);
        assert(s.contains(r[i]) && s.contains(r[j]));
        let a = choose|a: int| 0 <= a < s.len() && s[a] == r[i];
        let b = choose|b: int| 0 <= b < s.len() && s[b] == r[j];
        if a < b {
            assert(s[a].identity() != s[b].identity());
        } else {
            assert(s[b].identity() != s[a].identity());
        }
    }
}

/// Sorting keeps the targets apart: where every given target has an
/// identity of its own, so has every target of the execution order.
pub proof fn lemma_sorting_keeps_identities_distinct(s: Seq<TestTargetView>)
    requires
        distinct_identities(s),
    ensures
        distinct_identities(sorted_targets(s)),
{
    lemma_sorted_targets(s);
    lemma_permutation_keeps_identities_distinct(s, sorted_targets(s));
}

/// Two lists in order that hold the same targets, each with an identity of
/// its own, are the same list.
pub proof fn lemma_order_is_unique(x: Seq<TestTargetView>, y: Seq<TestTargetView>)
    requires
        in_order(x),
        in_order(y),
        distinct_identities(x),
        x.to_multiset() == y.to_multiset(),
    ensures
        x == y,
    decreases x.len(),
{
    broadcast use vstd::seq_lib::group_to_multiset_ensures;

    assert(x.len() == x.to_multiset().len() && y.len() == y.to_multiset().len());
    if x.len() == 0 {
        assert(x =~= y);
    } else {
        assert(x.contains(x[0]) && y.contains(y[0]));
        assert(y.to_multiset().count(x[0]) > 0 && x.to_multiset().count(y[0]) > 0);
        assert(y.contains(x[0]) && x.contains(y[0]));
        let k = choose|k: int| 0 <= k < y.len() && y[k] == x[0];
        let m = choose|m: int| 0 <= m < x.len() && x[m] == y[0];
        if k > 0 && m > 0 {
            assert(!key_lt(y[k].identity(), y[0].identity()));
            assert(!key_lt(x[m].identity(), x[0].identity()));
            if x[0].identity() != y[0].identity() {
                lemma_key_lt_total(x[0].identity(), y[0].identity());
            }
            assert(x[0].identity() != x[m].identity());
        }
        assert(x[0] == y[0]);
        let (xs, ys) = (x.drop_first(), y.drop_first());
        assert(xs =~= x.remove(0) && ys =~= y.remove(0));
        assert(xs.to_multiset() =~= ys.to_multiset());
        assert forall|i: int, j: int| 0 <= i < j < xs.len() implies !key_lt(
            #[trigger] xs[j].identity(),
            #[trigger] xs[i].identity(),
        ) && xs[i].identity() != xs[j].identity() by {
            assert(xs[i] == x[i + 1] && xs[j] == x[j + 1]);
        }
        assert forall|i: int, j: int| 0 <= i < j < ys.len() implies !key_lt(
            #[trigger] ys[j].identity(),
            #[trigger] ys[i].identity(),
        ) by {
            assert(ys[i] == y[i + 1] && ys[j] == y[j + 1]);
        }
        lemma_order_is_unique(xs, ys);
        assert(x =~= seq![x[0]] + xs);
        assert(y =~= seq![y[0]] + ys);
    }
}

/// The execution order does not depend on the order in which the targets
/// are given, as long as each target has an identity of its own.
pub proof fn lemma_execution_order_is_unique(a: Seq<TestTargetView>, b: Seq<TestTargetView>)
    requires
        distinct_identities(a),
        a.to_multiset() == b.to_multiset(),
    ensures
        sorted_targets(a) == sorted_targets(b),
{
    lemma_sorted_targets(a);
    lemma_sorted_targets(b);
    lemma_sorting_keeps_identities_distinct(a);
    lemma_order_is_unique(sorted_targets(a), sorted_targets(b));
}

/// Sorting is idempotent: sorting a second time changes nothing.
pub proof fn lemma_sorting_idempotent(s: Seq<TestTargetView>)
    ensures
        sorted_targets(sorted_targets(s)) == sorted_targets(s),
{
    lemma_sorted_targets(s);
    lemma_sorted_targets_fixes_ordered(sorted_targets(s));
}

/// Puts the targets into execution order: by package name, then kind, then
/// target name; targets with equal keys stay as they were given.
pub fn sort_targets(targets: Vec<TestTarget>) -> (sorted: Vec<TestTarget>)
    ensures
        sorted.deep_view() == sorted_targets(targets.deep_view()),
        in_order(sorted.deep_view()),
        sorted.deep_view().to_multiset() == targets.deep_view().to_multiset(),
        sorted.len() == targets.len(),
{
    let ghost given = targets.deep_view();
    let mut rest = targets;
    let mut sorted: Vec<TestTarget> = Vec::new();
    proof {
        assert(given.skip(given.len() as int) =~= Seq::empty());
        assert(sorted.deep_view() =~= Seq::empty());
        assert(rest.deep_view().take(rest.len() as int) =~= rest.deep_view());
    }
    while rest.len() > 0
        invariant
            rest.len() <= given.len(),
            rest.deep_view() == given.take(rest.len() as int),
            sorted.deep_view() == sorted_targets(given.skip(rest.len() as int)),
        decreases rest.len(),
    {
        let ghost before = sorted.deep_view();
        let ghost n = rest.len() as int;
        let t = rest.pop().unwrap();
        proof {
            assert(t@ == given[n - 1]) by {
                assert(given.take(n)[n - 1] == given[n - 1]);
            }
            assert(rest.deep_view() =~= given.take(n - 1));
        }
        let mut p: usize = 0;
        while p < sorted.len() && sorted[p].precedes(&t)
            invariant
                p <= sorted.len(),
                sorted.deep_view() == before,
                forall|i: int|
                    0 <= i < p ==> key_lt(#[trigger] before[i].identity(), t@.identity()),
            decreases sorted.len() - p,
        {
            assert(before[p as int] == sorted[p as int]@);
            p += 1;
        }
        proof {
            if p < sorted.len() {
                assert(before[p as int] == sorted[p as int]@);
            }
            lemma_place_is_insert(t@, before, p as int);
        }
        sorted.insert(p, t);
        proof {
            assert(sorted.deep_view() =~= before.insert(p as int, t@));
            let tail = given.skip(n - 1);
            assert(tail[0] == given[n - 1]);
            assert(tail.drop_first() =~= given.skip(n));
        }
    }
    proof {
        assert(given.skip(0) =~= given);
        lemma_sorted_targets(given);
    }
    sorted
}

} // verus!
