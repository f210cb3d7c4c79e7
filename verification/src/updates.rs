//! Decomposition of a raw snapshot into per-feed updates: predictions are
//! grouped by the feed they belong to, and each group is stably sorted by
//! minutes until arrival.
use vstd::prelude::*;

use crate::transit::{IdView, PredView, Prediction, SnapView, TransitIdentifier, TransitState, pred_views};

verus! {

/// Whether a sequence of predictions is ordered by minutes until arrival.
pub open spec fn sorted_by_minutes(s: Seq<PredView>) -> bool {
    forall|i: int, j: int|
        0 <= i < j < s.len() ==> s[i].minutes_until_arrival <= s[j].minutes_until_arrival
}

/// Inserts a prediction after every element that does not arrive strictly
/// later, so predictions with equal arrival times keep their original order.
pub open spec fn insert_sorted(p: PredView, s: Seq<PredView>) -> Seq<PredView>
    decreases s.len(),
{
    if s.len() == 0 {
        seq![p]
    } else if p.minutes_until_arrival < s[0].minutes_until_arrival {
        seq![p] + s
    } else {
        seq![s[0]] + insert_sorted(p, s.drop_first())
    }
}

/// Stable insertion sort by minutes until arrival.
pub open spec fn sort_preds(s: Seq<PredView>) -> Seq<PredView>
    decreases s.len(),
{
    if s.len() == 0 {
        Seq::empty()
    } else {
        insert_sorted(s.last(), sort_preds(s.drop_last()))
    }
}

/// The subsequence of predictions with exactly the given minutes value,
/// in order.
pub open spec fn preds_with_minutes(s: Seq<PredView>, m: int) -> Seq<PredView>
    decreases s.len(),
{
    if s.len() == 0 {
        Seq::empty()
    } else {
        let rest = preds_with_minutes(s.drop_last(), m);
        if s.last().minutes_until_arrival == m {
            rest.push(s.last())
        } else {
            rest
        }
    }
}

/// The subsequence of predictions for the given feed, in original order.
pub open spec fn preds_for(s: Seq<PredView>, id: IdView) -> Seq<PredView>
    decreases s.len(),
{
    if s.len() == 0 {
        Seq::empty()
    } else {
        let rest = preds_for(s.drop_last(), id);
        if s.last().identifier() == id {
            rest.push(s.last())
        } else {
            rest
        }
    }
}

/// The distinct feeds of a sequence of predictions, in order of first
/// appearance.
pub open spec fn group_keys(s: Seq<PredView>) -> Seq<IdView>
    decreases s.len(),
{
    if s.len() == 0 {
        Seq::empty()
    } else {
        let rest = group_keys(s.drop_last());
        if rest.contains(s.last().identifier()) {
            rest
        } else {
            rest.push(s.last().identifier())
        }
    }
}

/// The per-feed updates one raw snapshot decomposes into: predictions are
/// grouped by feed and each group stably sorted; a bike-share snapshot yields
/// exactly its own feed; no data yields nothing.
pub open spec fn state_updates(s: SnapView) -> Seq<(IdView, SnapView)> {
    match s {
        SnapView::Predictions(ps) => Seq::new(
            group_keys(ps).len(),
            |j: int|
                (
                    group_keys(ps)[j],
                    SnapView::Predictions(sort_preds(preds_for(ps, group_keys(ps)[j]))),
                ),
        ),
        SnapView::BikeInventory(b) => seq![(b.identifier(), s)],
        SnapView::EmptyState => Seq::empty(),
    }
}

/// Views of a sequence of feed/snapshot pairs.
pub open spec fn update_views(s: Seq<(TransitIdentifier, TransitState)>) -> Seq<
    (IdView, SnapView),
> {
    s.map_values(|u: (TransitIdentifier, TransitState)| (u.0@, u.1@))
}

/// Views of a sequence of identifiers.
pub open spec fn id_views(s: Seq<TransitIdentifier>) -> Seq<IdView> {
    s.map_values(|t: TransitIdentifier| t@)
}

proof fn lemma_insert_sorted_elems(p: PredView, s: Seq<PredView>)
    ensures
        insert_sorted(p, s).len() == s.len() + 1,
        forall|k: int|
            0 <= k < insert_sorted(p, s).len() ==> insert_sorted(p, s)[k] == p || s.contains(
                insert_sorted(p, s)[k],
            ),
    decreases s.len(),
{
    if s.len() == 0 {
    } else if p.minutes_until_arrival < s[0].minutes_until_arrival {
    } else {
        lemma_insert_sorted_elems(p, s.drop_first());
        assert forall|k: int|
            0 <= k < insert_sorted(p, s).len() implies insert_sorted(p, s)[k] == p || s.contains(
            insert_sorted(p, s)[k],
        ) by {
            if k > 0 {
                let rest = insert_sorted(p, s.drop_first());
                assert(insert_sorted(p, s)[k] == rest[k - 1]);
                if rest[k - 1] != p {
                    let l = choose|l: int|
                        0 <= l < s.drop_first().len() && s.drop_first()[l] == rest[k - 1];
                    assert(s[l + 1] == rest[k - 1]);
                }
            }
        }
    }
}

proof fn lemma_insert_sorted_keeps_sorted(p: PredView, s: Seq<PredView>)
    requires
        sorted_by_minutes(s),
    ensures
        sorted_by_minutes(insert_sorted(p, s)),
    decreases s.len(),
{
    if s.len() == 0 {
    } else if p.minutes_until_arrival < s[0].minutes_until_arrival {
        assert forall|i: int, j: int|
            0 <= i < j < insert_sorted(p, s).len() implies insert_sorted(
            p,
            s,
        )[i].minutes_until_arrival <= insert_sorted(p, s)[j].minutes_until_arrival by {
            if i > 0 {
                assert(insert_sorted(p, s)[i] == s[i - 1]);
                assert(insert_sorted(p, s)[j] == s[j - 1]);
            } else {
                assert(insert_sorted(p, s)[j] == s[j - 1]);
                assert(s[0].minutes_until_arrival <= s[j - 1].minutes_until_arrival);
            }
        }
    } else {
        assert(sorted_by_minutes(s.drop_first()));
        lemma_insert_sorted_keeps_sorted(p, s.drop_first());
        lemma_insert_sorted_elems(p, s.drop_first());
        let rest = insert_sorted(p, s.drop_first());
        assert forall|i: int, j: int|
            0 <= i < j < insert_sorted(p, s).len() implies insert_sorted(
            p,
            s,
        )[i].minutes_until_arrival <= insert_sorted(p, s)[j].minutes_until_arrival by {
            if i > 0 {
                assert(insert_sorted(p, s)[i] == rest[i - 1]);
                assert(insert_sorted(p, s)[j] == rest[j - 1]);
            } else {
                assert(insert_sorted(p, s)[i] == s[0]);
                assert(insert_sorted(p, s)[j] == rest[j - 1]);
                if rest[j - 1] == p {
                } else {
                    let l = choose|l: int|
                        0 <= l < s.drop_first().len() && s.drop_first()[l] == rest[j - 1];
                    assert(s[l + 1] == rest[j - 1]);
                    assert(s[0].minutes_until_arrival <= s[l + 1].minutes_until_arrival);
                }
            }
        }
    }
}

proof fn lemma_insert_sorted_multiset(p: PredView, s: Seq<PredView>)
    ensures
        insert_sorted(p, s).to_multiset() == s.to_multiset().insert(p),
    decreases s.len(),
{
    broadcast use vstd::seq_lib::group_to_multiset_ensures;

    if s.len() == 0 {
        assert(seq![p] =~= Seq::<PredView>::empty().push(p));
        assert(insert_sorted(p, s).to_multiset() =~= s.to_multiset().insert(p));
    } else if p.minutes_until_arrival < s[0].minutes_until_arrival {
        vstd::seq_lib::lemma_multiset_commutative(seq![p], s);
        assert(seq![p] =~= Seq::<PredView>::empty().push(p));
        assert(insert_sorted(p, s).to_multiset() =~= s.to_multiset().insert(p));
    } else {
        lemma_insert_sorted_multiset(p, s.drop_first());
        vstd::seq_lib::lemma_multiset_commutative(seq![s[0]], insert_sorted(p, s.drop_first()));
        vstd::seq_lib::lemma_multiset_commutative(seq![s[0]], s.drop_first());
        assert(s =~= seq![s[0]] + s.drop_first());
        assert(seq![s[0]] =~= Seq::<PredView>::empty().push(s[0]));
        assert(insert_sorted(p, s).to_multiset() =~= s.to_multiset().insert(p));
    }
}

/// Sorting a group orders it by minutes until arrival.
pub proof fn lemma_sort_preds_sorted(s: Seq<PredView>)
    ensures
        sorted_by_minutes(sort_preds(s)),
    decreases s.len(),
{
    if s.len() > 0 {
        lemma_sort_preds_sorted(s.drop_last());
        lemma_insert_sorted_keeps_sorted(s.last(), sort_preds(s.drop_last()));
    }
}

/// Sorting a group keeps exactly the predictions that were in it.
pub proof fn lemma_sort_preds_multiset(s: Seq<PredView>)
    ensures
        sort_preds(s).to_multiset() == s.to_multiset(),
    decreases s.len(),
{
    broadcast use vstd::seq_lib::group_to_multiset_ensures;

    if s.len() == 0 {
    } else {
        lemma_sort_preds_multiset(s.drop_last());
        lemma_insert_sorted_multiset(s.last(), sort_preds(s.drop_last()));
        assert(s =~= s.drop_last().push(s.last()));
        assert(sort_preds(s).to_multiset() =~= s.to_multiset());
    }
}

proof fn lemma_minutes_filter_concat(a: Seq<PredView>, b: Seq<PredView>, m: int)
    ensures
        preds_with_minutes(a + b, m) == preds_with_minutes(a, m) + preds_with_minutes(b, m),
    decreases b.len(),
{
    if b.len() == 0 {
        assert(a + b =~= a);
        assert(preds_with_minutes(a, m) + preds_with_minutes(b, m) =~= preds_with_minutes(a, m));
    } else {
        lemma_minutes_filter_concat(a, b.drop_last(), m);
        assert((a + b).drop_last() =~= a + b.drop_last());
        assert((a + b).last() == b.last());
        if b.last().minutes_until_arrival == m {
            assert((preds_with_minutes(a, m) + preds_with_minutes(b.drop_last(), m)).push(b.last())
                =~= preds_with_minutes(a, m) + preds_with_minutes(b.drop_last(), m).push(b.last()));
        }
    }
}

proof fn lemma_minutes_filter_none(s: Seq<PredView>, m: int)
    requires
        forall|i: int| 0 <= i < s.len() ==> s[i].minutes_until_arrival != m,
    ensures
        preds_with_minutes(s, m) == Seq::<PredView>::empty(),
    decreases s.len(),
{
    if s.len() > 0 {
        lemma_minutes_filter_none(s.drop_last(), m);
    }
}

proof fn lemma_insert_sorted_stable(p: PredView, s: Seq<PredView>, m: int)
    requires
        sorted_by_minutes(s),
    ensures
        preds_with_minutes(insert_sorted(p, s), m) == if p.minutes_until_arrival == m {
            preds_with_minutes(s, m).push(p)
        } else {
            preds_with_minutes(s, m)
        },
    decreases s.len(),
{
    if s.len() == 0 {
        let single = seq![p];
        assert(insert_sorted(p, s) == single);
        assert(single.drop_last() =~= Seq::<PredView>::empty());
        assert(single.last() == p);
        assert(preds_with_minutes(Seq::<PredView>::empty(), m) == Seq::<PredView>::empty());
        assert(preds_with_minutes(s, m) == Seq::<PredView>::empty());
        if p.minutes_until_arrival == m {
            assert(preds_with_minutes(single, m) == preds_with_minutes(single.drop_last(), m).push(
                p,
            ));
            assert(preds_with_minutes(single, m) =~= preds_with_minutes(s, m).push(p));
        } else {
            assert(preds_with_minutes(single, m) == preds_with_minutes(single.drop_last(), m));
        }
    } else if p.minutes_until_arrival < s[0].minutes_until_arrival {
        let single = seq![p];
        assert(insert_sorted(p, s) == single + s);
        lemma_minutes_filter_concat(single, s, m);
        assert(single.drop_last() =~= Seq::<PredView>::empty());
        assert(single.last() == p);
        assert(preds_with_minutes(Seq::<PredView>::empty(), m) == Seq::<PredView>::empty());
        if p.minutes_until_arrival == m {
            assert forall|i: int| 0 <= i < s.len() implies s[i].minutes_until_arrival != m by {
                if i > 0 {
                    assert(s[0].minutes_until_arrival <= s[i].minutes_until_arrival);
                }
            }
            lemma_minutes_filter_none(s, m);
            assert(preds_with_minutes(single, m) == preds_with_minutes(single.drop_last(), m).push(
                p,
            ));
            assert(preds_with_minutes(insert_sorted(p, s), m) =~= preds_with_minutes(s, m).push(
                p,
            ));
        } else {
            assert(preds_with_minutes(single, m) == preds_with_minutes(single.drop_last(), m));
            assert(preds_with_minutes(insert_sorted(p, s), m) =~= preds_with_minutes(s, m));
        }
    } else {
        assert(sorted_by_minutes(s.drop_first()));
        lemma_insert_sorted_stable(p, s.drop_first(), m);
        let head = seq![s[0]];
        let rest = insert_sorted(p, s.drop_first());
        assert(insert_sorted(p, s) == head + rest);
        lemma_minutes_filter_concat(head, rest, m);
        lemma_minutes_filter_concat(head, s.drop_first(), m);
        assert(s =~= head + s.drop_first());
        assert(head.drop_last() =~= Seq::<PredView>::empty());
        assert(head.last() == s[0]);
        assert(preds_with_minutes(Seq::<PredView>::empty(), m) == Seq::<PredView>::empty());
        if p.minutes_until_arrival == m {
            assert(preds_with_minutes(insert_sorted(p, s), m) == preds_with_minutes(head, m)
                + preds_with_minutes(s.drop_first(), m).push(p));
            assert(preds_with_minutes(insert_sorted(p, s), m) =~= preds_with_minutes(s, m).push(
                p,
            ));
        } else {
            assert(preds_with_minutes(insert_sorted(p, s), m) =~= preds_with_minutes(s, m));
        }
    }
}

/// The sort is stable: among predictions with one and the same minutes value,
/// the original order is kept exactly.
pub proof fn lemma_sort_preds_stable(s: Seq<PredView>, m: int)
    ensures
        preds_with_minutes(sort_preds(s), m) == preds_with_minutes(s, m),
    decreases s.len(),
{
    if s.len() > 0 {
        lemma_sort_preds_stable(s.drop_last(), m);
        lemma_sort_preds_sorted(s.drop_last());
        lemma_insert_sorted_stable(s.last(), sort_preds(s.drop_last()), m);
    }
}

proof fn lemma_insert_sorted_at(p: PredView, s: Seq<PredView>, j: int)
    requires
        0 <= j <= s.len(),
        forall|k: int| 0 <= k < j ==> !(p.minutes_until_arrival < s[k].minutes_until_arrival),
        j < s.len() ==> p.minutes_until_arrival < s[j].minutes_until_arrival,
    ensures
        insert_sorted(p, s) == s.take(j) + seq![p] + s.skip(j),
    decreases j,
{
    if j == 0 {
        assert(insert_sorted(p, s) =~= s.take(0) + seq![p] + s.skip(0));
    } else {
        lemma_insert_sorted_at(p, s.drop_first(), j - 1);
        assert(insert_sorted(p, s) == seq![s[0]] + insert_sorted(p, s.drop_first()));
        assert(insert_sorted(p, s) =~= s.take(j) + seq![p] + s.skip(j));
    }
}

/// A feed appears among the group keys exactly when some prediction belongs
/// to it.
pub proof fn lemma_group_keys_membership(s: Seq<PredView>, k: IdView)
    ensures
        group_keys(s).contains(k) <==> exists|i: int| 0 <= i < s.len() && s[i].identifier() == k,
    decreases s.len(),
{
    if s.len() > 0 {
        lemma_group_keys_membership(s.drop_last(), k);
        if group_keys(s).contains(k) {
            if s.last().identifier() == k {
                assert(s[s.len() - 1].identifier() == k);
            } else {
                assert(group_keys(s.drop_last()).contains(k));
                let i = choose|i: int|
                    0 <= i < s.drop_last().len() && s.drop_last()[i].identifier() == k;
                assert(s[i].identifier() == k);
            }
        }
        if exists|i: int| 0 <= i < s.len() && s[i].identifier() == k {
            let i = choose|i: int| 0 <= i < s.len() && s[i].identifier() == k;
            if i < s.len() - 1 {
                assert(s.drop_last()[i].identifier() == k);
                let rest = group_keys(s.drop_last());
                let l = choose|l: int| 0 <= l < rest.len() && rest[l] == k;
                if !rest.contains(s.last().identifier()) {
                    assert(rest.push(s.last().identifier())[l] == k);
                }
            } else {
                let rest = group_keys(s.drop_last());
                if rest.contains(k) {
                    let l = choose|l: int| 0 <= l < rest.len() && rest[l] == k;
                    if !rest.contains(s.last().identifier()) {
                        assert(rest.push(s.last().identifier())[l] == k);
                    }
                } else {
                    assert(group_keys(s)[group_keys(s).len() - 1] == k);
                }
            }
        }
    }
}

/// The group keys list each feed at most once.
pub proof fn lemma_group_keys_distinct(s: Seq<PredView>)
    ensures
        forall|i: int, j: int|
            0 <= i < j < group_keys(s).len() ==> group_keys(s)[i] != group_keys(s)[j],
    decreases s.len(),
{
    if s.len() > 0 {
        lemma_group_keys_distinct(s.drop_last());
        let rest = group_keys(s.drop_last());
        if !rest.contains(s.last().identifier()) {
            assert forall|i: int, j: int|
                0 <= i < j < group_keys(s).len() implies group_keys(s)[i] != group_keys(
                s,
            )[j] by {
                if j == group_keys(s).len() - 1 {
                    assert(group_keys(s)[i] == rest[i]);
                }
            }
        }
    }
}

proof fn lemma_preds_for_two(s: Seq<PredView>, a: IdView, b: IdView)
    requires
        a != b,
        forall|i: int| 0 <= i < s.len() ==> s[i].identifier() == a || s[i].identifier() == b,
    ensures
        preds_for(s, a).to_multiset().add(preds_for(s, b).to_multiset()) == s.to_multiset(),
    decreases s.len(),
{
    broadcast use vstd::seq_lib::group_to_multiset_ensures;

    if s.len() == 0 {
        assert(preds_for(s, a).to_multiset().add(preds_for(s, b).to_multiset())
            =~= s.to_multiset());
    } else {
        assert(forall|i: int|
            0 <= i < s.drop_last().len() ==> s.drop_last()[i].identifier() == a
                || s.drop_last()[i].identifier() == b);
        lemma_preds_for_two(s.drop_last(), a, b);
        assert(s =~= s.drop_last().push(s.last()));
        assert(preds_for(s, a).to_multiset().add(preds_for(s, b).to_multiset())
            =~= s.to_multiset());
    }
}

/// Predictions drawn from exactly two distinct feeds decompose into exactly
/// two per-feed updates, keyed by the two feeds in order of first appearance.
/// Each update carries exactly its feed's predictions, sorted ascending by
/// minutes until arrival, stably: predictions with equal minutes keep their
/// original order. Together the two groups carry exactly the input.
pub proof fn lemma_two_feed_partition(ps: Seq<PredView>, a: IdView, b: IdView)
    requires
        a != b,
        forall|i: int| 0 <= i < ps.len() ==> ps[i].identifier() == a || ps[i].identifier() == b,
        exists|i: int| 0 <= i < ps.len() && ps[i].identifier() == a,
        exists|i: int| 0 <= i < ps.len() && ps[i].identifier() == b,
    ensures
        group_keys(ps).len() == 2,
        group_keys(ps).contains(a),
        group_keys(ps).contains(b),
        state_updates(SnapView::Predictions(ps)).len() == 2,
        forall|j: int|
            0 <= j < 2 ==> state_updates(SnapView::Predictions(ps))[j] == (
                group_keys(ps)[j],
                SnapView::Predictions(sort_preds(preds_for(ps, group_keys(ps)[j]))),
            ),
        sorted_by_minutes(sort_preds(preds_for(ps, a))),
        sorted_by_minutes(sort_preds(preds_for(ps, b))),
        sort_preds(preds_for(ps, a)).to_multiset() == preds_for(ps, a).to_multiset(),
        sort_preds(preds_for(ps, b)).to_multiset() == preds_for(ps, b).to_multiset(),
        forall|m: int|
            preds_with_minutes(sort_preds(preds_for(ps, a)), m) == preds_with_minutes(
                preds_for(ps, a),
                m,
            ),
        forall|m: int|
            preds_with_minutes(sort_preds(preds_for(ps, b)), m) == preds_with_minutes(
                preds_for(ps, b),
                m,
            ),
        preds_for(ps, a).to_multiset().add(preds_for(ps, b).to_multiset()) == ps.to_multiset(),
{
    lemma_group_keys_membership(ps, a);
    lemma_group_keys_membership(ps, b);
    lemma_group_keys_distinct(ps);
    let keys = group_keys(ps);
    assert forall|l: int| 0 <= l < keys.len() implies keys[l] == a || keys[l] == b by {
        lemma_group_keys_membership(ps, keys[l]);
        assert(keys.contains(keys[l]));
    }
    assert(keys.len() >= 2) by {
        let ia = choose|l: int| 0 <= l < keys.len() && keys[l] == a;
        let ib = choose|l: int| 0 <= l < keys.len() && keys[l] == b;
        assert(ia != ib);
    }
    assert(keys.len() <= 2) by {
        if keys.len() > 2 {
            assert(keys[0] != keys[1] && keys[0] != keys[2] && keys[1] != keys[2]);
            assert(false);
        }
    }
    lemma_sort_preds_sorted(preds_for(ps, a));
    lemma_sort_preds_sorted(preds_for(ps, b));
    lemma_sort_preds_multiset(preds_for(ps, a));
    lemma_sort_preds_multiset(preds_for(ps, b));
    assert forall|m: int|
        preds_with_minutes(sort_preds(preds_for(ps, a)), m) == preds_with_minutes(
            preds_for(ps, a),
            m,
        ) by {
        lemma_sort_preds_stable(preds_for(ps, a), m);
    }
    assert forall|m: int|
        preds_with_minutes(sort_preds(preds_for(ps, b)), m) == preds_with_minutes(
            preds_for(ps, b),
            m,
        ) by {
        lemma_sort_preds_stable(preds_for(ps, b), m);
    }
    lemma_preds_for_two(ps, a, b);
}

/// Inserts one prediction into an already-sorted list, after every element
/// that does not arrive strictly later.
fn insert_prediction(out: &mut Vec<Prediction>, p: Prediction)
    ensures
        pred_views(final(out)@) == insert_sorted(p@, pred_views(old(out)@)),
{
    let ghost s = pred_views(out@);
    let mut j: usize = 0;
    while j < out.len() && out[j].minutes_until_arrival <= p.minutes_until_arrival
        invariant
            j <= out@.len(),
            pred_views(out@) == s,
            forall|k: int| 0 <= k < j ==> !(p@.minutes_until_arrival < s[k].minutes_until_arrival),
        decreases out@.len() - j,
    {
        j = j + 1;
    }
    proof {
        lemma_insert_sorted_at(p@, s, j as int);
    }
    out.insert(j, p);
    proof {
        assert(pred_views(out@) =~= s.take(j as int) + seq![p@] + s.skip(j as int));
    }
}

/// Stable insertion sort of predictions by minutes until arrival.
pub fn sort_predictions(ps: &Vec<Prediction>) -> (r: Vec<Prediction>)
    ensures
        pred_views(r@) == sort_preds(pred_views(ps@)),
{
    let mut out: Vec<Prediction> = Vec::new();
    let mut i: usize = 0;
    while i < ps.len()
        invariant
            i <= ps@.len(),
            pred_views(out@) == sort_preds(pred_views(ps@).take(i as int)),
        decreases ps@.len() - i,
    {
        insert_prediction(&mut out, ps[i].clone());
        proof {
            let pv = pred_views(ps@);
            assert(pv.take(i + 1 as int).drop_last() =~= pv.take(i as int));
            assert(pv.take(i + 1 as int).last() == ps@[i as int]@);
        }
        i = i + 1;
    }
    proof {
        assert(pred_views(ps@).take(ps@.len() as int) =~= pred_views(ps@));
    }
    out
}

/// The distinct feeds of a list of predictions, in order of first appearance.
fn unique_identifiers(ps: &Vec<Prediction>) -> (keys: Vec<TransitIdentifier>)
    ensures
        id_views(keys@) == group_keys(pred_views(ps@)),
{
    let mut keys: Vec<TransitIdentifier> = Vec::new();
    let mut i: usize = 0;
    while i < ps.len()
        invariant
            i <= ps@.len(),
            id_views(keys@) == group_keys(pred_views(ps@).take(i as int)),
        decreases ps@.len() - i,
    {
        let id = ps[i].to_identifier();
        let mut found = false;
        let mut g: usize = 0;
        while g < keys.len()
            invariant
                g <= keys@.len(),
                found <==> exists|l: int| 0 <= l < g && id_views(keys@)[l] == id@,
            decreases keys@.len() - g,
        {
            proof {
                assert(id_views(keys@)[g as int] == keys@[g as int]@);
            }
            if keys[g] == id {
                found = true;
            }
            g = g + 1;
        }
        proof {
            let pv = pred_views(ps@);
            assert(pv.take(i + 1 as int).drop_last() =~= pv.take(i as int));
            assert(pv.take(i + 1 as int).last() == ps@[i as int]@);
            assert(found <==> group_keys(pv.take(i as int)).contains(id@));
        }
        if !found {
            keys.push(id);
            proof {
                assert(id_views(keys@) =~= id_views(keys@.drop_last()).push(keys@.last()@));
            }
        }
        i = i + 1;
    }
    proof {
        assert(pred_views(ps@).take(ps@.len() as int) =~= pred_views(ps@));
    }
    keys
}

/// All predictions for one feed, in their original order.
fn collect_for_identifier(ps: &Vec<Prediction>, key: &TransitIdentifier) -> (group: Vec<
    Prediction,
>)
    ensures
        pred_views(group@) == preds_for(pred_views(ps@), key@),
{
    let mut group: Vec<Prediction> = Vec::new();
    let mut i: usize = 0;
    while i < ps.len()
        invariant
            i <= ps@.len(),
            pred_views(group@) == preds_for(pred_views(ps@).take(i as int), key@),
        decreases ps@.len() - i,
    {
        let id = ps[i].to_identifier();
        if id == *key {
            group.push(ps[i].clone());
            proof {
                assert(pred_views(group@) =~= pred_views(group@.drop_last()).push(group@.last()@));
            }
        }
        proof {
            let pv = pred_views(ps@);
            assert(pv.take(i + 1 as int).drop_last() =~= pv.take(i as int));
            assert(pv.take(i + 1 as int).last() == ps@[i as int]@);
        }
        i = i + 1;
    }
    proof {
        assert(pred_views(ps@).take(ps@.len() as int) =~= pred_views(ps@));
    }
    group
}

impl TransitState {
    /// Decomposes this raw snapshot into the per-feed updates it carries:
    /// predictions are grouped by feed, in order of first appearance, and each
    /// group is stably sorted by minutes until arrival; a bike-share snapshot
    /// yields exactly one update under its own feed; no data yields nothing.
    pub fn to_state_updates(&self) -> (r: Vec<(TransitIdentifier, TransitState)>)
        ensures
            update_views(r@) == state_updates(self@),
    {
        match self {
            TransitState::Predictions(ps) => {
                let keys = unique_identifiers(ps);
                let mut out: Vec<(TransitIdentifier, TransitState)> = Vec::new();
                let mut j: usize = 0;
                while j < keys.len()
                    invariant
                        j <= keys@.len(),
                        id_views(keys@) == group_keys(pred_views(ps@)),
                        out@.len() == j,
                        forall|l: int|
                            0 <= l < j ==> #[trigger] update_views(out@)[l] == (
                            id_views(keys@)[l],
                            SnapView::Predictions(
                                sort_preds(preds_for(pred_views(ps@), id_views(keys@)[l])),
                            ),
                            ),
                    decreases keys@.len() - j,
                {
                    let group = collect_for_identifier(ps, &keys[j]);
                    let sorted = sort_predictions(&group);
                    let ghost prev = out@;
                    out.push((keys[j].clone(), TransitState::Predictions(sorted)));
                    proof {
                        assert(id_views(keys@)[j as int] == keys@[j as int]@);
                        assert(update_views(out@) =~= update_views(prev).push(
                            (out@.last().0@, out@.last().1@),
                        ));
                        assert(forall|l: int|
                            0 <= l < prev.len() ==> #[trigger] update_views(out@)[l]
                                == update_views(prev)[l]);
                    }
                    j = j + 1;
                }
                proof {
                    assert(update_views(out@) =~= state_updates(self@));
                }
                out
            },
            TransitState::BikeInventory(b) => {
                let mut out: Vec<(TransitIdentifier, TransitState)> = Vec::new();
                out.push((b.to_identifier(), TransitState::BikeInventory(b.clone())));
                proof {
                    assert(update_views(out@) =~= state_updates(self@));
                }
                out
            },
            TransitState::EmptyState => {
                let out: Vec<(TransitIdentifier, TransitState)> = Vec::new();
                proof {
                    assert(update_views(out@) =~= state_updates(self@));
                }
                out
            },
        }
    }
}

} // verus!
