//! The snapshot store: the latest snapshot held for each feed. Merges replace
//! a feed's entry wholesale; queries return the stored value or the no-data
//! sentinel, and never block on data the store does not hold.
use vstd::prelude::*;
use vstd::pervasive::VecAdditionalExecFns;

use crate::transit::{IdView, SnapView, TransitIdentifier, TransitState};
use crate::updates::{state_updates, update_views};

verus! {

/// The map a list of feed/snapshot entries stands for; a later entry for the
/// same feed wins.
pub open spec fn entries_map(s: Seq<(TransitIdentifier, TransitState)>) -> Map<IdView, SnapView>
    decreases s.len(),
{
    if s.len() == 0 {
        Map::empty()
    } else {
        entries_map(s.drop_last()).insert(s.last().0@, s.last().1@)
    }
}

/// What a query returns: the stored snapshot, or the no-data sentinel for a
/// feed the store has never seen.
pub open spec fn query_spec(m: Map<IdView, SnapView>, id: IdView) -> SnapView {
    if m.contains_key(id) {
        m[id]
    } else {
        SnapView::EmptyState
    }
}

/// A list of per-feed updates applied in order; each replaces the entry for
/// its feed entirely.
pub open spec fn apply_updates(m: Map<IdView, SnapView>, ups: Seq<(IdView, SnapView)>) -> Map<
    IdView,
    SnapView,
>
    decreases ups.len(),
{
    if ups.len() == 0 {
        m
    } else {
        apply_updates(m, ups.drop_last()).insert(ups.last().0, ups.last().1)
    }
}

/// One refresh cycle's worth of raw snapshots merged in order: each snapshot
/// is decomposed into per-feed updates and upserted.
pub open spec fn apply_snapshots(m: Map<IdView, SnapView>, snaps: Seq<SnapView>) -> Map<
    IdView,
    SnapView,
>
    decreases snaps.len(),
{
    if snaps.len() == 0 {
        m
    } else {
        apply_updates(apply_snapshots(m, snaps.drop_last()), state_updates(snaps.last()))
    }
}

/// Views of a sequence of raw snapshots.
pub open spec fn snap_views(s: Seq<TransitState>) -> Seq<SnapView> {
    s.map_values(|t: TransitState| t@)
}

proof fn lemma_entries_map_key(s: Seq<(TransitIdentifier, TransitState)>, k: IdView)
    ensures
        entries_map(s).contains_key(k) <==> exists|i: int| 0 <= i < s.len() && s[i].0@ == k,
    decreases s.len(),
{
    if s.len() > 0 {
        lemma_entries_map_key(s.drop_last(), k);
        if entries_map(s).contains_key(k) {
            if s.last().0@ == k {
                assert(s[s.len() - 1].0@ == k);
            } else {
                let i = choose|i: int| 0 <= i < s.drop_last().len() && s.drop_last()[i].0@ == k;
                assert(s[i].0@ == k);
            }
        }
        if exists|i: int| 0 <= i < s.len() && s[i].0@ == k {
            let i = choose|i: int| 0 <= i < s.len() && s[i].0@ == k;
            if i < s.len() - 1 {
                assert(s.drop_last()[i].0@ == k);
            }
        }
    }
}

proof fn lemma_entries_map_lookup(s: Seq<(TransitIdentifier, TransitState)>, i: int)
    requires
        0 <= i < s.len(),
        forall|l: int, j: int| 0 <= l < j < s.len() ==> s[l].0@ != s[j].0@,
    ensures
        entries_map(s).contains_key(s[i].0@),
        entries_map(s)[s[i].0@] == s[i].1@,
    decreases s.len(),
{
    if i == s.len() - 1 {
    } else {
        lemma_entries_map_lookup(s.drop_last(), i);
        assert(s.drop_last()[i] == s[i]);
        assert(s[i].0@ != s.last().0@);
    }
}

proof fn lemma_entries_map_update(s: Seq<(TransitIdentifier, TransitState)>, i: int, e: (
    TransitIdentifier,
    TransitState,
))
    requires
        0 <= i < s.len(),
        forall|l: int, j: int| 0 <= l < j < s.len() ==> s[l].0@ != s[j].0@,
        e.0@ == s[i].0@,
    ensures
        entries_map(s.update(i, e)) == entries_map(s).insert(e.0@, e.1@),
    decreases s.len(),
{
    if i == s.len() - 1 {
        assert(s.update(i, e).drop_last() =~= s.drop_last());
        assert(s.update(i, e).last() == e);
        assert(entries_map(s.update(i, e)) =~= entries_map(s).insert(e.0@, e.1@));
    } else {
        assert(s.update(i, e).drop_last() =~= s.drop_last().update(i, e));
        assert(s.drop_last()[i] == s[i]);
        lemma_entries_map_update(s.drop_last(), i, e);
        assert(s.update(i, e).last() == s.last());
        assert(s[i].0@ != s.last().0@);
        assert(entries_map(s.update(i, e)) =~= entries_map(s).insert(e.0@, e.1@));
    }
}

/// The snapshot store. It owns the latest snapshot per feed; merges replace
/// entries wholesale and queries copy the stored value out.
pub struct TransitStateManager {
    state: Vec<(TransitIdentifier, TransitState)>,
}

impl View for TransitStateManager {
    type V = Map<IdView, SnapView>;

    closed spec fn view(&self) -> Map<IdView, SnapView> {
        entries_map(self.state@)
    }
}

impl TransitStateManager {
    /// Each feed has at most one entry.
    pub closed spec fn wf(&self) -> bool {
        forall|i: int, j: int|
            0 <= i < j < self.state@.len() ==> self.state@[i].0@ != self.state@[j].0@
    }

    /// An empty store: every feed reads as having no data.
    pub fn new() -> (r: Self)
        ensures
            r.wf(),
            r@ == Map::<IdView, SnapView>::empty(),
    {
        TransitStateManager { state: Vec::new() }
    }

    /// The latest snapshot for a feed, or the no-data sentinel. Never fails.
    pub fn get_state_for_identifier(&self, identifier: &TransitIdentifier) -> (r: TransitState)
        requires
            self.wf(),
        ensures
            r@ == query_spec(self@, identifier@),
    {
        let mut i: usize = 0;
        while i < self.state.len()
            invariant
                self.wf(),
                i <= self.state@.len(),
                forall|k: int| 0 <= k < i ==> self.state@[k].0@ != identifier@,
            decreases self.state@.len() - i,
        {
            if self.state[i].0 == *identifier {
                let r = self.state[i].1.clone();
                proof {
                    lemma_entries_map_lookup(self.state@, i as int);
                }
                return r;
            }
            i = i + 1;
        }
        proof {
            lemma_entries_map_key(self.state@, identifier@);
        }
        TransitState::EmptyState
    }

    /// Replaces the entry for one feed, or adds it.
    fn upsert(&mut self, id: TransitIdentifier, snap: TransitState)
        requires
            old(self).wf(),
        ensures
            final(self).wf(),
            final(self)@ == old(self)@.insert(id@, snap@),
    {
        let mut i: usize = 0;
        let n = self.state.len();
        while i < n
            invariant
                old(self).wf(),
                n == self.state@.len(),
                i <= n,
                self == old(self),
                forall|k: int| 0 <= k < i ==> self.state@[k].0@ != id@,
            decreases n - i,
        {
            if self.state[i].0 == id {
                let ghost prev = self.state@;
                proof {
                    lemma_entries_map_update(prev, i as int, (id, snap));
                }
                self.state.set(i, (id, snap));
                proof {
                    assert forall|l: int, j: int|
                        0 <= l < j < self.state@.len() implies self.state@[l].0@
                        != self.state@[j].0@ by {
                        assert(self.state@[l].0@ == prev[l].0@);
                        assert(self.state@[j].0@ == prev[j].0@);
                    }
                }
                return ;
            }
            i = i + 1;
        }
        self.state.push((id, snap));
        proof {
            assert(self.state@.drop_last() =~= old(self).state@);
            assert forall|l: int, j: int|
                0 <= l < j < self.state@.len() implies self.state@[l].0@ != self.state@[j].0@ by {
                if j == self.state@.len() - 1 {
                    assert(self.state@[l] == old(self).state@[l]);
                }
            }
        }
    }

    /// Merges one refresh cycle's successfully fetched raw snapshots into the
    /// store, in order: each decomposes into per-feed updates, and each update
    /// replaces that feed's entry entirely. A provider that failed contributes
    /// nothing to `fetched`, so its feeds keep their stored values.
    pub fn update_state(&mut self, fetched: &Vec<TransitState>)
        requires
            old(self).wf(),
        ensures
            final(self).wf(),
            final(self)@ == apply_snapshots(old(self)@, snap_views(fetched@)),
    {
        let mut i: usize = 0;
        while i < fetched.len()
            invariant
                i <= fetched@.len(),
                self.wf(),
                self@ == apply_snapshots(old(self)@, snap_views(fetched@).take(i as int)),
            decreases fetched@.len() - i,
        {
            let ups = fetched[i].to_state_updates();
            let ghost base = self@;
            let mut j: usize = 0;
            while j < ups.len()
                invariant
                    j <= ups@.len(),
                    self.wf(),
                    update_views(ups@) == state_updates(fetched@[i as int]@),
                    self@ == apply_updates(base, update_views(ups@).take(j as int)),
                decreases ups@.len() - j,
            {
                let id = ups[j].0.clone();
                let snap = ups[j].1.clone();
                self.upsert(id, snap);
                proof {
                    let uv = update_views(ups@);
                    assert(uv.take(j + 1 as int).drop_last() =~= uv.take(j as int));
                    assert(uv.take(j + 1 as int).last() == (ups@[j as int].0@, ups@[j as int].1@));
                }
                j = j + 1;
            }
            proof {
                let uv = update_views(ups@);
                assert(uv.take(ups@.len() as int) =~= uv);
                let sv = snap_views(fetched@);
                assert(sv.take(i + 1 as int).drop_last() =~= sv.take(i as int));
                assert(sv.take(i + 1 as int).last() == fetched@[i as int]@);
            }
            i = i + 1;
        }
        proof {
            assert(snap_views(fetched@).take(fetched@.len() as int) =~= snap_views(fetched@));
        }
    }
}

proof fn lemma_apply_updates_untouched(
    m: Map<IdView, SnapView>,
    ups: Seq<(IdView, SnapView)>,
    x: IdView,
)
    requires
        forall|j: int| 0 <= j < ups.len() ==> ups[j].0 != x,
    ensures
        query_spec(apply_updates(m, ups), x) == query_spec(m, x),
    decreases ups.len(),
{
    if ups.len() > 0 {
        lemma_apply_updates_untouched(m, ups.drop_last(), x);
        assert(ups[ups.len() - 1].0 != x);
    }
}

/// A refresh cycle whose updates never name a feed leaves that feed's query
/// result exactly as it was: a failed provider degrades to stale data, never
/// to lost data.
pub proof fn lemma_untouched_feed(m: Map<IdView, SnapView>, snaps: Seq<SnapView>, x: IdView)
    requires
        forall|i: int, j: int|
            0 <= i < snaps.len() && 0 <= j < state_updates(snaps[i]).len() ==> state_updates(
                snaps[i],
            )[j].0 != x,
    ensures
        query_spec(apply_snapshots(m, snaps), x) == query_spec(m, x),
    decreases snaps.len(),
{
    if snaps.len() > 0 {
        assert(forall|i: int, j: int|
            0 <= i < snaps.drop_last().len() && 0 <= j < state_updates(
                snaps.drop_last()[i],
            ).len() ==> state_updates(snaps.drop_last()[i])[j].0 != x);
        lemma_untouched_feed(m, snaps.drop_last(), x);
        assert(snaps[snaps.len() - 1] == snaps.last());
        lemma_apply_updates_untouched(
            apply_snapshots(m, snaps.drop_last()),
            state_updates(snaps.last()),
            x,
        );
    }
}

/// Two queries of one and the same store state for one and the same feed
/// return one and the same snapshot: a query has no side effect to observe.
pub proof fn lemma_query_idempotent(
    m: Map<IdView, SnapView>,
    id: IdView,
    r1: SnapView,
    r2: SnapView,
)
    requires
        r1 == query_spec(m, id),
        r2 == query_spec(m, id),
    ensures
        r1 == r2,
{
}

} // verus!
