//! The anchor chain of one snapper configuration: which snapshot anchors the
//! next incremental sync, which still wait to be synced, and in what order.

use vstd::prelude::*;
use crate::date::Timestamp;
use crate::snapshot::{
    Snapshot, SnapperConfig, SnapperCleanupAlgorithm, with_tag, lemma_with_tag_lookup, ANCHOR_KEY,
    SYNCED_KEY, TRUE_VALUE, FALSE_VALUE,
};

verus! {

/// An inconsistency in the snapshots of a chain.
#[derive(Clone, Copy, Debug, PartialEq, Eq, Structural)]
pub enum ChainError {
    /// More than one snapshot carries the anchor flag.
    MultipleAnchors,
}

/// No snapshot of `snaps` carries the anchor flag.
pub open spec fn no_anchor(snaps: Seq<Snapshot>) -> bool {
    forall|j: int| 0 <= j < snaps.len() ==> !(#[trigger] snaps[j]).anchored()
}

/// Snapshot `i` is the one and only anchor of `snaps`.
pub open spec fn sole_anchor(snaps: Seq<Snapshot>, i: int) -> bool {
    &&& 0 <= i < snaps.len()
    &&& snaps[i].anchored()
    &&& forall|j: int| 0 <= j < snaps.len() && j != i ==> !(#[trigger] snaps[j]).anchored()
}

/// Two different snapshots of `snaps` carry the anchor flag.
pub open spec fn several_anchors(snaps: Seq<Snapshot>) -> bool {
    exists|i: int, j: int|
        0 <= i < j < snaps.len() && (#[trigger] snaps[i]).anchored() && (#[trigger] snaps[j]).anchored()
}

/// At most one snapshot of `snaps` carries the anchor flag.
pub open spec fn at_most_one_anchor(snaps: Seq<Snapshot>) -> bool {
    !several_anchors(snaps)
}

/// `after` is `before` with the anchor flag set and no cleanup algorithm, so
/// that no cleanup deletes it while it anchors the chain.
pub open spec fn promoted_from(before: Snapshot, after: Snapshot) -> bool {
    &&& after.tags() == with_tag(before.tags(), ANCHOR_KEY@, TRUE_VALUE@)
    &&& after.cleanup is None
    &&& after.config == before.config
    &&& after.id == before.id
    &&& after.date == before.date
}

/// `after` is `before` with the anchor flag cleared and the cleanup algorithm
/// of ordinary snapshots restored.
pub open spec fn released_from(
    before: Snapshot,
    after: Snapshot,
    cleanup: Option<SnapperCleanupAlgorithm>,
) -> bool {
    &&& after.tags() == with_tag(before.tags(), ANCHOR_KEY@, FALSE_VALUE@)
    &&& after.cleanup == cleanup
    &&& after.config == before.config
    &&& after.id == before.id
    &&& after.date == before.date
}

/// `after` is `before` with snapshot `i` promoted and every other anchor
/// released.
pub open spec fn promotion(
    before: Seq<Snapshot>,
    after: Seq<Snapshot>,
    cleanup: Option<SnapperCleanupAlgorithm>,
    i: int,
) -> bool {
    &&& 0 <= i < before.len()
    &&& after.len() == before.len()
    &&& forall|j: int|
        0 <= j < before.len() ==> if j == i {
            promoted_from(before[j], #[trigger] after[j])
        } else if before[j].anchored() {
            released_from(before[j], #[trigger] after[j], cleanup)
        } else {
            #[trigger] after[j] == before[j]
        }
}

/// The indices in `order` list the snapshots by creation date, oldest first,
/// and in the order of `snaps` where the dates are the same.
pub open spec fn creation_sorted(snaps: Seq<Snapshot>, order: Seq<usize>) -> bool {
    forall|a: int, b: int|
        0 <= a < b < order.len() ==> !snaps[#[trigger] order[b] as int].date.precedes(
            snaps[#[trigger] order[a] as int].date,
        ) && (snaps[order[a] as int].date == snaps[order[b] as int].date ==> order[a] < order[b])
}

/// One transfer of a backup cycle: the snapshot to send, and the parent to
/// send it against, if any.
#[derive(Clone, Copy, Debug, PartialEq, Eq, Structural)]
pub struct SyncStep {
    pub snapshot: usize,
    pub parent: Option<usize>,
}

/// The transfers that sync the snapshots `order` one after the other: each
/// against the snapshot synced before it (the first against `anchor`) when
/// `incrementally`, else in full.
pub open spec fn sync_plan(anchor: Option<usize>, order: Seq<usize>, incrementally: bool) -> Seq<SyncStep> {
    Seq::new(
        order.len(),
        |k: int|
            SyncStep {
                snapshot: order[k],
                parent: if !incrementally {
                    None
                } else if k == 0 {
                    anchor
                } else {
                    Some(order[k - 1])
                },
            },
    )
}

proof fn lemma_push_contains<T>(s: Seq<T>, x: T)
    ensures
        forall|k: T| #[trigger] s.push(x).contains(k) <==> (s.contains(k) || k == x),
{
    assert forall|k: T| #[trigger] s.push(x).contains(k) <==> (s.contains(k) || k == x) by {
        if s.push(x).contains(k) {
            let q = choose|q: int| 0 <= q < s.len() + 1 && s.push(x)[q] == k;
            if q < s.len() {
                assert(s[q] == k);
            }
        }
        if s.contains(k) {
            let q = choose|q: int| 0 <= q < s.len() && s[q] == k;
            assert(s.push(x)[q] == k);
        }
        if k == x {
            assert(s.push(x)[s.len() as int] == k);
        }
    }
}

proof fn lemma_insert_contains<T>(s: Seq<T>, p: int, x: T)
    requires
        0 <= p <= s.len(),
    ensures
        forall|k: T| #[trigger] s.insert(p, x).contains(k) <==> (s.contains(k) || k == x),
{
    let t = s.insert(p, x);
    assert forall|k: T| #[trigger] t.contains(k) <==> (s.contains(k) || k == x) by {
        if t.contains(k) {
            let q = choose|q: int| 0 <= q < t.len() && t[q] == k;
            if q < p {
                assert(s[q] == k);
            } else if q > p {
                assert(s[q - 1] == k);
            }
        }
        if s.contains(k) {
            let q = choose|q: int| 0 <= q < s.len() && s[q] == k;
            if q < p {
                assert(t[q] == k);
            } else {
                assert(t[q + 1] == k);
            }
        }
        if k == x {
            assert(t[p] == k);
        }
    }
}

proof fn lemma_precedes_through(x: Timestamp, y: Timestamp, z: Timestamp)
    requires
        x.precedes(y),
        !z.precedes(y),
    ensures
        x.precedes(z),
{
}

/// A promotion leaves the promoted snapshot as the one and only anchor.
pub proof fn lemma_promotion_sole_anchor(
    before: Seq<Snapshot>,
    after: Seq<Snapshot>,
    cleanup: Option<SnapperCleanupAlgorithm>,
    i: int,
)
    requires
        promotion(before, after, cleanup, i),
    ensures
        sole_anchor(after, i),
{
    lemma_with_tag_lookup(before[i].tags(), ANCHOR_KEY@, TRUE_VALUE@, ANCHOR_KEY@);
    assert forall|j: int| 0 <= j < after.len() && j != i implies !(#[trigger] after[j]).anchored() by {
        if before[j].anchored() {
            lemma_with_tag_lookup(before[j].tags(), ANCHOR_KEY@, FALSE_VALUE@, ANCHOR_KEY@);
            lemma_false_is_not_true();
        }
    }
}

proof fn lemma_false_is_not_true()
    ensures
        FALSE_VALUE@ != TRUE_VALUE@,
{
    reveal_strlit("true");
    reveal_strlit("false");
    assert(TRUE_VALUE@.len() != FALSE_VALUE@.len());
}

/// Promoting `a` and then another snapshot `b` leaves `b` as the one and only
/// anchor, with `a` released.
pub proof fn lemma_promote_twice(
    first: Seq<Snapshot>,
    middle: Seq<Snapshot>,
    last: Seq<Snapshot>,
    cleanup: Option<SnapperCleanupAlgorithm>,
    a: int,
    b: int,
)
    requires
        promotion(first, middle, cleanup, a),
        promotion(middle, last, cleanup, b),
        a != b,
    ensures
        sole_anchor(last, b),
        !last[a].anchored(),
        released_from(middle[a], last[a], cleanup),
{
    lemma_promotion_sole_anchor(first, middle, cleanup, a);
    lemma_promotion_sole_anchor(middle, last, cleanup, b);
}

impl SnapperConfig {
    /// Index of the snapshot numbered `id` in a listing, if there is one.
    pub fn snapshot(snapshots: &Vec<Snapshot>, id: u64) -> (r: Option<usize>)
        ensures
            r matches Some(i) ==> i < snapshots@.len() && snapshots@[i as int].id == id,
            r is None ==> forall|j: int|
                0 <= j < snapshots@.len() ==> (#[trigger] snapshots@[j]).id != id,
    {
        let mut i: usize = 0;
        while i < snapshots.len()
            invariant
                i <= snapshots@.len(),
                forall|j: int| 0 <= j < i ==> (#[trigger] snapshots@[j]).id != id,
            decreases snapshots.len() - i,
        {
            if snapshots[i].id == id {
                return Some(i);
            }
            i += 1;
        }
        None
    }

    /// Index of the snapshot of a listing that anchors the next incremental
    /// sync: `None` before the first sync, an error when several carry the
    /// anchor flag.
    pub fn anchored_snapshot(snapshots: &Vec<Snapshot>) -> (r: Result<Option<usize>, ChainError>)
        ensures
            r matches Ok(None) <==> no_anchor(snapshots@),
            r matches Ok(Some(i)) ==> sole_anchor(snapshots@, i as int),
            r is Err <==> several_anchors(snapshots@),
    {
        let ghost snaps = snapshots@;
        let mut found: Option<usize> = None;
        let mut j: usize = 0;
        while j < snapshots.len()
            invariant
                snaps == snapshots@,
                j <= snaps.len(),
                found is None ==> forall|k: int| 0 <= k < j ==> !(#[trigger] snaps[k]).anchored(),
                found matches Some(f) ==> f < j && snaps[f as int].anchored() && forall|k: int|
                    0 <= k < j && k != f ==> !(#[trigger] snaps[k]).anchored(),
            decreases snapshots.len() - j,
        {
            if snapshots[j].is_anchored() {
                if let Some(f) = found {
                    assert(snaps[f as int].anchored() && snaps[j as int].anchored());
                    return Err(ChainError::MultipleAnchors);
                }
                found = Some(j);
            }
            j += 1;
        }
        proof {
            if several_anchors(snaps) {
                let (a, b) = choose|a: int, b: int|
                    0 <= a < b < snaps.len() && (#[trigger] snaps[a]).anchored() && (#[trigger] snaps[b]).anchored();
                assert(snaps[a].anchored() && snaps[b].anchored());
            }
        }
        Ok(found)
    }

    /// Indices of the snapshots of a listing explicitly marked as not yet
    /// synced, oldest first; of two created at the same second, the one listed
    /// first comes first.
    pub fn unsynced_snapshots(snapshots: &Vec<Snapshot>) -> (r: Vec<usize>)
        ensures
            forall|k: usize|
                r@.contains(k) <==> (k < snapshots@.len() && snapshots@[k as int].unsynced()),
            r@.no_duplicates(),
            creation_sorted(snapshots@, r@),
    {
        let ghost snaps = snapshots@;
        let mut order: Vec<usize> = Vec::new();
        let mut i: usize = 0;
        while i < snapshots.len()
            invariant
                snaps == snapshots@,
                i <= snaps.len(),
                forall|k: usize| order@.contains(k) <==> (k < i && snaps[k as int].unsynced()),
                forall|q: int| 0 <= q < order@.len() ==> #[trigger] order@[q] < i,
                order@.no_duplicates(),
                creation_sorted(snaps, order@),
            decreases snapshots.len() - i,
        {
            if snapshots[i].is_unsynced() {
                let date = &snapshots[i].date;
                let mut p: usize = order.len();
                while p > 0 && date.is_before(&snapshots[order[p - 1]].date)
                    invariant
                        snaps == snapshots@,
                        i < snaps.len(),
                        *date == snaps[i as int].date,
                        p <= order@.len(),
                        forall|q: int| 0 <= q < order@.len() ==> #[trigger] order@[q] < i,
                        forall|q: int|
                            p <= q < order@.len() ==> date.precedes(snaps[#[trigger] order@[q] as int].date),
                    decreases p,
                {
                    p -= 1;
                }
                let ghost before = order@;
                proof {
                    assert forall|a: int| 0 <= a < p implies !date.precedes(
                        snaps[#[trigger] before[a] as int].date,
                    ) by {
                        if date.precedes(snaps[before[a] as int].date) {
                            assert(a < p - 1);
                            assert(!snaps[before[p - 1] as int].date.precedes(snaps[before[a] as int].date));
                            lemma_precedes_through(*date, snaps[before[a] as int].date, snaps[before[p - 1] as int].date);
                        }
                    }
                    assert(!before.contains(i)) by {
                        if before.contains(i) {
                            let q = choose|q: int| 0 <= q < before.len() && before[q] == i;
                            assert(before[q] < i);
                        }
                    }
                }
                order.insert(p, i);
                proof {
                    let after = order@;
                    assert(after =~= before.insert(p as int, i));
                    lemma_insert_contains(before, p as int, i);
                    assert forall|q: int| 0 <= q < after.len() implies #[trigger] after[q] < i + 1 by {
                        if q < p {
                            assert(after[q] == before[q]);
                        } else if q > p {
                            assert(after[q] == before[q - 1]);
                        }
                    }
                    assert forall|a: int, b: int| 0 <= a < b < after.len() implies after[a] != after[b] by {
                        if a < p && b > p {
                            assert(after[b] == before[b - 1]);
                        } else if a == p {
                            assert(after[b] == before[b - 1]);
                            assert(before[b - 1] < i);
                        } else if b == p {
                            assert(after[a] == before[a]);
                            assert(before[a] < i);
                        } else if a > p {
                            assert(after[a] == before[a - 1] && after[b] == before[b - 1]);
                        } else {
                            assert(after[a] == before[a] && after[b] == before[b]);
                        }
                    }
                    assert forall|a: int, b: int| 0 <= a < b < after.len() implies !snaps[#[trigger] after[b] as int].date.precedes(
                        snaps[#[trigger] after[a] as int].date,
                    ) && (snaps[after[a] as int].date == snaps[after[b] as int].date ==> after[a] < after[b]) by {
                        if b < p {
                            assert(after[a] == before[a] && after[b] == before[b]);
                        } else if a > p {
                            assert(after[a] == before[a - 1] && after[b] == before[b - 1]);
                        } else if a < p && b > p {
                            assert(after[a] == before[a] && after[b] == before[b - 1]);
                        } else if a == p {
                            assert(after[b] == before[b - 1]);
                        } else {
                            assert(after[a] == before[a]);
                        }
                    }
                }
            } else {
                proof {
                    assert forall|k: usize| order@.contains(k) <==> (k < i + 1 && snaps[k as int].unsynced()) by {
                        if k == i && order@.contains(k) {
                            let q = choose|q: int| 0 <= q < order@.len() && order@[q] == k;
                            assert(order@[q] < i);
                        }
                    }
                }
            }
            i += 1;
        }
        order
    }
}

/// The snapshots of one snapper configuration, and the cleanup algorithm that
/// ordinary (not anchoring) snapshots get.
#[derive(Clone, Debug)]
pub struct SnapshotChain {
    pub snapshots: Vec<Snapshot>,
    pub cleanup_algorithm: Option<SnapperCleanupAlgorithm>,
}

impl SnapshotChain {
    /// A chain over `snapshots`.
    pub fn new(snapshots: Vec<Snapshot>, cleanup_algorithm: Option<SnapperCleanupAlgorithm>) -> (r: Self)
        ensures
            r.snapshots == snapshots,
            r.cleanup_algorithm == cleanup_algorithm,
    {
        SnapshotChain { snapshots, cleanup_algorithm }
    }

    /// Index of the snapshot numbered `id`, if there is one.
    pub fn position(&self, id: u64) -> (r: Option<usize>)
        ensures
            r matches Some(i) ==> i < self.snapshots@.len() && self.snapshots@[i as int].id == id,
            r is None ==> forall|j: int|
                0 <= j < self.snapshots@.len() ==> (#[trigger] self.snapshots@[j]).id != id,
    {
        SnapperConfig::snapshot(&self.snapshots, id)
    }

    /// The snapshot that anchors the next incremental sync: `None` before the
    /// first sync, an error when several carry the anchor flag.
    pub fn current_anchor(&self) -> (r: Result<Option<usize>, ChainError>)
        ensures
            r matches Ok(None) <==> no_anchor(self.snapshots@),
            r matches Ok(Some(i)) ==> sole_anchor(self.snapshots@, i as int),
            r is Err <==> several_anchors(self.snapshots@),
    {
        SnapperConfig::anchored_snapshot(&self.snapshots)
    }

    /// The snapshots explicitly marked as not yet synced, oldest first.
    pub fn unsynced_snapshots(&self) -> (r: Vec<usize>)
        ensures
            forall|k: usize|
                r@.contains(k) <==> (k < self.snapshots@.len() && self.snapshots@[k as int].unsynced()),
            r@.no_duplicates(),
            creation_sorted(self.snapshots@, r@),
    {
        SnapperConfig::unsynced_snapshots(&self.snapshots)
    }

    /// Makes snapshot `i` the one and only anchor: every other anchor is
    /// released and gets the ordinary cleanup algorithm back, and `i` loses its
    /// cleanup algorithm. Returns the indices of the snapshots that changed.
    pub fn promote(&mut self, i: usize) -> (changed: Vec<usize>)
        requires
            i < old(self).snapshots@.len(),
            old(self).snapshots@[i as int].synced_spec(),
        ensures
            final(self).cleanup_algorithm == old(self).cleanup_algorithm,
            promotion(old(self).snapshots@, final(self).snapshots@, old(self).cleanup_algorithm, i as int),
            sole_anchor(final(self).snapshots@, i as int),
            final(self).snapshots@[i as int].synced_spec(),
            forall|k: usize|
                changed@.contains(k) <==> (k == i || (k < old(self).snapshots@.len()
                    && old(self).snapshots@[k as int].anchored())),
    {
        let ghost before = self.snapshots@;
        let cleanup = self.cleanup_algorithm;
        let mut changed: Vec<usize> = Vec::new();
        let mut j: usize = 0;
        while j < self.snapshots.len()
            invariant
                self.cleanup_algorithm == cleanup,
                self.snapshots@.len() == before.len(),
                i < before.len(),
                j <= before.len(),
                forall|k: int|
                    0 <= k < before.len() && (k >= j || k == i) ==> #[trigger] self.snapshots@[k] == before[k],
                forall|k: int|
                    0 <= k < j && k != i ==> if before[k].anchored() {
                        released_from(before[k], #[trigger] self.snapshots@[k], cleanup)
                    } else {
                        #[trigger] self.snapshots@[k] == before[k]
                    },
                forall|k: usize| changed@.contains(k) <==> (k < j && k != i && before[k as int].anchored()),
            decreases before.len() - j,
        {
            let ghost changed_before = changed@;
            if j != i && self.snapshots[j].is_anchored() {
                self.snapshots[j].release();
                self.snapshots[j].set_cleanup(cleanup);
                changed.push(j);
                proof {
                    lemma_push_contains(changed_before, j);
                }
            }
            j += 1;
        }
        self.snapshots[i].anchor();
        self.snapshots[i].set_cleanup(None);
        let ghost changed_before = changed@;
        changed.push(i);
        proof {
            let after = self.snapshots@;
            lemma_with_tag_lookup(before[i as int].tags(), ANCHOR_KEY@, TRUE_VALUE@, SYNCED_KEY@);
            reveal_strlit("anchor");
            reveal_strlit("synced");
            assert(ANCHOR_KEY@ != SYNCED_KEY@) by {
                assert(ANCHOR_KEY@[0] != SYNCED_KEY@[0]);
            }
            assert(promotion(before, after, cleanup, i as int));
            lemma_promotion_sole_anchor(before, after, cleanup, i as int);
            lemma_push_contains(changed_before, i);
        }
        changed
    }

    /// Releases snapshot `i` from anchoring: its anchor flag is cleared and it
    /// gets the ordinary cleanup algorithm back.
    pub fn demote(&mut self, i: usize)
        requires
            i < old(self).snapshots@.len(),
        ensures
            final(self).cleanup_algorithm == old(self).cleanup_algorithm,
            final(self).snapshots@.len() == old(self).snapshots@.len(),
            released_from(old(self).snapshots@[i as int], final(self).snapshots@[i as int], old(self).cleanup_algorithm),
            !final(self).snapshots@[i as int].anchored(),
            forall|k: int|
                0 <= k < old(self).snapshots@.len() && k != i ==> #[trigger] final(self).snapshots@[k] == old(self).snapshots@[k],
            at_most_one_anchor(old(self).snapshots@) ==> at_most_one_anchor(final(self).snapshots@),
    {
        let cleanup = self.cleanup_algorithm;
        self.snapshots[i].release();
        self.snapshots[i].set_cleanup(cleanup);
        proof {
            let (before, after) = (old(self).snapshots@, self.snapshots@);
            if several_anchors(after) {
                let (a, b) = choose|a: int, b: int|
                    0 <= a < b < after.len() && (#[trigger] after[a]).anchored() && (#[trigger] after[b]).anchored();
                assert(before[a].anchored() && before[b].anchored());
            }
        }
    }

    /// Marks snapshot `i` as synced after a successful transfer.
    pub fn mark_synced(&mut self, i: usize)
        requires
            i < old(self).snapshots@.len(),
        ensures
            final(self).cleanup_algorithm == old(self).cleanup_algorithm,
            final(self).snapshots@.len() == old(self).snapshots@.len(),
            final(self).snapshots@[i as int].tags() == with_tag(old(self).snapshots@[i as int].tags(), SYNCED_KEY@, TRUE_VALUE@),
            final(self).snapshots@[i as int].same_but_tags(&old(self).snapshots@[i as int]),
            final(self).snapshots@[i as int].synced_spec(),
            final(self).snapshots@[i as int].anchored() == old(self).snapshots@[i as int].anchored(),
            forall|k: int|
                0 <= k < old(self).snapshots@.len() && k != i ==> #[trigger] final(self).snapshots@[k] == old(self).snapshots@[k],
            at_most_one_anchor(old(self).snapshots@) ==> at_most_one_anchor(final(self).snapshots@),
    {
        self.snapshots[i].synced();
        proof {
            let (before, after) = (old(self).snapshots@, self.snapshots@);
            lemma_with_tag_lookup(before[i as int].tags(), SYNCED_KEY@, TRUE_VALUE@, ANCHOR_KEY@);
            reveal_strlit("anchor");
            reveal_strlit("synced");
            assert(ANCHOR_KEY@[0] != SYNCED_KEY@[0]);
            if several_anchors(after) {
                let (a, b) = choose|a: int, b: int|
                    0 <= a < b < after.len() && (#[trigger] after[a]).anchored() && (#[trigger] after[b]).anchored();
                assert(before[a].anchored() && before[b].anchored());
            }
        }
    }
}

/// The transfers of a backup cycle: the snapshots `order` one after the
/// other, each against the one synced before it (the first against `anchor`)
/// when `incrementally`, else each in full.
pub fn plan_syncs(anchor: Option<usize>, order: &Vec<usize>, incrementally: bool) -> (r: Vec<SyncStep>)
    ensures
        r@ == sync_plan(anchor, order@, incrementally),
{
    let mut steps: Vec<SyncStep> = Vec::new();
    let mut k: usize = 0;
    while k < order.len()
        invariant
            k <= order@.len(),
            steps@ == sync_plan(anchor, order@, incrementally).subrange(0, k as int),
        decreases order.len() - k,
    {
        let parent = if !incrementally {
            None
        } else if k == 0 {
            anchor
        } else {
            Some(order[k - 1])
        };
        steps.push(SyncStep { snapshot: order[k], parent });
        assert(steps@ =~= sync_plan(anchor, order@, incrementally).subrange(0, k + 1));
        k += 1;
    }
    assert(steps@ =~= sync_plan(anchor, order@, incrementally));
    steps
}

/// The anchor after syncing `order`: the last snapshot synced, or `anchor`
/// when there was none.
pub fn anchor_after(anchor: Option<usize>, order: &Vec<usize>) -> (r: Option<usize>)
    ensures
        order@.len() == 0 ==> r == anchor,
        order@.len() > 0 ==> r == Some(order@.last()),
{
    if order.len() == 0 {
        anchor
    } else {
        Some(order[order.len() - 1])
    }
}

} // verus!
