//! The dependent queue: items in promotion order, each of which may depend on
//! items before it.

use crate::error::DomainError;
use crate::ids::QueueItemId;
use crate::model::QueueItem;
use crate::oid::GitOid;
#[allow(unused_imports)]
use crate::oid::GitOidView;
#[allow(unused_imports)]
use crate::seqs::{
    lemma_distinct_no_longer, lemma_filter_agree, lemma_filter_all, lemma_filter_ends,
    lemma_filter_filter,
    lemma_filter_members, lemma_filter_step,
};
use vstd::prelude::*;

verus! {

/// A repository's queue. Items that have come to their end stay in it as history.
#[derive(Clone, Debug, PartialEq, Eq)]
pub struct DependentQueue {
    pub revision: u64,
    pub items: Vec<QueueItem>,
}

/// What an accepted change of the queue did.
#[derive(Clone, Debug, PartialEq, Eq)]
pub struct QueueMutation {
    pub old_revision: u64,
    pub new_revision: u64,
    pub invalidated: Vec<QueueItemId>,
    pub removed: Vec<QueueItemId>,
}

/// The item has not come to its end.
pub open spec fn is_active(item: QueueItem) -> bool {
    !item.state.terminal()
}

/// The items that have not come to their end, in queue order.
pub open spec fn active(items: Seq<QueueItem>) -> Seq<QueueItem> {
    items.filter(|item: QueueItem| is_active(item))
}

/// The identifiers of items.
pub open spec fn item_ids(items: Seq<QueueItem>) -> Seq<QueueItemId> {
    items.map_values(|item: QueueItem| item.id)
}

/// Some active item has the identifier.
pub open spec fn has_active(items: Seq<QueueItem>, id: QueueItemId) -> bool {
    exists|i: int| 0 <= i < items.len() && is_active(#[trigger] items[i]) && items[i].id == id
}

/// Position `i` holds the first active item with the given source.
pub open spec fn first_with_source(items: Seq<QueueItem>, source: GitOidView, i: int) -> bool {
    &&& 0 <= i < items.len()
    &&& is_active(items[i])
    &&& items[i].source_oid@ == source
    &&& forall|j: int|
        0 <= j < i && is_active(#[trigger] items[j]) ==> items[j].source_oid@ != source
}

/// Some active item has the given source.
pub open spec fn source_queued(items: Seq<QueueItem>, source: GitOidView) -> bool {
    exists|i: int|
        0 <= i < items.len() && is_active(#[trigger] items[i]) && items[i].source_oid@ == source
}

/// All of the item's dependencies are active.
pub open spec fn dependencies_active(items: Seq<QueueItem>, item: QueueItem) -> bool {
    forall|d: int|
        0 <= d < item.dependencies@.len() ==> has_active(items, #[trigger] item.dependencies@[d])
}

/// Item `i` names `dependency` among its dependencies.
pub open spec fn names_dependency(item: QueueItem, dependency: QueueItemId) -> bool {
    item.dependencies@.contains(dependency)
}

/// The identifier is `root`, or belongs to an active item that depends on `root`
/// through at most `steps` dependencies.
pub open spec fn depends_within(
    items: Seq<QueueItem>,
    root: QueueItemId,
    steps: nat,
    id: QueueItemId,
) -> bool
    decreases steps,
{
    if steps == 0 {
        id == root
    } else {
        ||| depends_within(items, root, (steps - 1) as nat, id)
        ||| exists|i: int, dependency: QueueItemId|
            {
                &&& 0 <= i < items.len()
                &&& is_active(items[i])
                &&& items[i].id == id
                &&& #[trigger] names_dependency(items[i], dependency)
                &&& depends_within(items, root, (steps - 1) as nat, dependency)
            }
    }
}

/// Canceling `root` takes `id` with it: it is `root` itself, or an active item
/// that depends on `root`, directly or through others.
pub open spec fn doomed(items: Seq<QueueItem>, root: QueueItemId, id: QueueItemId) -> bool {
    exists|steps: nat| #[trigger] depends_within(items, root, steps, id)
}

/// Position `i` holds the last active item with the identifier.
pub open spec fn last_active_at(items: Seq<QueueItem>, id: QueueItemId, i: int) -> bool {
    &&& 0 <= i < items.len()
    &&& is_active(items[i])
    &&& items[i].id == id
    &&& forall|j: int| i < j < items.len() && is_active(#[trigger] items[j]) ==> items[j].id != id
}

/// What canceling `root` removes, in queue order.
pub open spec fn doomed_ids(items: Seq<QueueItem>, root: QueueItemId) -> Seq<QueueItemId> {
    item_ids(items.filter(|item: QueueItem| doomed(items, root, item.id)))
}

/// The active items after position `i` that canceling `root` leaves in place.
pub open spec fn survivors_after(items: Seq<QueueItem>, root: QueueItemId, i: int) -> Seq<
    QueueItemId,
> {
    item_ids(
        items.skip(i + 1).filter(
            |item: QueueItem| is_active(item) && !doomed(items, root, item.id),
        ),
    )
}

/// The order lists each active item, and nothing else, as often as there are active items.
pub open spec fn lists_active(items: Seq<QueueItem>, ordered: Seq<QueueItemId>) -> bool {
    &&& ordered.len() == active(items).len()
    &&& forall|id: QueueItemId| #[trigger] ordered.contains(id) <==> has_active(items, id)
}

/// `a` stands somewhere before `b` in the order.
pub open spec fn stands_before(
    ordered: Seq<QueueItemId>,
    a: QueueItemId,
    b: QueueItemId,
) -> bool {
    exists|p: int, q: int|
        0 <= p < q < ordered.len() && #[trigger] ordered[p] == a && #[trigger] ordered[q] == b
}

/// Every active item stands after all of its dependencies.
pub open spec fn respects_dependencies(
    items: Seq<QueueItem>,
    ordered: Seq<QueueItemId>,
) -> bool {
    forall|i: int, d: int|
        #![trigger items[i].dependencies@[d]]
        0 <= i < items.len() && is_active(items[i]) && 0 <= d < items[i].dependencies@.len()
            ==> stands_before(ordered, items[i].dependencies@[d], items[i].id)
}

/// No two items share an identifier.
pub open spec fn distinct_ids(items: Seq<QueueItem>) -> bool {
    item_ids(items).no_duplicates()
}

/// Position `k` is the first at which the two orders differ, or their end.
pub open spec fn first_change(
    before: Seq<QueueItemId>,
    after: Seq<QueueItemId>,
    k: int,
) -> bool {
    &&& 0 <= k <= after.len()
    &&& forall|j: int| 0 <= j < k ==> before[j] == #[trigger] after[j]
    &&& k < after.len() ==> before[k] != after[k]
}

/// The queue takes the item up.
pub open spec fn takes_up(
    items: Seq<QueueItem>,
    revision: u64,
    item: QueueItem,
    expected: u64,
) -> bool {
    revision == expected && !source_queued(items, item.source_oid@) && dependencies_active(
        items,
        item,
    )
}

/// The queue lets the item go.
pub open spec fn lets_go(
    items: Seq<QueueItem>,
    revision: u64,
    id: QueueItemId,
    expected: u64,
) -> bool {
    revision == expected && has_active(items, id)
}

/// The queue takes on the order.
pub open spec fn takes_on(
    items: Seq<QueueItem>,
    revision: u64,
    ordered: Seq<QueueItemId>,
    expected: u64,
) -> bool {
    revision == expected && lists_active(items, ordered) && respects_dependencies(items, ordered)
}

/// The same items, with the active ones in the given order and the others behind them.
pub open spec fn reordered(
    before: Seq<QueueItem>,
    ordered: Seq<QueueItemId>,
    after: Seq<QueueItem>,
) -> bool {
    &&& after.len() == before.len()
    &&& item_ids(after.take(ordered.len() as int)) == ordered
    &&& forall|k: int| 0 <= k < ordered.len() ==> before.contains(#[trigger] after[k]) && is_active(
        after[k],
    )
    &&& after.skip(ordered.len() as int) == before.filter(|item: QueueItem| !is_active(item))
}

proof fn lemma_has_active_step(items: Seq<QueueItem>, n: int, id: QueueItemId)
    requires
        0 <= n < items.len(),
    ensures
        has_active(items.take(n + 1), id) <==> has_active(items.take(n), id) || (is_active(items[n])
            && items[n].id == id),
{
    let small = items.take(n);
    let big = items.take(n + 1);
    if has_active(small, id) {
        let i = choose|i: int|
            0 <= i < small.len() && is_active(#[trigger] small[i]) && small[i].id == id;
        assert(big[i] == small[i]);
    }
    if is_active(items[n]) && items[n].id == id {
        assert(big[n] == items[n]);
    }
    if has_active(big, id) {
        let i = choose|i: int|
            0 <= i < big.len() && is_active(#[trigger] big[i]) && big[i].id == id;
        if i < n {
            assert(small[i] == big[i]);
        }
    }
}

/// The set of doomed identifiers is the least one that holds the root and every
/// active item with a dependency in it.
proof fn lemma_doomed_least(
    items: Seq<QueueItem>,
    root: QueueItemId,
    closed: Seq<QueueItemId>,
    steps: nat,
    id: QueueItemId,
)
    requires
        closed.contains(root),
        forall|i: int, dependency: QueueItemId|
            0 <= i < items.len() && is_active(items[i]) && #[trigger] names_dependency(
                items[i],
                dependency,
            ) && closed.contains(dependency) ==> closed.contains(items[i].id),
        depends_within(items, root, steps, id),
    ensures
        closed.contains(id),
    decreases steps,
{
    if steps > 0 {
        if depends_within(items, root, (steps - 1) as nat, id) {
            lemma_doomed_least(items, root, closed, (steps - 1) as nat, id);
        } else {
            let (i, dependency) = choose|i: int, dependency: QueueItemId|
                {
                    &&& 0 <= i < items.len()
                    &&& is_active(items[i])
                    &&& items[i].id == id
                    &&& #[trigger] names_dependency(items[i], dependency)
                    &&& depends_within(items, root, (steps - 1) as nat, dependency)
                };
            lemma_doomed_least(items, root, closed, (steps - 1) as nat, dependency);
        }
    }
}

proof fn lemma_doomed_step(
    items: Seq<QueueItem>,
    root: QueueItemId,
    i: int,
    dependency: QueueItemId,
)
    requires
        0 <= i < items.len(),
        is_active(items[i]),
        names_dependency(items[i], dependency),
        doomed(items, root, dependency),
    ensures
        doomed(items, root, items[i].id),
{
    let steps = choose|steps: nat| depends_within(items, root, steps, dependency);
    assert(depends_within(items, root, steps + 1, items[i].id));
}

/// Whether the identifier occurs in the list.
fn contains_id(ids: &Vec<QueueItemId>, id: QueueItemId) -> (r: bool)
    ensures
        r == ids@.contains(id),
{
    let mut i: usize = 0;
    while i < ids.len()
        invariant
            i <= ids.len(),
            forall|j: int| 0 <= j < i ==> ids@[j] != id,
        decreases ids.len() - i,
    {
        if ids[i] == id {
            return true;
        }
        i += 1;
    }
    false
}

/// The position of the identifier in a list.
fn position_of(ids: &[QueueItemId], id: QueueItemId) -> (r: Option<usize>)
    ensures
        r is Some <==> ids@.contains(id),
        r matches Some(p) ==> p < ids@.len() && ids@[p as int] == id,
{
    let mut i: usize = 0;
    while i < ids.len()
        invariant
            i <= ids.len(),
            forall|j: int| 0 <= j < i ==> ids@[j] != id,
        decreases ids.len() - i,
    {
        if ids[i] == id {
            return Some(i);
        }
        i += 1;
    }
    None
}

impl DependentQueue {
    /// An empty queue.
    pub fn new() -> (r: DependentQueue)
        ensures
            r.revision == 0,
            r.items@.len() == 0,
    {
        DependentQueue { revision: 0, items: Vec::new() }
    }

    /// The items that have not come to their end, in queue order.
    pub fn active_items(&self) -> (r: Vec<&QueueItem>)
        ensures
            r@.len() == active(self.items@).len(),
            forall|k: int| 0 <= k < r@.len() ==> *#[trigger] r@[k] == active(self.items@)[k],
    {
        let mut out: Vec<&QueueItem> = Vec::new();
        let mut i: usize = 0;
        let ghost pred = |item: QueueItem| is_active(item);
        proof {
            lemma_filter_ends(self.items@, pred);
        }
        while i < self.items.len()
            invariant
                i <= self.items.len(),
                pred == (|item: QueueItem| is_active(item)),
                out@.len() == self.items@.take(i as int).filter(pred).len(),
                forall|k: int|
                    0 <= k < out@.len() ==> *#[trigger] out@[k] == self.items@.take(
                        i as int,
                    ).filter(pred)[k],
            decreases self.items.len() - i,
        {
            proof {
                lemma_filter_step(self.items@, pred, i as int);
            }
            if !self.items[i].state.is_terminal() {
                out.push(&self.items[i]);
            }
            i += 1;
        }
        proof {
            lemma_filter_ends(self.items@, pred);
        }
        out
    }

    fn guard_revision(&self, expected: u64) -> (r: Result<(), DomainError>)
        ensures
            r is Ok <==> self.revision == expected,
            r matches Err(error) ==> error == (DomainError::RevisionConflict {
                expected,
                actual: self.revision,
            }),
    {
        if self.revision != expected {
            return Err(DomainError::RevisionConflict { expected, actual: self.revision });
        }
        Ok(())
    }

    fn is_active_id(&self, id: QueueItemId) -> (r: bool)
        ensures
            r == has_active(self.items@, id),
    {
        let mut i: usize = 0;
        while i < self.items.len()
            invariant
                i <= self.items.len(),
                !has_active(self.items@.take(i as int), id),
            decreases self.items.len() - i,
        {
            proof {
                lemma_has_active_step(self.items@, i as int, id);
            }
            if !self.items[i].state.is_terminal() && self.items[i].id == id {
                return true;
            }
            i += 1;
        }
        assert(self.items@.take(i as int) =~= self.items@);
        false
    }

    /// Appends an item. The source must not be active already, and all of the
    /// item's dependencies must be.
    pub fn enqueue(&mut self, item: QueueItem, expected_revision: u64) -> (r: Result<
        QueueMutation,
        DomainError,
    >)
        requires
            old(self).revision < u64::MAX,
        ensures
            r is Ok <==> takes_up(old(self).items@, old(self).revision, item, expected_revision),
            r is Ok <==> old(self).revision == expected_revision && !source_queued(
                old(self).items@,
                item.source_oid@,
            ) && dependencies_active(old(self).items@, item),
            r matches Ok(mutation) ==> {
                &&& final(self).items@ == old(self).items@.push(item)
                &&& final(self).revision == old(self).revision + 1
                &&& mutation.old_revision == old(self).revision
                &&& mutation.new_revision == final(self).revision
                &&& mutation.invalidated@.len() == 0
                &&& mutation.removed@.len() == 0
            },
            r matches Err(error) ==> *final(self) == *old(self) && if old(self).revision
                != expected_revision {
                error == (DomainError::RevisionConflict {
                    expected: expected_revision,
                    actual: old(self).revision,
                })
            } else if source_queued(old(self).items@, item.source_oid@) {
                exists|i: int|
                    first_with_source(old(self).items@, item.source_oid@, i) && error
                        == DomainError::DuplicateSource((#[trigger] old(self).items@[i]).id)
            } else {
                error == DomainError::DependencyOrder
            },
    {
        self.guard_revision(expected_revision)?;
        let mut i: usize = 0;
        while i < self.items.len()
            invariant
                i <= self.items.len(),
                *self == *old(self),
                old(self).revision == expected_revision,
                forall|j: int|
                    0 <= j < i && is_active(#[trigger] self.items@[j])
                        ==> self.items@[j].source_oid@ != item.source_oid@,
            decreases self.items.len() - i,
        {
            if !self.items[i].state.is_terminal() && self.items[i].source_oid.same(
                &item.source_oid,
            ) {
                assert(first_with_source(self.items@, item.source_oid@, i as int));
                return Err(DomainError::DuplicateSource(self.items[i].id));
            }
            i += 1;
        }
        let mut d: usize = 0;
        while d < item.dependencies.len()
            invariant
                d <= item.dependencies.len(),
                *self == *old(self),
                old(self).revision == expected_revision,
                !source_queued(self.items@, item.source_oid@),
                forall|e: int|
                    0 <= e < d ==> has_active(self.items@, #[trigger] item.dependencies@[e]),
            decreases item.dependencies.len() - d,
        {
            if !self.is_active_id(item.dependencies[d]) {
                assert(!has_active(self.items@, item.dependencies@[d as int]));
                return Err(DomainError::DependencyOrder);
            }
            d += 1;
        }
        let old_revision = self.revision;
        self.items.push(item);
        self.revision = self.revision + 1;
        Ok(
            QueueMutation {
                old_revision,
                new_revision: self.revision,
                invalidated: Vec::new(),
                removed: Vec::new(),
            },
        )
    }

    /// The identifiers that canceling `root` removes, without duplicates.
    fn doomed_set(&self, root: QueueItemId) -> (r: Vec<QueueItemId>)
        ensures
            forall|id: QueueItemId| r@.contains(id) <==> #[trigger] doomed(self.items@, root, id),
    {
        let ghost items = self.items@;
        let mut removed: Vec<QueueItemId> = Vec::new();
        removed.push(root);
        let mut growing = true;
        let ghost candidates = item_ids(items).push(root);
        proof {
            assert(removed@[0] == root);
            assert(depends_within(items, root, 0, root));
            assert(candidates[items.len() as int] == root);
        }
        while growing
            invariant
                items == self.items@,
                candidates == item_ids(items).push(root),
                removed@.contains(root),
                removed@.no_duplicates(),
                forall|k: int| 0 <= k < removed@.len() ==> candidates.contains(
                    #[trigger] removed@[k],
                ),
                forall|k: int| 0 <= k < removed@.len() ==> doomed(items, root, #[trigger] removed@[k]),
                !growing ==> forall|i: int, dependency: QueueItemId|
                    0 <= i < items.len() && is_active(items[i]) && #[trigger] names_dependency(
                        items[i],
                        dependency,
                    ) && removed@.contains(dependency) ==> removed@.contains(items[i].id),
            decreases candidates.len() + 1 - removed@.len(), (if growing { 1int } else { 0int }),
        {
            let before = removed.len();
            let ghost start = removed@;
            growing = false;
            let mut i: usize = 0;
            while i < self.items.len()
                invariant
                    i <= self.items.len(),
                    items == self.items@,
                    candidates == item_ids(items).push(root),
                    removed@.contains(root),
                    removed@.no_duplicates(),
                    start.len() <= removed@.len(),
                    !growing ==> removed@ == start,
                    growing ==> removed@.len() > start.len(),
                    forall|k: int| 0 <= k < removed@.len() ==> candidates.contains(
                        #[trigger] removed@[k],
                    ),
                    forall|k: int|
                        0 <= k < removed@.len() ==> doomed(items, root, #[trigger] removed@[k]),
                    !growing ==> forall|j: int, dependency: QueueItemId|
                        0 <= j < i && is_active(items[j]) && #[trigger] names_dependency(
                            items[j],
                            dependency,
                        ) && removed@.contains(dependency) ==> removed@.contains(items[j].id),
                decreases self.items.len() - i,
            {
                if !self.items[i].state.is_terminal() && !contains_id(&removed, self.items[i].id) {
                    let mut d: usize = 0;
                    let mut found = false;
                    while d < self.items[i].dependencies.len() && !found
                        invariant
                            i < self.items.len(),
                            items == self.items@,
                            d <= items[i as int].dependencies@.len(),
                            !found ==> forall|e: int|
                                0 <= e < d ==> !removed@.contains(
                                    #[trigger] items[i as int].dependencies@[e],
                                ),
                            found ==> exists|e: int|
                                0 <= e < items[i as int].dependencies@.len() && removed@.contains(
                                    #[trigger] items[i as int].dependencies@[e],
                                ),
                        decreases self.items[i as int].dependencies.len() - d,
                    {
                        if contains_id(&removed, self.items[i].dependencies[d]) {
                            found = true;
                        }
                        d += 1;
                    }
                    if found {
                        proof {
                            let e = choose|e: int|
                                0 <= e < items[i as int].dependencies@.len() && removed@.contains(
                                    #[trigger] items[i as int].dependencies@[e],
                                );
                            let dependency = items[i as int].dependencies@[e];
                            let k = choose|k: int| 0 <= k < removed@.len() && removed@[k] == dependency;
                            assert(doomed(items, root, removed@[k]));
                            assert(names_dependency(items[i as int], dependency));
                            lemma_doomed_step(items, root, i as int, dependency);
                            assert(candidates[i as int] == items[i as int].id);
                        }
                        let ghost previous = removed@;
                        removed.push(self.items[i].id);
                        proof {
                            let r = choose|k: int| 0 <= k < previous.len() && previous[k] == root;
                            assert(removed@[r] == root);
                        }
                        growing = true;
                    } else {
                        assert forall|dependency: QueueItemId| #[trigger]
                            names_dependency(items[i as int], dependency) implies !removed@.contains(
                            dependency,
                        ) by {
                            let e = choose|e: int|
                                0 <= e < items[i as int].dependencies@.len()
                                    && items[i as int].dependencies@[e] == dependency;
                            assert(!removed@.contains(items[i as int].dependencies@[e]));
                        }
                    }
                }
                i += 1;
            }
            proof {
                lemma_distinct_no_longer(removed@, candidates);
            }
        }
        proof {
            assert forall|id: QueueItemId| removed@.contains(id) <==> #[trigger] doomed(
                items,
                root,
                id,
            ) by {
                if removed@.contains(id) {
                    let k = choose|k: int| 0 <= k < removed@.len() && removed@[k] == id;
                    assert(doomed(items, root, removed@[k]));
                }
                if doomed(items, root, id) {
                    let steps = choose|steps: nat| depends_within(items, root, steps, id);
                    lemma_doomed_least(items, root, removed@, steps, id);
                }
            }
        }
        removed
    }

    /// Cancels an active item. Every active item that depends on it goes with it,
    /// and the remaining active items behind it have to be validated anew. The
    /// items themselves are left to the caller to move to their new states.
    pub fn cancel(&mut self, id: QueueItemId, expected_revision: u64) -> (r: Result<
        QueueMutation,
        DomainError,
    >)
        requires
            old(self).revision < u64::MAX,
        ensures
            r is Ok <==> lets_go(old(self).items@, old(self).revision, id, expected_revision),
            final(self).items == old(self).items,
            r is Ok <==> old(self).revision == expected_revision && has_active(old(self).items@, id),
            r matches Ok(mutation) ==> {
                &&& final(self).revision == old(self).revision + 1
                &&& mutation.old_revision == old(self).revision
                &&& mutation.new_revision == final(self).revision
                &&& mutation.removed@ == doomed_ids(old(self).items@, id)
                &&& exists|i: int|
                    #[trigger] last_active_at(old(self).items@, id, i) && mutation.invalidated@
                        == survivors_after(old(self).items@, id, i)
            },
            r matches Err(error) ==> *final(self) == *old(self) && if old(self).revision
                != expected_revision {
                error == (DomainError::RevisionConflict {
                    expected: expected_revision,
                    actual: old(self).revision,
                })
            } else {
                error == DomainError::ItemNotFound(id)
            },
    {
        self.guard_revision(expected_revision)?;
        let ghost items = self.items@;
        let mut position: Option<usize> = None;
        let mut i: usize = 0;
        while i < self.items.len()
            invariant
                i <= self.items.len(),
                *self == *old(self),
                items == self.items@,
                position matches Some(p) ==> p < i && is_active(items[p as int]) && items[p as int].id
                    == id && forall|j: int|
                    p < j < i && is_active(#[trigger] items[j]) ==> items[j].id != id,
                position is None ==> forall|j: int|
                    0 <= j < i && is_active(#[trigger] items[j]) ==> items[j].id != id,
            decreases self.items.len() - i,
        {
            if !self.items[i].state.is_terminal() && self.items[i].id == id {
                position = Some(i);
            }
            i += 1;
        }
        let at = match position {
            Some(at) => at,
            None => {
                return Err(DomainError::ItemNotFound(id));
            },
        };
        assert(last_active_at(items, id, at as int));
        let doomed_set = self.doomed_set(id);

        let ghost survives = |item: QueueItem| is_active(item) && !doomed(items, id, item.id);
        let ghost tail = items.skip(at + 1);
        let mut invalidated: Vec<QueueItemId> = Vec::new();
        proof {
            lemma_filter_ends(tail, survives);
        }
        let mut j: usize = at + 1;
        while j < self.items.len()
            invariant
                at < j <= self.items.len(),
                *self == *old(self),
                items == self.items@,
                tail == items.skip(at + 1),
                survives == (|item: QueueItem|
                    is_active(item) && !doomed(items, id, item.id)),
                forall|x: QueueItemId|
                    doomed_set@.contains(x) <==> #[trigger] doomed(items, id, x),
                invalidated@ == item_ids(tail.take(j - at - 1).filter(survives)),
            decreases self.items.len() - j,
        {
            proof {
                lemma_filter_step(tail, survives, j - at - 1);
                assert(tail[j - at - 1] == items[j as int]);
            }
            if !self.items[j].state.is_terminal() && !contains_id(&doomed_set, self.items[j].id) {
                invalidated.push(self.items[j].id);
            }
            j += 1;
            assert(invalidated@ =~= item_ids(tail.take(j - at - 1).filter(survives)));
        }
        proof {
            lemma_filter_ends(tail, survives);
        }

        let ghost goes = |item: QueueItem| doomed(items, id, item.id);
        let mut removed: Vec<QueueItemId> = Vec::new();
        proof {
            lemma_filter_ends(items, goes);
        }
        let mut k: usize = 0;
        while k < self.items.len()
            invariant
                k <= self.items.len(),
                *self == *old(self),
                items == self.items@,
                goes == (|item: QueueItem| doomed(items, id, item.id)),
                forall|x: QueueItemId|
                    doomed_set@.contains(x) <==> #[trigger] doomed(items, id, x),
                removed@ == item_ids(items.take(k as int).filter(goes)),
            decreases self.items.len() - k,
        {
            proof {
                lemma_filter_step(items, goes, k as int);
            }
            if contains_id(&doomed_set, self.items[k].id) {
                removed.push(self.items[k].id);
            }
            k += 1;
            assert(removed@ =~= item_ids(items.take(k as int).filter(goes)));
        }
        proof {
            lemma_filter_ends(items, goes);
        }
        let old_revision = self.revision;
        self.revision = self.revision + 1;
        Ok(QueueMutation { old_revision, new_revision: self.revision, invalidated, removed })
    }

    fn active_ids(&self) -> (r: Vec<QueueItemId>)
        ensures
            r@ == item_ids(active(self.items@)),
    {
        let mut out: Vec<QueueItemId> = Vec::new();
        let mut i: usize = 0;
        let ghost pred = |item: QueueItem| is_active(item);
        proof {
            lemma_filter_ends(self.items@, pred);
        }
        while i < self.items.len()
            invariant
                i <= self.items.len(),
                pred == (|item: QueueItem| is_active(item)),
                out@ == item_ids(self.items@.take(i as int).filter(pred)),
            decreases self.items.len() - i,
        {
            proof {
                lemma_filter_step(self.items@, pred, i as int);
            }
            if !self.items[i].state.is_terminal() {
                out.push(self.items[i].id);
            }
            i += 1;
            assert(out@ =~= item_ids(self.items@.take(i as int).filter(pred)));
        }
        proof {
            lemma_filter_ends(self.items@, pred);
        }
        out
    }

    /// Whether the order lists exactly the active items.
    fn check_members(&self, active_ids: &Vec<QueueItemId>, ordered: &[QueueItemId]) -> (r: bool)
        requires
            active_ids@ == item_ids(active(self.items@)),
        ensures
            r == lists_active(self.items@, ordered@),
    {
        proof {
            lemma_active_ids(self.items@);
        }
        if active_ids.len() != ordered.len() {
            return false;
        }
        let mut i: usize = 0;
        while i < ordered.len()
            invariant
                i <= ordered@.len(),
                active_ids@ == item_ids(active(self.items@)),
                forall|id: QueueItemId|
                    active_ids@.contains(id) <==> #[trigger] has_active(self.items@, id),
                forall|j: int| 0 <= j < i ==> active_ids@.contains(#[trigger] ordered@[j]),
            decreases ordered@.len() - i,
        {
            if !contains_id(active_ids, ordered[i]) {
                assert(ordered@.contains(ordered@[i as int]));
                assert(!has_active(self.items@, ordered@[i as int]));
                return false;
            }
            i += 1;
        }
        let mut k: usize = 0;
        while k < active_ids.len()
            invariant
                k <= active_ids@.len(),
                active_ids@ == item_ids(active(self.items@)),
                forall|id: QueueItemId|
                    active_ids@.contains(id) <==> #[trigger] has_active(self.items@, id),
                forall|j: int| 0 <= j < k ==> ordered@.contains(#[trigger] active_ids@[j]),
            decreases active_ids@.len() - k,
        {
            match position_of(ordered, active_ids[k]) {
                Some(_) => {},
                None => {
                    assert(active_ids@.contains(active_ids@[k as int]));
                    assert(has_active(self.items@, active_ids@[k as int]));
                    assert(!ordered@.contains(active_ids@[k as int]));
                    return false;
                },
            }
            k += 1;
        }
        assert forall|id: QueueItemId| #[trigger] ordered@.contains(id) <==> has_active(
            self.items@,
            id,
        ) by {
            if ordered@.contains(id) {
                let j = choose|j: int| 0 <= j < ordered@.len() && ordered@[j] == id;
                assert(active_ids@.contains(ordered@[j]));
            }
            if has_active(self.items@, id) {
                assert(active_ids@.contains(id));
                let j = choose|j: int| 0 <= j < active_ids@.len() && active_ids@[j] == id;
                assert(ordered@.contains(active_ids@[j]));
            }
        }
        true
    }

    /// Whether the order puts every active item behind all of its dependencies.
    fn check_order(&self, ordered: &[QueueItemId]) -> (r: bool)
        requires
            ordered@.no_duplicates(),
        ensures
            r == respects_dependencies(self.items@, ordered@),
    {
        let ghost items = self.items@;
        let mut i: usize = 0;
        while i < self.items.len()
            invariant
                i <= self.items.len(),
                items == self.items@,
                ordered@.no_duplicates(),
                forall|j: int, d: int|
                    #![trigger items[j].dependencies@[d]]
                    0 <= j < i && is_active(items[j]) && 0 <= d < items[j].dependencies@.len()
                        ==> stands_before(ordered@, items[j].dependencies@[d], items[j].id),
            decreases self.items.len() - i,
        {
            if !self.items[i].state.is_terminal() {
                let mut d: usize = 0;
                while d < self.items[i].dependencies.len()
                    invariant
                        i < self.items.len(),
                        items == self.items@,
                        is_active(items[i as int]),
                        ordered@.no_duplicates(),
                        d <= items[i as int].dependencies@.len(),
                        forall|e: int|
                            #![trigger items[i as int].dependencies@[e]]
                            0 <= e < d ==> stands_before(
                                ordered@,
                                items[i as int].dependencies@[e],
                                items[i as int].id,
                            ),
                    decreases items[i as int].dependencies@.len() - d,
                {
                    let ghost dependency = items[i as int].dependencies@[d as int];
                    let first = position_of(ordered, self.items[i].dependencies[d]);
                    let second = position_of(ordered, self.items[i].id);
                    let fine = match (first, second) {
                        (Some(p), Some(q)) => p < q,
                        _ => false,
                    };
                    if !fine {
                        assert(!stands_before(ordered@, dependency, items[i as int].id)) by {
                            if stands_before(ordered@, dependency, items[i as int].id) {
                                let (p, q) = choose|p: int, q: int|
                                    0 <= p < q < ordered@.len() && #[trigger] ordered@[p]
                                        == dependency && #[trigger] ordered@[q]
                                        == items[i as int].id;
                                assert(ordered@.contains(dependency));
                                assert(ordered@.contains(items[i as int].id));
                            }
                        }
                        return false;
                    }
                    d += 1;
                }
            }
            i += 1;
        }
        true
    }

    /// Puts the active items into a new order. The order must list each of them
    /// exactly once and keep every item behind its dependencies. From the first
    /// changed position on, the items have to be validated anew.
    pub fn reorder(&mut self, ordered: &[QueueItemId], expected_revision: u64) -> (r: Result<
        QueueMutation,
        DomainError,
    >)
        requires
            old(self).revision < u64::MAX,
            distinct_ids(old(self).items@),
        ensures
            r is Ok <==> takes_on(
                old(self).items@,
                old(self).revision,
                ordered@,
                expected_revision,
            ),
            r is Ok <==> old(self).revision == expected_revision && lists_active(
                old(self).items@,
                ordered@,
            ) && respects_dependencies(old(self).items@, ordered@),
            r matches Ok(mutation) ==> {
                &&& reordered(old(self).items@, ordered@, final(self).items@)
                &&& final(self).revision == old(self).revision + 1
                &&& mutation.old_revision == old(self).revision
                &&& mutation.new_revision == final(self).revision
                &&& mutation.removed@.len() == 0
                &&& exists|k: int|
                    #[trigger] first_change(item_ids(active(old(self).items@)), ordered@, k)
                        && mutation.invalidated@ == ordered@.skip(k)
            },
            r matches Err(error) ==> *final(self) == *old(self) && if old(self).revision
                != expected_revision {
                error == (DomainError::RevisionConflict {
                    expected: expected_revision,
                    actual: old(self).revision,
                })
            } else if !lists_active(old(self).items@, ordered@) {
                error matches DomainError::InvalidInput(reason) && reason@
                    == "reorder must include every active queue item exactly once"@
            } else {
                error == DomainError::DependencyOrder
            },
    {
        self.guard_revision(expected_revision)?;
        let active_ids = self.active_ids();
        if !self.check_members(&active_ids, ordered) {
            return Err(
                DomainError::InvalidInput(
                    "reorder must include every active queue item exactly once".to_owned(),
                ),
            );
        }
        let ghost items = self.items@;
        proof {
            lemma_order_is_distinct(items, ordered@);
        }
        if !self.check_order(ordered) {
            return Err(DomainError::DependencyOrder);
        }
        let mut start: usize = 0;
        while start < ordered.len() && active_ids[start] == ordered[start]
            invariant
                start <= ordered@.len(),
                ordered@.len() == active_ids@.len(),
                forall|j: int| 0 <= j < start ==> active_ids@[j] == #[trigger] ordered@[j],
            decreases ordered@.len() - start,
        {
            start += 1;
        }
        assert(first_change(active_ids@, ordered@, start as int));
        let mut invalidated: Vec<QueueItemId> = Vec::new();
        let mut m: usize = start;
        while m < ordered.len()
            invariant
                start <= m <= ordered@.len(),
                invalidated@ == ordered@.subrange(start as int, m as int),
            decreases ordered@.len() - m,
        {
            invalidated.push(ordered[m]);
            m += 1;
            assert(invalidated@ =~= ordered@.subrange(start as int, m as int));
        }
        assert(invalidated@ =~= ordered@.skip(start as int));

        let mut rest: Vec<QueueItem> = Vec::new();
        std::mem::swap(&mut rest, &mut self.items);
        let mut placed: Vec<QueueItem> = Vec::new();
        let mut k: usize = 0;
        proof {
            lemma_filter_all(items, |item: QueueItem| !ordered@.take(0).contains(item.id));
        }
        while k < ordered.len()
            invariant
                k <= ordered@.len(),
                distinct_ids(items),
                ordered@.no_duplicates(),
                lists_active(items, ordered@),
                rest@ == items.filter(|item: QueueItem| !ordered@.take(k as int).contains(item.id)),
                rest@.len() + k == items.len(),
                placed@.len() == k,
                forall|j: int|
                    0 <= j < k ==> (#[trigger] placed@[j]).id == ordered@[j] && items.contains(
                        placed@[j],
                    ) && is_active(placed@[j]),
            decreases ordered@.len() - k,
        {
            let ghost wanted = ordered@[k as int];
            let ghost remaining = |item: QueueItem| !ordered@.take(k as int).contains(item.id);
            let mut j: usize = 0;
            proof {
                lemma_filter_members(items, remaining);
                assert(ordered@.contains(wanted));
                let i = choose|i: int|
                    0 <= i < items.len() && is_active(#[trigger] items[i]) && items[i].id == wanted;
                assert(!ordered@.take(k as int).contains(wanted));
                assert(remaining(items[i]));
                assert(rest@.contains(items[i]));
            }
            while j < rest.len() && rest[j].id != ordered[k]
                invariant
                    k < ordered@.len(),
                    j <= rest@.len(),
                    wanted == ordered@[k as int],
                    forall|l: int| 0 <= l < j ==> (#[trigger] rest@[l]).id != wanted,
                decreases rest@.len() - j,
            {
                j += 1;
            }
            proof {
                let i = choose|i: int|
                    0 <= i < items.len() && is_active(#[trigger] items[i]) && items[i].id == wanted;
                let l = choose|l: int| 0 <= l < rest@.len() && rest@[l] == items[i];
                assert(rest@[l].id == wanted);
                assert(j < rest@.len());
                assert(items.contains(rest@[j as int]));
                let i2 = choose|i2: int| 0 <= i2 < items.len() && items[i2] == rest@[j as int];
                assert(item_ids(items)[i] == item_ids(items)[i2]);
                assert(i == i2);
                lemma_filtered_distinct(items, remaining);
                lemma_remove_is_filter(rest@, j as int);
                let differs = |item: QueueItem| item.id != rest@[j as int].id;
                lemma_filter_filter(items, remaining, differs);
                lemma_take_contains(ordered@, k as int);
                let both = |item: QueueItem| remaining(item) && differs(item);
                let next = |item: QueueItem| !ordered@.take(k + 1).contains(item.id);
                assert forall|l: int| 0 <= l < items.len() implies both(#[trigger] items[l]) == next(
                    items[l],
                ) by {
                    assert(ordered@.take(k + 1).contains(items[l].id) <==> ordered@.take(
                        k as int,
                    ).contains(items[l].id) || items[l].id == wanted);
                }
                lemma_filter_agree(items, both, next);
            }
            let item = rest.remove(j);
            placed.push(item);
            k += 1;
        }
        proof {
            assert(ordered@.take(k as int) =~= ordered@);
            assert forall|i: int| 0 <= i < items.len() implies (!ordered@.take(k as int).contains(
                (#[trigger] items[i]).id,
            )) == !is_active(items[i]) by {
                if has_active(items, items[i].id) {
                    let i2 = choose|i2: int|
                        0 <= i2 < items.len() && is_active(#[trigger] items[i2]) && items[i2].id
                            == items[i].id;
                    assert(item_ids(items)[i] == item_ids(items)[i2]);
                }
            }
            lemma_filter_agree(
                items,
                |item: QueueItem| !ordered@.take(k as int).contains(item.id),
                |item: QueueItem| !is_active(item),
            );
        }
        let ghost tail = rest@;
        let ghost front = placed@;
        placed.append(&mut rest);
        proof {
            assert(placed@ =~= front + tail);
            assert(item_ids(placed@.take(ordered@.len() as int)) =~= ordered@);
            assert(placed@.skip(ordered@.len() as int) =~= tail);
        }
        self.items = placed;
        let old_revision = self.revision;
        self.revision = self.revision + 1;
        Ok(
            QueueMutation {
                old_revision,
                new_revision: self.revision,
                invalidated,
                removed: Vec::new(),
            },
        )
    }

    /// The active items behind the one with the given source: those whose
    /// validation rests on it.
    pub fn affected_prefix_after_removal(&self, source_oid: &GitOid) -> (r: Vec<QueueItemId>)
        ensures
            !source_queued(self.items@, source_oid@) ==> r@.len() == 0,
            source_queued(self.items@, source_oid@) ==> exists|i: int|
                #[trigger] first_with_source(self.items@, source_oid@, i) && r@ == item_ids(
                    active(self.items@.skip(i + 1)),
                ),
    {
        let ghost items = self.items@;
        let mut i: usize = 0;
        while i < self.items.len()
            invariant
                i <= self.items.len(),
                items == self.items@,
                forall|j: int|
                    0 <= j < i && is_active(#[trigger] items[j]) ==> items[j].source_oid@
                        != source_oid@,
            decreases self.items.len() - i,
        {
            if !self.items[i].state.is_terminal() && self.items[i].source_oid.same(source_oid) {
                assert(first_with_source(items, source_oid@, i as int));
                let ghost tail = items.skip(i + 1);
                let ghost pred = |item: QueueItem| is_active(item);
                let mut out: Vec<QueueItemId> = Vec::new();
                let mut j: usize = i + 1;
                proof {
                    lemma_filter_ends(tail, pred);
                }
                while j < self.items.len()
                    invariant
                        i < j <= self.items.len(),
                        items == self.items@,
                        tail == items.skip(i + 1),
                        pred == (|item: QueueItem| is_active(item)),
                        out@ == item_ids(tail.take(j - i - 1).filter(pred)),
                    decreases self.items.len() - j,
                {
                    proof {
                        lemma_filter_step(tail, pred, j - i - 1);
                        assert(tail[j - i - 1] == items[j as int]);
                    }
                    if !self.items[j].state.is_terminal() {
                        out.push(self.items[j].id);
                    }
                    j += 1;
                    assert(out@ =~= item_ids(tail.take(j - i - 1).filter(pred)));
                }
                proof {
                    lemma_filter_ends(tail, pred);
                }
                return out;
            }
            i += 1;
        }
        Vec::new()
    }
}

/// The identifiers of the active items are those that some active item has.
proof fn lemma_active_ids(items: Seq<QueueItem>)
    ensures
        forall|id: QueueItemId|
            item_ids(active(items)).contains(id) <==> #[trigger] has_active(items, id),
{
    let pred = |item: QueueItem| is_active(item);
    let ids = item_ids(active(items));
    lemma_filter_members(items, pred);
    assert forall|id: QueueItemId| ids.contains(id) <==> #[trigger] has_active(items, id) by {
        if ids.contains(id) {
            let k = choose|k: int| 0 <= k < ids.len() && ids[k] == id;
            assert(pred(active(items)[k]));
            let i = choose|i: int| 0 <= i < items.len() && items[i] == active(items)[k];
            assert(is_active(items[i]) && items[i].id == id);
        }
        if has_active(items, id) {
            let i = choose|i: int|
                0 <= i < items.len() && is_active(#[trigger] items[i]) && items[i].id == id;
            assert(pred(items[i]));
            let k = choose|k: int| 0 <= k < active(items).len() && active(items)[k] == items[i];
            assert(ids[k] == id);
        }
    }
}

/// Leaving items out keeps the identifiers distinct.
proof fn lemma_filtered_distinct(items: Seq<QueueItem>, pred: spec_fn(QueueItem) -> bool)
    requires
        distinct_ids(items),
    ensures
        distinct_ids(items.filter(pred)),
    decreases items.len(),
{
    reveal(Seq::filter);
    if items.len() > 0 {
        let rest = items.drop_last();
        assert forall|i: int, j: int| 0 <= i < j < rest.len() implies item_ids(rest)[i]
            != item_ids(rest)[j] by {
            assert(item_ids(rest)[i] == item_ids(items)[i]);
            assert(item_ids(rest)[j] == item_ids(items)[j]);
        }
        lemma_filtered_distinct(rest, pred);
        lemma_filter_members(rest, pred);
        let part = rest.filter(pred);
        let all = items.filter(pred);
        assert forall|i: int, j: int| 0 <= i < j < all.len() implies item_ids(all)[i] != item_ids(
            all,
        )[j] by {
            if j < part.len() {
                assert(item_ids(part)[i] != item_ids(part)[j]);
            } else {
                assert(all[i] == part[i]);
                let l = choose|l: int| 0 <= l < rest.len() && rest[l] == part[i];
                assert(item_ids(items)[l] != item_ids(items)[items.len() - 1]);
            }
        }
    }
}

/// Removing one of several items with distinct identifiers is leaving out its identifier.
proof fn lemma_remove_is_filter(items: Seq<QueueItem>, j: int)
    requires
        distinct_ids(items),
        0 <= j < items.len(),
    ensures
        items.remove(j) == items.filter(|item: QueueItem| item.id != items[j].id),
    decreases items.len(),
{
    reveal(Seq::filter);
    let gone = items[j].id;
    let pred = |item: QueueItem| item.id != gone;
    let rest = items.drop_last();
    if j == items.len() - 1 {
        assert forall|i: int| 0 <= i < rest.len() implies pred(#[trigger] rest[i]) by {
            assert(item_ids(items)[i] != item_ids(items)[j]);
        }
        lemma_filter_all(rest, pred);
        assert(items.remove(j) =~= rest);
    } else {
        assert forall|i: int, l: int| 0 <= i < l < rest.len() implies item_ids(rest)[i] != item_ids(
            rest,
        )[l] by {
            assert(item_ids(rest)[i] == item_ids(items)[i]);
            assert(item_ids(rest)[l] == item_ids(items)[l]);
        }
        lemma_remove_is_filter(rest, j);
        assert(item_ids(items)[j] != item_ids(items)[items.len() - 1]);
        assert(items.remove(j) =~= rest.remove(j).push(items.last()));
    }
}

/// One more element of a sequence adds one more member to its prefix.
proof fn lemma_take_contains(ids: Seq<QueueItemId>, k: int)
    requires
        0 <= k < ids.len(),
    ensures
        forall|id: QueueItemId|
            #[trigger] ids.take(k + 1).contains(id) <==> ids.take(k).contains(id) || id == ids[k],
{
    let small = ids.take(k);
    let big = ids.take(k + 1);
    assert forall|id: QueueItemId| #[trigger] big.contains(id) <==> small.contains(id) || id
        == ids[k] by {
        if big.contains(id) {
            let i = choose|i: int| 0 <= i < big.len() && big[i] == id;
            if i < k {
                assert(small[i] == id);
            }
        }
        if small.contains(id) {
            let i = choose|i: int| 0 <= i < small.len() && small[i] == id;
            assert(big[i] == id);
        }
        if id == ids[k] {
            assert(big[k] == id);
        }
    }
}

/// An order that lists items with distinct identifiers names none of them twice.
proof fn lemma_order_is_distinct(items: Seq<QueueItem>, ordered: Seq<QueueItemId>)
    requires
        distinct_ids(items),
        lists_active(items, ordered),
    ensures
        ordered.no_duplicates(),
{
    let ids = item_ids(active(items));
    lemma_filtered_distinct(items, |item: QueueItem| is_active(item));
    lemma_active_ids(items);
    ids.unique_seq_to_set();
    assert(ids.to_set() =~= ordered.to_set()) by {
        assert forall|id: QueueItemId| ids.contains(id) <==> ordered.contains(id) by {
            assert(has_active(items, id) <==> ids.contains(id));
        }
    }
    ordered.lemma_no_dup_set_cardinality();
}

/// Reordering neither loses nor adds an item.
pub proof fn law_reorder_keeps_the_items(
    before: Seq<QueueItem>,
    ordered: Seq<QueueItemId>,
    after: Seq<QueueItem>,
)
    requires
        distinct_ids(before),
        lists_active(before, ordered),
        reordered(before, ordered, after),
    ensures
        after.len() == before.len(),
        forall|item: QueueItem| #[trigger] before.contains(item) <==> after.contains(item),
{
    let n = ordered.len() as int;
    let done = |item: QueueItem| !is_active(item);
    let tail = after.skip(n);
    lemma_filter_members(before, done);
    assert forall|item: QueueItem| #[trigger] before.contains(item) <==> after.contains(item) by {
        if before.contains(item) {
            let i = choose|i: int| 0 <= i < before.len() && before[i] == item;
            if is_active(item) {
                assert(is_active(before[i]) && before[i].id == item.id);
                assert(has_active(before, item.id));
                assert(ordered.contains(item.id));
                let k = choose|k: int| 0 <= k < ordered.len() && ordered[k] == item.id;
                assert(item_ids(after.take(n))[k] == item.id);
                assert(after.take(n)[k] == after[k]);
                assert(before.contains(after[k]));
                let j = choose|j: int| 0 <= j < before.len() && before[j] == after[k];
                assert(item_ids(before)[i] == item_ids(before)[j]);
                assert(after[k] == item);
            } else {
                assert(done(before[i]));
                assert(tail.contains(item));
                let k = choose|k: int| 0 <= k < tail.len() && tail[k] == item;
                assert(after[n + k] == item);
            }
        }
        if after.contains(item) {
            let k = choose|k: int| 0 <= k < after.len() && after[k] == item;
            if k >= n {
                assert(tail[k - n] == item);
            }
        }
    }
}

/// Canceling leaves no active item behind that depends on a removed one.
pub proof fn law_cancel_leaves_no_dependent_behind(
    items: Seq<QueueItem>,
    root: QueueItemId,
    i: int,
    dependency: QueueItemId,
)
    requires
        0 <= i < items.len(),
        is_active(items[i]),
        !doomed(items, root, items[i].id),
        doomed(items, root, dependency),
    ensures
        !items[i].dependencies@.contains(dependency),
{
    if names_dependency(items[i], dependency) {
        lemma_doomed_step(items, root, i, dependency);
    }
}

/// Canceling removes nothing but the item itself and active items.
pub proof fn law_cancel_removes_only_dependents(
    items: Seq<QueueItem>,
    root: QueueItemId,
    id: QueueItemId,
)
    requires
        doomed(items, root, id),
    ensures
        id == root || has_active(items, id),
{
    let steps = choose|steps: nat| depends_within(items, root, steps, id);
    lemma_doomed_is_active(items, root, steps, id);
}

proof fn lemma_doomed_is_active(
    items: Seq<QueueItem>,
    root: QueueItemId,
    steps: nat,
    id: QueueItemId,
)
    requires
        depends_within(items, root, steps, id),
    ensures
        id == root || has_active(items, id),
    decreases steps,
{
    if steps > 0 && depends_within(items, root, (steps - 1) as nat, id) {
        lemma_doomed_is_active(items, root, (steps - 1) as nat, id);
    }
}

/// No two active items have the same source.
pub open spec fn distinct_sources(items: Seq<QueueItem>) -> bool {
    forall|i: int, j: int|
        0 <= i < j < items.len() && is_active(#[trigger] items[i]) && is_active(#[trigger] items[j])
            ==> items[i].source_oid@ != items[j].source_oid@
}

/// Every dependency of an active item is active and stands before it.
pub open spec fn dependencies_in_order(items: Seq<QueueItem>) -> bool {
    forall|i: int|
        0 <= i < items.len() && is_active(#[trigger] items[i]) ==> dependencies_active(
            items.take(i),
            items[i],
        )
}

/// An accepted item keeps the queue's two invariants: no source is active twice,
/// and dependencies stand before what depends on them.
pub proof fn law_enqueue_keeps_the_queue_sound(items: Seq<QueueItem>, item: QueueItem)
    requires
        distinct_sources(items),
        dependencies_in_order(items),
        !source_queued(items, item.source_oid@),
        dependencies_active(items, item),
    ensures
        distinct_sources(items.push(item)),
        dependencies_in_order(items.push(item)),
{
    let after = items.push(item);
    assert forall|i: int| 0 <= i < after.len() && is_active(
        #[trigger] after[i],
    ) implies dependencies_active(after.take(i), after[i]) by {
        if i < items.len() {
            assert(after.take(i) =~= items.take(i));
            assert(after[i] == items[i]);
        } else {
            assert(after.take(i) =~= items);
        }
    }
}

} // verus!
