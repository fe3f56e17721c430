//! What canceling, reordering and removing do to the items of a queue.

#[allow(unused_imports)]
use crate::ids::QueueItemId;
#[allow(unused_imports)]
use crate::model::QueueItem;
#[allow(unused_imports)]
use crate::oid::GitOidView;
#[allow(unused_imports)]
use crate::queue::{
    active, depends_within, distinct_ids, doomed, doomed_ids, first_change, first_with_source,
    has_active, is_active, item_ids, last_active_at, lists_active, names_dependency, reordered,
    respects_dependencies, source_queued, stands_before, survivors_after,
};
#[allow(unused_imports)]
use crate::seqs::{lemma_filter_ends, lemma_filter_grows, lemma_filter_members, lemma_filter_step};
#[allow(unused_imports)]
use crate::state::ItemEvent;
use vstd::prelude::*;

verus! {

/// An item is active as long as something can still happen to it.
pub proof fn law_items_wait_until_their_end(item: QueueItem)
    ensures
        is_active(item) <==> exists|event: ItemEvent| (#[trigger] item.state.next(event)) is Some,
{
    if is_active(item) {
        crate::state::law_open_items_can_move(item.state);
    } else if exists|event: ItemEvent| (#[trigger] item.state.next(event)) is Some {
        let event = choose|event: ItemEvent| (#[trigger] item.state.next(event)) is Some;
        crate::state::law_terminal_items_never_reopen(item.state, event);
    }
}

/// The active items are those that have not come to their end, each once.
pub proof fn law_active_items_are_those_that_wait(items: Seq<QueueItem>, item: QueueItem)
    ensures
        active(items).contains(item) <==> items.contains(item) && is_active(item),
{
    lemma_filter_members(items, |item: QueueItem| is_active(item));
}

proof fn lemma_ids_of_filtered(
    items: Seq<QueueItem>,
    pred: spec_fn(QueueItem) -> bool,
    id: QueueItemId,
)
    ensures
        item_ids(items.filter(pred)).contains(id) <==> exists|i: int|
            0 <= i < items.len() && pred(#[trigger] items[i]) && items[i].id == id,
{
    let kept = items.filter(pred);
    lemma_filter_members(items, pred);
    if item_ids(kept).contains(id) {
        let k = choose|k: int| 0 <= k < item_ids(kept).len() && item_ids(kept)[k] == id;
        assert(kept.contains(kept[k]));
        assert(items.contains(kept[k]));
        let i = choose|i: int| 0 <= i < items.len() && items[i] == kept[k];
        assert(pred(items[i]) && items[i].id == id);
    }
    if exists|i: int| 0 <= i < items.len() && pred(#[trigger] items[i]) && items[i].id == id {
        let i = choose|i: int|
            0 <= i < items.len() && pred(#[trigger] items[i]) && items[i].id == id;
        assert(items.contains(items[i]));
        assert(kept.contains(items[i]));
        let k = choose|k: int| 0 <= k < kept.len() && kept[k] == items[i];
        assert(item_ids(kept)[k] == id);
    }
}

/// A canceled item leaves the queue itself.
pub proof fn law_the_canceled_item_goes(items: Seq<QueueItem>, id: QueueItemId)
    requires
        has_active(items, id),
    ensures
        doomed_ids(items, id).contains(id),
{
    assert(depends_within(items, id, 0, id));
    lemma_ids_of_filtered(items, |item: QueueItem| doomed(items, id, item.id), id);
    let i = choose|i: int| 0 <= i < items.len() && is_active(#[trigger] items[i]) && items[i].id == id;
    assert(doomed(items, id, items[i].id));
}

/// Canceling an item takes with it every active item that names it as a dependency, and
/// every active item that names one of those; but no item other than the canceled one goes
/// that names no item that goes.
pub proof fn law_canceling_follows_the_dependencies(
    items: Seq<QueueItem>,
    root: QueueItemId,
    i: int,
)
    requires
        has_active(items, root),
        distinct_ids(items),
        0 <= i < items.len(),
        is_active(items[i]),
        items[i].id != root,
    ensures
        doomed_ids(items, root).contains(items[i].id) <==> exists|dependency: QueueItemId|
            #[trigger] items[i].dependencies@.contains(dependency) && (dependency == root
                || doomed_ids(items, root).contains(dependency)),
{
    let pred = |item: QueueItem| doomed(items, root, item.id);
    let id = items[i].id;
    lemma_ids_of_filtered(items, pred, id);
    assert(depends_within(items, root, 0, root));
    assert(doomed(items, root, root));
    if doomed_ids(items, root).contains(id) {
        assert(doomed(items, root, id));
        let steps = choose|steps: nat| depends_within(items, root, steps, id);
        let dependency = lemma_reason(items, root, i, steps);
        assert(doomed(items, root, dependency));
        crate::queue::law_cancel_removes_only_dependents(items, root, dependency);
        lemma_ids_of_filtered(items, pred, dependency);
        if dependency != root {
            let j = choose|j: int|
                0 <= j < items.len() && is_active(#[trigger] items[j]) && items[j].id == dependency;
            assert(pred(items[j]));
        }
        assert(items[i].dependencies@.contains(dependency));
    }
    if exists|dependency: QueueItemId|
        #[trigger] items[i].dependencies@.contains(dependency) && (dependency == root
            || doomed_ids(items, root).contains(dependency)) {
        let dependency = choose|dependency: QueueItemId|
            #[trigger] items[i].dependencies@.contains(dependency) && (dependency == root
                || doomed_ids(items, root).contains(dependency));
        lemma_ids_of_filtered(items, pred, dependency);
        assert(doomed(items, root, dependency));
        if !doomed(items, root, id) {
            crate::queue::law_cancel_leaves_no_dependent_behind(items, root, i, dependency);
        }
        assert(pred(items[i]));
    }
}

proof fn lemma_reason(items: Seq<QueueItem>, root: QueueItemId, i: int, steps: nat) -> (dependency:
    QueueItemId)
    requires
        distinct_ids(items),
        0 <= i < items.len(),
        items[i].id != root,
        depends_within(items, root, steps, items[i].id),
    ensures
        items[i].dependencies@.contains(dependency),
        doomed(items, root, dependency),
    decreases steps,
{
    let id = items[i].id;
    let fewer = (steps - 1) as nat;
    if depends_within(items, root, fewer, id) {
        lemma_reason(items, root, i, fewer)
    } else {
        let (j, dependency) = choose|j: int, dependency: QueueItemId|
            {
                &&& 0 <= j < items.len()
                &&& is_active(items[j])
                &&& items[j].id == id
                &&& #[trigger] names_dependency(items[j], dependency)
                &&& depends_within(items, root, fewer, dependency)
            };
        assert(item_ids(items)[j] == item_ids(items)[i]);
        assert(doomed(items, root, dependency));
        dependency
    }
}

/// Canceling tells apart what goes and what has to be tested anew: behind the canceled item
/// each active item is one or the other and none is both, and nothing that stands before it
/// is tested anew.
pub proof fn law_canceling_disturbs_what_stands_behind(
    items: Seq<QueueItem>,
    root: QueueItemId,
    at: int,
    j: int,
)
    requires
        distinct_ids(items),
        last_active_at(items, root, at),
        0 <= j < items.len(),
        is_active(items[j]),
    ensures
        survivors_after(items, root, at).contains(items[j].id) <==> j > at && !doomed_ids(
            items,
            root,
        ).contains(items[j].id),
{
    let id = items[j].id;
    let goes = |item: QueueItem| doomed(items, root, item.id);
    let stays = |item: QueueItem| is_active(item) && !doomed(items, root, item.id);
    let rest = items.skip(at + 1);
    lemma_ids_of_filtered(items, goes, id);
    lemma_ids_of_filtered(rest, stays, id);
    if j > at {
        assert(rest[j - at - 1] == items[j]);
        assert(goes(items[j]) <==> !stays(rest[j - at - 1]));
        if doomed_ids(items, root).contains(id) && survivors_after(items, root, at).contains(id) {
            assert(goes(items[j]));
            let m = choose|m: int| 0 <= m < rest.len() && stays(#[trigger] rest[m]) && rest[m].id == id;
            assert(false);
        }
    } else if survivors_after(items, root, at).contains(id) {
        let m = choose|m: int| 0 <= m < rest.len() && stays(#[trigger] rest[m]) && rest[m].id == id;
        assert(rest[m] == items[m + at + 1]);
        assert(item_ids(items)[m + at + 1] == item_ids(items)[j]);
    }
}

proof fn lemma_filter_keeps_order(
    items: Seq<QueueItem>,
    pred: spec_fn(QueueItem) -> bool,
    a: int,
    b: int,
)
    requires
        0 <= a < b < items.len(),
        pred(items[a]),
        pred(items[b]),
    ensures
        stands_before(item_ids(items.filter(pred)), items[a].id, items[b].id),
{
    let ids = item_ids(items.filter(pred));
    let p = items.take(a).filter(pred).len() as int;
    let q = items.take(b).filter(pred).len() as int;
    lemma_filter_step(items, pred, a);
    lemma_filter_step(items, pred, b);
    lemma_filter_grows(items, pred, a + 1, b);
    lemma_filter_grows(items, pred, a + 1, items.len() as int);
    lemma_filter_grows(items, pred, b + 1, items.len() as int);
    lemma_filter_ends(items, pred);
    assert(items.take(a + 1).filter(pred)[p] == items[a]);
    assert(items.take(b + 1).filter(pred)[q] == items[b]);
    assert(ids[p] == items[a].id && ids[q] == items[b].id);
}

/// What goes, and what has to be tested anew, is told in the order of the queue.
pub proof fn law_canceling_tells_in_order(
    items: Seq<QueueItem>,
    root: QueueItemId,
    at: int,
    a: int,
    b: int,
)
    requires
        0 <= a < b < items.len(),
        0 <= at < items.len(),
    ensures
        doomed(items, root, items[a].id) && doomed(items, root, items[b].id) ==> stands_before(
            doomed_ids(items, root),
            items[a].id,
            items[b].id,
        ),
        at < a && is_active(items[a]) && is_active(items[b]) && !doomed(items, root, items[a].id)
            && !doomed(items, root, items[b].id) ==> stands_before(
            survivors_after(items, root, at),
            items[a].id,
            items[b].id,
        ),
{
    let goes = |item: QueueItem| doomed(items, root, item.id);
    let stays = |item: QueueItem| is_active(item) && !doomed(items, root, item.id);
    let rest = items.skip(at + 1);
    if goes(items[a]) && goes(items[b]) {
        lemma_filter_keeps_order(items, goes, a, b);
    }
    if at < a && stays(items[a]) && stays(items[b]) {
        assert(rest[a - at - 1] == items[a] && rest[b - at - 1] == items[b]);
        lemma_filter_keeps_order(rest, stays, a - at - 1, b - at - 1);
    }
}

/// The active items stand in the order of the queue.
pub proof fn law_active_items_keep_their_order(items: Seq<QueueItem>, a: int, b: int)
    requires
        0 <= a < b < items.len(),
        is_active(items[a]),
        is_active(items[b]),
    ensures
        stands_before(item_ids(active(items)), items[a].id, items[b].id),
{
    lemma_filter_keeps_order(items, |item: QueueItem| is_active(item), a, b);
}

/// A new order that changes nothing has nothing tested anew; otherwise exactly the items
/// from the first change on are, so that what is not tested anew still has the same items
/// before it.
pub proof fn law_reordering_disturbs_from_the_first_change(
    before: Seq<QueueItemId>,
    after: Seq<QueueItemId>,
    k: int,
)
    requires
        before.len() == after.len(),
        first_change(before, after, k),
    ensures
        before.take(k) == after.take(k),
        after.skip(k).len() == 0 <==> before == after,
        forall|m: int| k < m <= after.len() ==> before.take(m) != #[trigger] after.take(m),
{
    assert(before.take(k) =~= after.take(k));
    if k == after.len() {
        assert(before =~= after);
    }
    assert forall|m: int| k < m <= after.len() implies before.take(m) != #[trigger] after.take(m) by {
        assert(before.take(m)[k] == before[k]);
        assert(after.take(m)[k] == after[k]);
    }
}

/// In an accepted order nothing stands before what it depends on.
pub proof fn law_accepted_orders_respect_dependencies(
    items: Seq<QueueItem>,
    ordered: Seq<QueueItemId>,
    i: int,
    dependency: QueueItemId,
)
    requires
        respects_dependencies(items, ordered),
        ordered.no_duplicates(),
        0 <= i < items.len(),
        is_active(items[i]),
        items[i].dependencies@.contains(dependency),
    ensures
        stands_before(ordered, dependency, items[i].id),
        !stands_before(ordered, items[i].id, dependency),
{
    let d = choose|d: int| 0 <= d < items[i].dependencies@.len() && items[i].dependencies@[d] == dependency;
    assert(stands_before(ordered, items[i].dependencies@[d], items[i].id));
}

/// A queue whose items stand after what they depend on may be left as it is.
pub proof fn law_the_order_of_the_queue_is_accepted(items: Seq<QueueItem>)
    requires
        forall|i: int, d: int|
            #![trigger items[i].dependencies@[d]]
            0 <= i < items.len() && is_active(items[i]) && 0 <= d < items[i].dependencies@.len()
                ==> exists|j: int|
                0 <= j < i && is_active(#[trigger] items[j]) && items[j].id
                    == items[i].dependencies@[d],
        forall|i: int| 0 <= i < items.len() ==> is_active(#[trigger] items[i]),
    ensures
        respects_dependencies(items, item_ids(items)),
{
    let ordered = item_ids(items);
    assert forall|i: int, d: int|
        #![trigger items[i].dependencies@[d]]
        0 <= i < items.len() && is_active(items[i]) && 0 <= d < items[i].dependencies@.len() implies stands_before(
        ordered,
        items[i].dependencies@[d],
        items[i].id,
    ) by {
        let j = choose|j: int|
            0 <= j < i && is_active(#[trigger] items[j]) && items[j].id == items[i].dependencies@[d];
        assert(ordered[j] == items[i].dependencies@[d] && ordered[i] == items[i].id);
    }
}

/// After a new order each active item stands where the order puts it, and what has come to
/// its end stands behind, in the order in which it stood.
pub proof fn law_items_stand_where_they_were_put(
    before: Seq<QueueItem>,
    ordered: Seq<QueueItemId>,
    after: Seq<QueueItem>,
    k: int,
)
    requires
        reordered(before, ordered, after),
        0 <= k < after.len(),
        ordered.len() <= after.len(),
    ensures
        k < ordered.len() ==> after[k].id == ordered[k] && is_active(after[k]) && before.contains(
            after[k],
        ),
        k >= ordered.len() ==> !is_active(after[k]) && before.contains(after[k]),
{
    let n = ordered.len() as int;
    if k < n {
        assert(item_ids(after.take(n))[k] == after[k].id);
    } else {
        let done = |item: QueueItem| !is_active(item);
        lemma_filter_members(before, done);
        assert(after.skip(n)[k - n] == after[k]);
        assert(before.filter(done).contains(after[k]));
    }
}

/// The item that stands in the way of a second one with its source is the one that has been
/// waiting longest, and there is no second such item.
pub proof fn law_one_item_holds_a_source(
    items: Seq<QueueItem>,
    source: GitOidView,
    i: int,
    j: int,
)
    requires
        first_with_source(items, source, i),
        0 <= j < items.len(),
        is_active(items[j]),
        items[j].source_oid@ == source,
    ensures
        source_queued(items, source),
        i <= j,
        first_with_source(items, source, j) ==> i == j,
        items[i].source_oid@ == source,
        is_active(items[i]),
{
}

} // verus!
