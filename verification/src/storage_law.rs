//! What may go from the cache, and what stays.

#[allow(unused_imports)]
use crate::ids::{RepositoryId, SlotId};
#[allow(unused_imports)]
use crate::outside::uuid_value;
#[allow(unused_imports)]
use crate::storage::{
    child_info, child_infos, class_of, is_excess, keeps_first, kept_warm, more_recent, preferred,
    reclaimable_total, repository_met, seed_info, slot_info, slot_infos, warm_order, CacheChild,
    ChildClass, EntryInfo, SeedStorage, SlotStorage,
};
use vstd::prelude::*;

verus! {

/// A slot that was used later is rather kept than one that was used before, and one that was
/// never used is kept last of all.
pub proof fn law_later_use_counts(a: SlotStorage, b: SlotStorage)
    ensures
        a.last_accessed_at is Some && b.last_accessed_at is None ==> preferred(a, b) && !preferred(
            b,
            a,
        ),
        (a.last_accessed_at matches Some(late) && b.last_accessed_at matches Some(early)
            && late.unix_nanos > early.unix_nanos) ==> preferred(a, b) && !preferred(b, a),
        more_recent(a.last_accessed_at, b.last_accessed_at) ==> !more_recent(
            b.last_accessed_at,
            a.last_accessed_at,
        ),
{
}

/// The slot that is kept for a repository is one that can be used again, and no other such
/// slot of the repository has been used later.
pub proof fn law_the_latest_slot_is_kept(
    slots: Seq<SlotStorage>,
    order: Seq<int>,
    id: SlotId,
    i: int,
)
    requires
        warm_order(slots, order),
        kept_warm(slots, order, order.len()).contains(id),
        0 <= i < slots.len(),
        slots[i].warm(),
    ensures
        exists|k: int|
            {
                &&& 0 <= k < slots.len()
                &&& (#[trigger] slots[k]).slot_id == id
                &&& slots[k].warm()
                &&& slots[i].repository_id == slots[k].repository_id ==> !more_recent(
                    slots[i].last_accessed_at,
                    slots[k].last_accessed_at,
                )
            },
{
    let n = order.len();
    crate::storage::law_a_repository_keeps_its_most_recent_slot(slots, order, n, id);
    let k = choose|k: int| keeps_first(slots, order, n, id, k);
    assert(keeps_first(slots, order, n, id, k));
    assert(order.contains(i));
    let m = choose|m: int| 0 <= m < order.len() && order[m] == i;
    let before = |a: int, b: int| preferred(slots[a], slots[b]);
    assert(0 <= order[k] < slots.len() && slots[order[k]].warm());
    if slots[i].repository_id == slots[order[k]].repository_id {
        if m < k {
            assert(slots[order[m]].repository_id == slots[order[k]].repository_id);
            assert(repository_met(slots, order, k));
        } else if k < m {
            assert(!before(order[m], order[k]));
        }
    }
    assert(slots[order[k]].slot_id == id);
}

/// A slot may go exactly if it is not in use and is not kept; what is kept, and what is in
/// use, stays.
pub proof fn law_slots_go_when_not_in_use(
    slots: Seq<SlotStorage>,
    kept: Seq<SlotId>,
    i: int,
)
    requires
        0 <= i < slots.len(),
    ensures
        kept.contains(slots[i].slot_id) ==> !is_excess(slots, kept, slots[i].slot_id),
        slots[i].state@ == "idle"@ && !slots[i].repository_active && !kept.contains(
            slots[i].slot_id,
        ) ==> is_excess(slots, kept, slots[i].slot_id),
{
    assert(slots[i].slot_id == slots[i].slot_id);
}

/// Where identifiers are given once, a slot that is in use is not one too many.
pub proof fn law_slots_in_use_are_listed_as_such(
    slots: Seq<SlotStorage>,
    bytes: Seq<u64>,
    kept: Seq<SlotId>,
    i: int,
)
    requires
        0 <= i < slots.len() == bytes.len(),
        forall|a: int, b: int|
            0 <= a < b < slots.len() ==> (#[trigger] slots[a]).slot_id != (
            #[trigger] slots[b]).slot_id,
    ensures
        ({
            let entry = slot_infos(slots, bytes, kept, slots.len())[i];
            &&& slot_infos(slots, bytes, kept, slots.len()).len() == slots.len()
            &&& entry.repository_id == Some(slots[i].repository_id)
            &&& entry.slot_id == Some(slots[i].slot_id)
            &&& entry.path == slots[i].path@
            &&& entry.charged_bytes == bytes[i]
            &&& entry.last_accessed_at == slots[i].last_accessed_at
            &&& entry.reclaimable <==> slots[i].state@ == "idle"@ && !slots[i].repository_active
                && !kept.contains(slots[i].slot_id)
            &&& entry.protected_reason is Some <==> slots[i].state@ != "idle"@
            &&& entry.protected_reason is Some ==> !entry.reclaimable
        }),
{
    lemma_slot_infos(slots, bytes, kept, slots.len());
    let id = slots[i].slot_id;
    if is_excess(slots, kept, id) {
        let j = choose|j: int|
            0 <= j < slots.len() && (#[trigger] slots[j]).slot_id == id && slots[j].free()
                && !kept.contains(id);
        assert(i == j);
    }
}

proof fn lemma_slot_infos(
    slots: Seq<SlotStorage>,
    bytes: Seq<u64>,
    kept: Seq<SlotId>,
    n: nat,
)
    requires
        n <= slots.len() == bytes.len(),
    ensures
        slot_infos(slots, bytes, kept, n).len() == n,
        forall|i: int|
            0 <= i < n ==> #[trigger] slot_infos(slots, bytes, kept, n)[i] == slot_info(
                slots[i],
                bytes[i],
                is_excess(slots, kept, slots[i].slot_id),
            ),
    decreases n,
{
    if n > 0 {
        lemma_slot_infos(slots, bytes, kept, (n - 1) as nat);
    }
}

/// A seed may go exactly if it is not protected, and is listed with its own room.
pub proof fn law_protected_seeds_stay(seed: SeedStorage, bytes: u64)
    ensures
        ({
            let entry = seed_info(seed, bytes);
            &&& entry.reclaimable <==> !seed.protected
            &&& entry.protected_reason is Some <==> seed.protected
            &&& entry.charged_bytes == bytes
            &&& entry.path == seed.path@
            &&& entry.repository_id == Some(seed.repository_id)
        }),
{
}

/// What is named after a repository belongs to it: to a registered one it is left, and to
/// none that is registered it is an orphan of that one.
pub proof fn law_repositories_own_what_bears_their_name(
    name: Seq<char>,
    registered: Seq<RepositoryId>,
    id: RepositoryId,
)
    ensures
        uuid_value(name) == Some(id.0) ==> if registered.contains(id) {
            class_of(name, registered) is Registered
        } else {
            class_of(name, registered) == ChildClass::Orphan(id)
        },
        class_of(name, registered) is Registered ==> exists|owner: RepositoryId|
            registered.contains(owner) && uuid_value(name) == Some(#[trigger] owner.0),
        class_of(name, registered) == ChildClass::Orphan(id) ==> !registered.contains(id),
{
    if class_of(name, registered) is Registered {
        let owner = RepositoryId(uuid_value(name)->0);
        assert(registered.contains(owner) && uuid_value(name) == Some(owner.0));
    }
}

/// Registering a repository takes what bears its name off the list of what may go.
pub proof fn law_registering_protects(
    name: Seq<char>,
    registered: Seq<RepositoryId>,
    id: RepositoryId,
)
    requires
        class_of(name, registered) == ChildClass::Orphan(id),
    ensures
        class_of(name, registered.push(id)) is Registered,
{
    assert(registered.push(id)[registered.len() as int] == id);
}

/// What is on its way out, and what a repository left that is no longer registered, may go;
/// what was put aside, and what nobody knows, stays until somebody has looked at it.
pub proof fn law_only_orphans_and_prunings_go(child: CacheChild, class: ChildClass)
    ensures
        child_info(child, class).reclaimable <==> class is Orphan || class is PruneQuarantine,
        child_info(child, class).protected_reason is None <==> child_info(child, class).reclaimable,
        child_info(child, class).charged_bytes == child.charged_bytes,
        child_info(child, class).path == child.path@,
        class matches ChildClass::Orphan(id) ==> child_info(child, class).repository_id == Some(id),
{
}

/// Of what lies in the cache, everything is listed but what belongs to a registered
/// repository.
pub proof fn law_everything_without_an_owner_is_listed(
    children: Seq<CacheChild>,
    registered: Seq<RepositoryId>,
    n: nat,
    i: int,
)
    requires
        0 <= i < n <= children.len(),
    ensures
        !(class_of(children[i].name@, registered) is Registered) ==> child_infos(
            children,
            registered,
            n,
        ).contains(child_info(children[i], class_of(children[i].name@, registered))),
        (forall|j: int|
            0 <= j < n ==> class_of((#[trigger] children[j]).name@, registered) is Registered)
            ==> child_infos(children, registered, n).len() == 0,
    decreases n,
{
    let before = child_infos(children, registered, (n - 1) as nat);
    let all = child_infos(children, registered, n);
    let entry = child_info(children[i], class_of(children[i].name@, registered));
    if i < n - 1 {
        law_everything_without_an_owner_is_listed(children, registered, (n - 1) as nat, i);
        if before.contains(entry) {
            let k = choose|k: int| 0 <= k < before.len() && before[k] == entry;
            assert(all[k] == entry);
        }
    } else {
        if n > 1 {
            law_everything_without_an_owner_is_listed(children, registered, (n - 1) as nat, 0);
        }
        if !(class_of(children[i].name@, registered) is Registered) {
            assert(all[before.len() as int] == entry);
        }
    }
    if forall|j: int|
        0 <= j < n ==> class_of((#[trigger] children[j]).name@, registered) is Registered {
        assert(class_of(children[n - 1].name@, registered) is Registered);
    }
}

/// The room that can be had is that of the entries that may go: an entry that stays adds
/// nothing, and one that may go adds all of its own.
pub proof fn law_room_is_that_of_what_may_go(entries: Seq<EntryInfo>, entry: EntryInfo)
    ensures
        entry.reclaimable ==> reclaimable_total(entries.push(entry)) == reclaimable_total(entries)
            + entry.charged_bytes,
        !entry.reclaimable ==> reclaimable_total(entries.push(entry)) == reclaimable_total(entries),
        reclaimable_total(Seq::empty()) == 0,
{
    assert(entries.push(entry).drop_last() =~= entries);
}

/// A slot is warm exactly if it is idle in an inactive repository and healthy.
pub proof fn law_warm_slots_are_healthy(slot: SlotStorage)
    ensures
        slot.warm() ==> slot.state@ == "idle"@ && slot.health@ == "healthy"@
            && !slot.repository_active,
        slot.state@ == "idle"@ && slot.health@ == "healthy"@ && !slot.repository_active
            ==> slot.warm(),
{
}

} // verus!
