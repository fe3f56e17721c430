//! What the cache holds, and what of it may go.

use crate::paths::ordering_key;
#[allow(unused_imports)]
use crate::paths::path_key;
use crate::ids::{RepositoryId, SlotId};
use crate::model::Timestamp;
#[allow(unused_imports)]
use crate::outside::uuid_text;
use crate::scan::starts_with;
#[allow(unused_imports)]
use crate::scan::begins_with;
#[allow(unused_imports)]
use crate::seqs::{in_order, lemma_insert_in_order, orders};
use crate::text::{order_str, str_equal, TextOrder};
#[allow(unused_imports)]
use crate::text::{
    lemma_bytes_before_irreflexive, lemma_bytes_before_transitive, text_before,
};
use vstd::prelude::*;
#[allow(unused_imports)]
use vstd::utf8::encode_utf8;

verus! {

/// 60 GiB.
pub const TARGET_BYTES: u64 = 64_424_509_440;

/// 70 GiB.
pub const HIGH_WATER_BYTES: u64 = 75_161_927_680;

/// 80 GiB.
pub const HARD_LIMIT_BYTES: u64 = 85_899_345_920;

/// 20 GiB.
pub const MINIMUM_FREE_BYTES: u64 = 21_474_836_480;

/// 20 GiB.
pub const SEED_LIMIT_BYTES: u64 = 21_474_836_480;

/// How many slots are kept warm at most.
pub const MAX_WARM_SLOTS: usize = 4;

/// Something that takes up room in the cache.
#[derive(Clone, Debug, PartialEq, Eq)]
pub struct StorageEntryView {
    pub repository_id: Option<RepositoryId>,
    pub slot_id: Option<SlotId>,
    pub class: String,
    pub path: String,
    pub charged_bytes: u64,
    pub reclaimable: bool,
    pub protected_reason: Option<String>,
    pub last_accessed_at: Option<Timestamp>,
}

/// What is known of something in the cache.
#[verifier::ext_equal]
pub struct EntryInfo {
    pub repository_id: Option<RepositoryId>,
    pub slot_id: Option<SlotId>,
    pub class: Seq<char>,
    pub path: Seq<char>,
    pub charged_bytes: u64,
    pub reclaimable: bool,
    pub protected_reason: Option<Seq<char>>,
    pub last_accessed_at: Option<Timestamp>,
}

impl View for StorageEntryView {
    type V = EntryInfo;

    open spec fn view(&self) -> EntryInfo {
        EntryInfo {
            repository_id: self.repository_id,
            slot_id: self.slot_id,
            class: self.class@,
            path: self.path@,
            charged_bytes: self.charged_bytes,
            reclaimable: self.reclaimable,
            protected_reason: match self.protected_reason {
                Some(reason) => Some(reason@),
                None => None,
            },
            last_accessed_at: self.last_accessed_at,
        }
    }
}

/// What is known of the entries.
pub open spec fn entry_infos(entries: Seq<StorageEntryView>) -> Seq<EntryInfo> {
    entries.map_values(|entry: StorageEntryView| entry@)
}

/// What the cache holds, and its limits.
#[derive(Clone, Debug, PartialEq, Eq)]
pub struct StorageView {
    pub charged_bytes: u64,
    pub reclaimable_bytes: u64,
    pub target_bytes: u64,
    pub high_water_bytes: u64,
    pub hard_limit_bytes: u64,
    pub minimum_free_bytes: u64,
    pub seed_limit_bytes: u64,
    pub entries: Vec<StorageEntryView>,
}

/// What pruning the cache has come to.
#[derive(Clone, Debug, PartialEq, Eq)]
pub struct StoragePruneResult {
    pub before_bytes: u64,
    pub after_bytes: u64,
    pub reclaimed_bytes: u64,
    pub removed_slots: Vec<SlotId>,
    pub removed_orphan_roots: Vec<String>,
    pub removed_recovery_roots: Vec<String>,
    pub message: String,
}

/// A slot, as far as its room in the cache goes.
#[derive(Clone, Debug, PartialEq, Eq)]
pub struct SlotStorage {
    pub repository_id: RepositoryId,
    pub slot_id: SlotId,
    pub path: String,
    pub state: String,
    pub health: String,
    pub repository_active: bool,
    pub last_accessed_at: Option<Timestamp>,
}

/// A seed, as far as its room in the cache goes.
#[derive(Clone, Debug, PartialEq, Eq)]
pub struct SeedStorage {
    pub repository_id: RepositoryId,
    pub id: String,
    pub path: String,
    pub state: String,
    pub protected: bool,
}

/// One slot has been used after another; one that was never used comes last.
pub open spec fn more_recent(a: Option<Timestamp>, b: Option<Timestamp>) -> bool {
    match (a, b) {
        (Some(a), Some(b)) => a.unix_nanos > b.unix_nanos,
        (Some(_), None) => true,
        _ => false,
    }
}

/// One slot is rather kept warm than another: it has been used later, or its name comes
/// first.
pub open spec fn preferred(a: SlotStorage, b: SlotStorage) -> bool {
    more_recent(a.last_accessed_at, b.last_accessed_at) || (a.last_accessed_at
        == b.last_accessed_at && text_before(uuid_text(a.slot_id.0), uuid_text(b.slot_id.0)))
}

impl SlotStorage {
    /// The slot is not in use.
    pub open spec fn free(self) -> bool {
        self.state@ == "idle"@ && !self.repository_active
    }

    /// The slot is not in use, and can be used again.
    pub open spec fn warm(self) -> bool {
        self.free() && self.health@ == "healthy"@
    }

    fn is_free(&self) -> (r: bool)
        ensures
            r == self.free(),
    {
        str_equal(self.state.as_str(), "idle") && !self.repository_active
    }

    fn is_warm(&self) -> (r: bool)
        ensures
            r == self.warm(),
    {
        self.is_free() && str_equal(self.health.as_str(), "healthy")
    }

    fn is_preferred(&self, other: &SlotStorage) -> (r: bool)
        ensures
            r == preferred(*self, *other),
    {
        match (self.last_accessed_at, other.last_accessed_at) {
            (Some(mine), Some(theirs)) => {
                if mine.unix_nanos > theirs.unix_nanos {
                    return true;
                }
                if mine.unix_nanos < theirs.unix_nanos {
                    return false;
                }
                assert(mine == theirs);
            },
            (Some(_), None) => {
                return true;
            },
            (None, Some(_)) => {
                return false;
            },
            (None, None) => {},
        }
        match order_str(self.slot_id.to_text().as_str(), other.slot_id.to_text().as_str()) {
            TextOrder::Before => true,
            _ => false,
        }
    }
}

/// The positions of the warm slots, those that are rather kept first.
pub open spec fn warm_order(slots: Seq<SlotStorage>, order: Seq<int>) -> bool {
    &&& order.no_duplicates()
    &&& forall|k: int|
        0 <= k < order.len() ==> 0 <= #[trigger] order[k] < slots.len() && slots[order[k]].warm()
    &&& forall|i: int| 0 <= i < slots.len() && slots[i].warm() ==> #[trigger] order.contains(i)
    &&& in_order(order, |a: int, b: int| preferred(slots[a], slots[b]))
}

/// An earlier slot in the order belongs to the same repository.
pub open spec fn repository_met(slots: Seq<SlotStorage>, order: Seq<int>, k: int) -> bool {
    exists|m: int|
        0 <= m < k && slots[#[trigger] order[m]].repository_id == slots[order[k]].repository_id
}

/// The slots that are kept warm among the first `n` of the order: the first one of each
/// repository, and no more than the limit.
pub open spec fn kept_warm(slots: Seq<SlotStorage>, order: Seq<int>, n: nat) -> Seq<SlotId>
    decreases n,
{
    if n == 0 {
        Seq::empty()
    } else {
        let kept = kept_warm(slots, order, (n - 1) as nat);
        let id = slots[order[n - 1]].slot_id;
        if kept.len() == MAX_WARM_SLOTS || repository_met(slots, order, n - 1) || kept.contains(
            id,
        ) {
            kept
        } else {
            kept.push(id)
        }
    }
}

/// A slot is one too many.
pub open spec fn is_excess(slots: Seq<SlotStorage>, kept: Seq<SlotId>, id: SlotId) -> bool {
    exists|i: int|
        0 <= i < slots.len() && (#[trigger] slots[i]).slot_id == id && slots[i].free()
            && !kept.contains(id)
}

proof fn lemma_preference_orders(slots: Seq<SlotStorage>)
    ensures
        orders(|a: int, b: int| preferred(slots[a], slots[b])),
{
    let before = |a: int, b: int| preferred(slots[a], slots[b]);
    assert forall|a: int| !(#[trigger] before(a, a)) by {
        lemma_bytes_before_irreflexive(encode_utf8(uuid_text(slots[a].slot_id.0)));
    }
    assert forall|a: int, b: int, c: int|
        #[trigger] before(a, b) && #[trigger] before(b, c) implies before(a, c) by {
        let x = slots[a];
        let y = slots[b];
        let z = slots[c];
        if x.last_accessed_at == y.last_accessed_at && y.last_accessed_at == z.last_accessed_at
            && !more_recent(x.last_accessed_at, z.last_accessed_at) {
            lemma_bytes_before_transitive(
                encode_utf8(uuid_text(x.slot_id.0)),
                encode_utf8(uuid_text(y.slot_id.0)),
                encode_utf8(uuid_text(z.slot_id.0)),
            );
        }
    }
}

/// The positions as numbers.
pub open spec fn positions(order: Seq<usize>) -> Seq<int> {
    order.map_values(|at: usize| at as int)
}

/// The positions of the warm slots, those that are rather kept first.
fn order_warm(slots: &Vec<SlotStorage>) -> (r: Vec<usize>)
    ensures
        warm_order(slots@, positions(r@)),
{
    let ghost before = |a: int, b: int| preferred(slots@[a], slots@[b]);
    proof {
        lemma_preference_orders(slots@);
    }
    let mut order: Vec<usize> = Vec::new();
    let mut i: usize = 0;
    while i < slots.len()
        invariant
            i <= slots@.len(),
            before == (|a: int, b: int| preferred(slots@[a], slots@[b])),
            orders(before),
            positions(order@).no_duplicates(),
            in_order(positions(order@), before),
            forall|k: int| 0 <= k < order@.len() ==> #[trigger] order@[k] < i,
            forall|k: int|
                0 <= k < order@.len() ==> slots@[(#[trigger] order@[k]) as int].warm(),
            forall|s: int|
                0 <= s < i && slots@[s].warm() ==> #[trigger] positions(order@).contains(s),
        decreases slots@.len() - i,
    {
        if slots[i].is_warm() {
            place(slots, &mut order, i);
        }
        i += 1;
    }
    proof {
        let all = positions(order@);
        assert forall|k: int| 0 <= k < all.len() implies 0 <= #[trigger] all[k] < slots@.len()
            && slots@[all[k]].warm() by {
            assert(all[k] == order@[k] as int);
        }
    }
    order
}

fn place(slots: &Vec<SlotStorage>, order: &mut Vec<usize>, i: usize)
    requires
        i < slots@.len(),
        slots@[i as int].warm(),
        orders(|a: int, b: int| preferred(slots@[a], slots@[b])),
        positions(old(order)@).no_duplicates(),
        in_order(positions(old(order)@), |a: int, b: int| preferred(slots@[a], slots@[b])),
        forall|k: int| 0 <= k < old(order)@.len() ==> #[trigger] old(order)@[k] < i,
        forall|k: int|
            0 <= k < old(order)@.len() ==> slots@[(#[trigger] old(order)@[k]) as int].warm(),
        forall|s: int|
            0 <= s < i && slots@[s].warm() ==> #[trigger] positions(old(order)@).contains(s),
    ensures
        positions(final(order)@).no_duplicates(),
        in_order(positions(final(order)@), |a: int, b: int| preferred(slots@[a], slots@[b])),
        forall|k: int| 0 <= k < final(order)@.len() ==> #[trigger] final(order)@[k] < i + 1,
        forall|k: int|
            0 <= k < final(order)@.len() ==> slots@[(#[trigger] final(order)@[k]) as int].warm(),
        forall|s: int|
            0 <= s < i + 1 && slots@[s].warm() ==> #[trigger] positions(final(order)@).contains(s),
{
    let ghost had = order@;
    let ghost before = |a: int, b: int| preferred(slots@[a], slots@[b]);
    let at: usize = place_of(slots, order, i);
    order.insert(at, i);
    proof {
        let now = positions(order@);
        let was = positions(had);
        assert(now =~= was.insert(at as int, i as int));
        assert forall|k: int| 0 <= k < at implies !before(i as int, #[trigger] was[k]) by {
            assert(was[k] == had[k] as int);
        }
        if at < had.len() {
            assert(was[at as int] == had[at as int] as int);
        }
        lemma_insert_in_order(was, at as int, i as int, before);
        assert forall|k: int| 0 <= k < was.len() implies #[trigger] was[k] < i by {
            assert(was[k] == had[k] as int);
        }
        assert(now.no_duplicates());
        assert forall|s: int| 0 <= s < i + 1 && slots@[s].warm() implies #[trigger] now.contains(
            s,
        ) by {
            if s == i {
                assert(now[at as int] == s);
            } else {
                assert(was.contains(s));
                let k = choose|k: int| 0 <= k < was.len() && was[k] == s;
                if k < at {
                    assert(now[k] == s);
                } else {
                    assert(now[k + 1] == s);
                }
            }
        }
        assert forall|k: int| 0 <= k < order@.len() implies #[trigger] order@[k] < i + 1
            && slots@[order@[k] as int].warm() by {
            if k < at {
                assert(order@[k] == had[k]);
            } else if k > at {
                assert(order@[k] == had[k - 1]);
            }
        }
    }
}

fn place_of(slots: &Vec<SlotStorage>, order: &Vec<usize>, i: usize) -> (r: usize)
    requires
        i < slots@.len(),
        forall|k: int| 0 <= k < order@.len() ==> #[trigger] order@[k] < slots@.len(),
    ensures
        r <= order@.len(),
        forall|k: int|
            0 <= k < r ==> !preferred(slots@[i as int], slots@[(#[trigger] order@[k]) as int]),
        r < order@.len() ==> preferred(slots@[i as int], slots@[order@[r as int] as int]),
{
    let mut at: usize = 0;
    while at < order.len()
        invariant
            at <= order@.len(),
            i < slots@.len(),
            forall|k: int| 0 <= k < order@.len() ==> #[trigger] order@[k] < slots@.len(),
            forall|k: int|
                0 <= k < at ==> !preferred(
                    slots@[i as int],
                    slots@[(#[trigger] order@[k]) as int],
                ),
        decreases order@.len() - at,
    {
        if slots[i].is_preferred(&slots[order[at]]) {
            return at;
        }
        at += 1;
    }
    at
}

fn contains_id(ids: &Vec<SlotId>, id: SlotId) -> (r: bool)
    ensures
        r == ids@.contains(id),
{
    let mut i: usize = 0;
    while i < ids.len()
        invariant
            i <= ids@.len(),
            forall|j: int| 0 <= j < i ==> ids@[j] != id,
        decreases ids@.len() - i,
    {
        if ids[i].0 == id.0 {
            assert(ids@[i as int] == id);
            return true;
        }
        i += 1;
    }
    false
}

fn keep_warm(slots: &Vec<SlotStorage>, order: &Vec<usize>) -> (r: Vec<SlotId>)
    requires
        forall|k: int| 0 <= k < order@.len() ==> #[trigger] order@[k] < slots@.len(),
    ensures
        r@ == kept_warm(slots@, positions(order@), order@.len()),
{
    let ghost all = positions(order@);
    let mut kept: Vec<SlotId> = Vec::new();
    let mut n: usize = 0;
    while n < order.len()
        invariant
            n <= order@.len(),
            all == positions(order@),
            forall|k: int| 0 <= k < order@.len() ==> #[trigger] order@[k] < slots@.len(),
            kept@ == kept_warm(slots@, all, n as nat),
        decreases order@.len() - n,
    {
        let slot = &slots[order[n]];
        assert(all[n as int] == order@[n as int] as int);
        let mut met = false;
        let mut m: usize = 0;
        while m < n
            invariant
                m <= n < order@.len(),
                all == positions(order@),
                forall|k: int| 0 <= k < order@.len() ==> #[trigger] order@[k] < slots@.len(),
                *slot == slots@[all[n as int]],
                met <==> exists|k: int|
                    0 <= k < m && slots@[#[trigger] all[k]].repository_id == slot.repository_id,
            decreases n - m,
        {
            assert(all[m as int] == order@[m as int] as int);
            if slots[order[m]].repository_id.0 == slot.repository_id.0 {
                met = true;
            }
            m += 1;
        }
        assert(met == repository_met(slots@, all, n as int));
        if kept.len() != MAX_WARM_SLOTS && !met && !contains_id(&kept, slot.slot_id) {
            kept.push(slot.slot_id);
        }
        n += 1;
    }
    kept
}

/// The slots that are not in use and not among those kept warm.
pub fn excess_warm_slots(slots: &Vec<SlotStorage>) -> (r: Vec<SlotId>)
    ensures
        r@.no_duplicates(),
        exists|order: Seq<int>| #[trigger]
            warm_order(slots@, order) && forall|id: SlotId|
                r@.contains(id) == is_excess(slots@, kept_warm(slots@, order, order.len()), id),
{
    let order = order_warm(slots);
    let ghost at = positions(order@);
    proof {
        assert forall|k: int| 0 <= k < order@.len() implies #[trigger] order@[k] < slots@.len() by {
            assert(at[k] == order@[k] as int);
        }
    }
    let kept = keep_warm(slots, &order);
    let ghost warm = kept_warm(slots@, at, at.len());
    let mut out: Vec<SlotId> = Vec::new();
    let mut i: usize = 0;
    while i < slots.len()
        invariant
            i <= slots@.len(),
            kept@ == warm,
            out@.no_duplicates(),
            forall|id: SlotId|
                out@.contains(id) == exists|j: int|
                    0 <= j < i && (#[trigger] slots@[j]).slot_id == id && slots@[j].free()
                        && !warm.contains(id),
        decreases slots@.len() - i,
    {
        let slot = &slots[i];
        let ghost had = out@;
        let id = slot.slot_id;
        let goes = slot.is_free() && !contains_id(&kept, id);
        if goes && !contains_id(&out, id) {
            out.push(id);
        }
        proof {
            assert forall|other: SlotId|
                out@.contains(other) == exists|j: int|
                    0 <= j < i + 1 && (#[trigger] slots@[j]).slot_id == other && slots@[j].free()
                        && !warm.contains(other) by {
                if had.contains(other) {
                    let p = choose|p: int| 0 <= p < had.len() && had[p] == other;
                    assert(out@[p] == other);
                    let j = choose|j: int|
                        0 <= j < i && (#[trigger] slots@[j]).slot_id == other && slots@[j].free()
                            && !warm.contains(other);
                    assert(slots@[j].slot_id == other);
                }
                if other == id && goes {
                    assert(slots@[i as int].slot_id == other);
                    if !had.contains(id) {
                        assert(out@[had.len() as int] == id);
                    }
                }
                if out@.contains(other) && !had.contains(other) {
                    let p = choose|p: int| 0 <= p < out@.len() && out@[p] == other;
                    assert(p == had.len());
                }
            }
        }
        i += 1;
    }
    assert(warm_order(slots@, at));
    out
}

/// No more slots are kept warm than the limit allows.
pub proof fn law_the_warm_pool_is_small(slots: Seq<SlotStorage>, order: Seq<int>, n: nat)
    requires
        n <= order.len(),
    ensures
        kept_warm(slots, order, n).len() <= MAX_WARM_SLOTS,
    decreases n,
{
    if n > 0 {
        law_the_warm_pool_is_small(slots, order, (n - 1) as nat);
    }
}

/// Where a slot that is kept warm stands in the order: it is the first one of its
/// repository.
pub open spec fn keeps_first(
    slots: Seq<SlotStorage>,
    order: Seq<int>,
    n: nat,
    id: SlotId,
    k: int,
) -> bool {
    0 <= k < n && slots[order[k]].slot_id == id && !repository_met(slots, order, k)
}

/// A slot is kept warm only as the first one of its repository: no repository keeps two,
/// and none keeps one that is less preferred than another of its own.
pub proof fn law_a_repository_keeps_its_most_recent_slot(
    slots: Seq<SlotStorage>,
    order: Seq<int>,
    n: nat,
    id: SlotId,
)
    requires
        n <= order.len(),
        kept_warm(slots, order, n).contains(id),
    ensures
        exists|k: int| keeps_first(slots, order, n, id, k),
    decreases n,
{
    if n > 0 {
        let fewer = (n - 1) as nat;
        let kept = kept_warm(slots, order, fewer);
        if kept.contains(id) {
            law_a_repository_keeps_its_most_recent_slot(slots, order, fewer, id);
            let k = choose|k: int| keeps_first(slots, order, fewer, id, k);
            assert(keeps_first(slots, order, n, id, k));
        } else {
            let all = kept_warm(slots, order, n);
            let p = choose|p: int| 0 <= p < all.len() && all[p] == id;
            assert(p == kept.len());
            assert(keeps_first(slots, order, n, id, n - 1));
        }
    }
}

/// As long as there is room in the warm pool, the first slot of every repository is kept.
pub proof fn law_every_repository_keeps_a_slot_while_there_is_room(
    slots: Seq<SlotStorage>,
    order: Seq<int>,
    n: nat,
    k: int,
)
    requires
        0 <= k < n <= order.len(),
        !repository_met(slots, order, k),
        kept_warm(slots, order, n).len() < MAX_WARM_SLOTS,
    ensures
        kept_warm(slots, order, n).contains(slots[order[k]].slot_id),
    decreases n,
{
    let before = kept_warm(slots, order, (n - 1) as nat);
    let all = kept_warm(slots, order, n);
    law_the_warm_pool_is_small(slots, order, (n - 1) as nat);
    assert(before.len() <= all.len());
    let id = slots[order[k]].slot_id;
    if k < n - 1 {
        law_every_repository_keeps_a_slot_while_there_is_room(slots, order, (n - 1) as nat, k);
        let p = choose|p: int| 0 <= p < before.len() && before[p] == id;
        assert(all[p] == id);
    } else if !before.contains(id) {
        assert(all[before.len() as int] == id);
    }
}

/// Something that lies in the cache.
#[derive(Clone, Debug, PartialEq, Eq)]
pub struct CacheChild {
    pub name: String,
    pub path: String,
    pub charged_bytes: u64,
}

/// What something in the cache is.
#[derive(Clone, Copy, Debug, PartialEq, Eq, Structural)]
pub enum ChildClass {
    /// It belongs to a repository that is registered.
    Registered,
    /// It belongs to a repository that is not registered.
    Orphan(RepositoryId),
    /// It is on its way out.
    PruneQuarantine,
    /// It has been put aside.
    Recovery,
    Unknown,
}

/// What something in the cache is, by its name.
pub open spec fn class_of(name: Seq<char>, registered: Seq<RepositoryId>) -> ChildClass {
    match crate::outside::uuid_value(name) {
        Some(id) => if registered.contains(RepositoryId(id)) {
            ChildClass::Registered
        } else {
            ChildClass::Orphan(RepositoryId(id))
        },
        None => if begins_with(name, ".pruned-"@) {
            ChildClass::PruneQuarantine
        } else if begins_with(name, "recovery-"@) {
            ChildClass::Recovery
        } else {
            ChildClass::Unknown
        },
    }
}

/// What something in the cache is, by its name.
pub fn classify_child(name: &str, registered: &Vec<RepositoryId>) -> (r: ChildClass)
    ensures
        r == class_of(name@, registered@),
{
    match RepositoryId::parse(name) {
        Some(id) => {
            let mut i: usize = 0;
            while i < registered.len()
                invariant
                    i <= registered@.len(),
                    crate::outside::uuid_value(name@) == Some(id.0),
                    forall|j: int| 0 <= j < i ==> registered@[j] != id,
                decreases registered@.len() - i,
            {
                if registered[i].0 == id.0 {
                    assert(registered@[i as int] == id);
                    return ChildClass::Registered;
                }
                i += 1;
            }
            ChildClass::Orphan(id)
        },
        None => if starts_with(name, ".pruned-") {
            ChildClass::PruneQuarantine
        } else if starts_with(name, "recovery-") {
            ChildClass::Recovery
        } else {
            ChildClass::Unknown
        },
    }
}

/// What is listed of a slot.
pub open spec fn slot_info(slot: SlotStorage, bytes: u64, excess: bool) -> EntryInfo {
    EntryInfo {
        repository_id: Some(slot.repository_id),
        slot_id: Some(slot.slot_id),
        class: "slot"@,
        path: slot.path@,
        charged_bytes: bytes,
        reclaimable: excess,
        protected_reason: if slot.state@ != "idle"@ {
            Some("slot is "@ + slot.state@)
        } else {
            None
        },
        last_accessed_at: slot.last_accessed_at,
    }
}

/// What is listed of a seed.
pub open spec fn seed_info(seed: SeedStorage, bytes: u64) -> EntryInfo {
    EntryInfo {
        repository_id: Some(seed.repository_id),
        slot_id: None,
        class: "seed"@,
        path: seed.path@,
        charged_bytes: bytes,
        reclaimable: !seed.protected,
        protected_reason: if seed.protected {
            Some("latest compatible published seed"@)
        } else {
            None
        },
        last_accessed_at: None,
    }
}

/// What is listed of something else in the cache.
pub open spec fn child_info(child: CacheChild, class: ChildClass) -> EntryInfo {
    let goes = class is Orphan || class is PruneQuarantine;
    EntryInfo {
        repository_id: match class {
            ChildClass::Orphan(id) => Some(id),
            _ => None,
        },
        slot_id: None,
        class: match class {
            ChildClass::Orphan(_) => "orphan-repository"@,
            ChildClass::PruneQuarantine => "prune-quarantine"@,
            ChildClass::Recovery => "recovery"@,
            _ => "unknown"@,
        },
        path: child.path@,
        charged_bytes: child.charged_bytes,
        reclaimable: goes,
        protected_reason: if goes {
            None
        } else {
            Some("ownership requires review"@)
        },
        last_accessed_at: None,
    }
}

/// What is listed of the first `n` slots.
pub open spec fn slot_infos(
    slots: Seq<SlotStorage>,
    bytes: Seq<u64>,
    kept: Seq<SlotId>,
    n: nat,
) -> Seq<EntryInfo>
    decreases n,
{
    if n == 0 {
        Seq::empty()
    } else {
        let slot = slots[n - 1];
        slot_infos(slots, bytes, kept, (n - 1) as nat).push(
            slot_info(slot, bytes[n - 1], is_excess(slots, kept, slot.slot_id)),
        )
    }
}

/// What is listed of the first `n` seeds.
pub open spec fn seed_infos(seeds: Seq<SeedStorage>, bytes: Seq<u64>, n: nat) -> Seq<EntryInfo>
    decreases n,
{
    if n == 0 {
        Seq::empty()
    } else {
        seed_infos(seeds, bytes, (n - 1) as nat).push(seed_info(seeds[n - 1], bytes[n - 1]))
    }
}

/// What is listed of the first `n` other things: nothing of what belongs to a registered
/// repository.
pub open spec fn child_infos(
    children: Seq<CacheChild>,
    registered: Seq<RepositoryId>,
    n: nat,
) -> Seq<EntryInfo>
    decreases n,
{
    if n == 0 {
        Seq::empty()
    } else {
        let before = child_infos(children, registered, (n - 1) as nat);
        let child = children[n - 1];
        let class = class_of(child.name@, registered);
        if class is Registered {
            before
        } else {
            before.push(child_info(child, class))
        }
    }
}

/// One entry stands before another: its path does, part by part.
pub open spec fn path_before(a: StorageEntryView, b: StorageEntryView) -> bool {
    text_before(path_key(a.path@), path_key(b.path@))
}

proof fn lemma_paths_order()
    ensures
        orders(|a: StorageEntryView, b: StorageEntryView| path_before(a, b)),
{
    let before = |a: StorageEntryView, b: StorageEntryView| path_before(a, b);
    assert forall|a: StorageEntryView| !(#[trigger] before(a, a)) by {
        lemma_bytes_before_irreflexive(encode_utf8(path_key(a.path@)));
    }
    assert forall|a: StorageEntryView, b: StorageEntryView, c: StorageEntryView|
        #[trigger] before(a, b) && #[trigger] before(b, c) implies before(a, c) by {
        lemma_bytes_before_transitive(
            encode_utf8(path_key(a.path@)),
            encode_utf8(path_key(b.path@)),
            encode_utf8(path_key(c.path@)),
        );
    }
}

fn stands_before(a: &StorageEntryView, b: &StorageEntryView) -> (r: bool)
    ensures
        r == path_before(*a, *b),
{
    let one = ordering_key(a.path.as_str());
    let other = ordering_key(b.path.as_str());
    match order_str(one.as_str(), other.as_str()) {
        TextOrder::Before => true,
        _ => false,
    }
}

fn entry_place(entries: &Vec<StorageEntryView>, entry: &StorageEntryView) -> (r: usize)
    ensures
        r <= entries@.len(),
        forall|k: int| 0 <= k < r ==> !path_before(*entry, #[trigger] entries@[k]),
        r < entries@.len() ==> path_before(*entry, entries@[r as int]),
{
    let mut at: usize = 0;
    while at < entries.len()
        invariant
            at <= entries@.len(),
            forall|k: int| 0 <= k < at ==> !path_before(*entry, #[trigger] entries@[k]),
        decreases entries@.len() - at,
    {
        if stands_before(entry, &entries[at]) {
            return at;
        }
        at += 1;
    }
    at
}

/// The bytes that the entries would free.
pub open spec fn reclaimable_total(entries: Seq<EntryInfo>) -> nat
    decreases entries.len(),
{
    if entries.len() == 0 {
        0
    } else {
        reclaimable_total(entries.drop_last()) + if entries.last().reclaimable {
            entries.last().charged_bytes as nat
        } else {
            0
        }
    }
}

proof fn lemma_total_insert(entries: Seq<EntryInfo>, at: int, entry: EntryInfo)
    requires
        0 <= at <= entries.len(),
    ensures
        reclaimable_total(entries.insert(at, entry)) == reclaimable_total(entries)
            + if entry.reclaimable {
            entry.charged_bytes as nat
        } else {
            0
        },
    decreases entries.len(),
{
    let all = entries.insert(at, entry);
    if at == entries.len() {
        assert(all.drop_last() =~= entries);
    } else {
        assert(all.drop_last() =~= entries.drop_last().insert(at, entry));
        assert(all.last() == entries.last());
        lemma_total_insert(entries.drop_last(), at, entry);
    }
}

/// The sum of the numbers.
pub open spec fn sum_of(numbers: Seq<u64>) -> nat
    decreases numbers.len(),
{
    if numbers.len() == 0 {
        0
    } else {
        sum_of(numbers.drop_last()) + numbers.last() as nat
    }
}

proof fn lemma_sum_grows(numbers: Seq<u64>, n: int)
    requires
        0 <= n < numbers.len(),
    ensures
        sum_of(numbers.take(n + 1)) == sum_of(numbers.take(n)) + numbers[n],
        sum_of(numbers.take(n + 1)) <= sum_of(numbers),
    decreases numbers.len() - n,
{
    assert(numbers.take(n + 1).drop_last() =~= numbers.take(n));
    if n + 1 < numbers.len() {
        lemma_sum_grows(numbers, n + 1);
    } else {
        assert(numbers.take(n + 1) =~= numbers);
    }
}

/// The room that things in the cache take up.
pub open spec fn child_bytes(children: Seq<CacheChild>) -> Seq<u64> {
    children.map_values(|child: CacheChild| child.charged_bytes)
}

struct Listing {
    entries: Vec<StorageEntryView>,
    reclaimable: u64,
}

impl Listing {
    spec fn holds(self, listed: Seq<EntryInfo>) -> bool {
        &&& in_order(
            self.entries@,
            |a: StorageEntryView, b: StorageEntryView| path_before(a, b),
        )
        &&& entry_infos(self.entries@).to_multiset() == listed.to_multiset()
        &&& self.reclaimable == reclaimable_total(entry_infos(self.entries@))
    }

    fn add_entry(&mut self, entry: StorageEntryView, Ghost(listed): Ghost<Seq<EntryInfo>>)
        requires
            old(self).holds(listed),
            old(self).reclaimable + entry.charged_bytes <= u64::MAX,
        ensures
            final(self).holds(listed.push(entry@)),
            old(self).reclaimable <= final(self).reclaimable <= old(self).reclaimable
                + entry.charged_bytes,
    {
        let ghost had = self.entries@;
        if entry.reclaimable {
            self.reclaimable += entry.charged_bytes;
        }
        let at: usize = entry_place(&self.entries, &entry);
        self.entries.insert(at, entry);
        proof {
            let before = |a: StorageEntryView, b: StorageEntryView| path_before(a, b);
            lemma_paths_order();
            lemma_insert_in_order(had, at as int, entry, before);
            assert(self.entries@ =~= had.insert(at as int, entry));
            assert(entry_infos(self.entries@) =~= entry_infos(had).insert(at as int, entry@));
            vstd::seq_lib::to_multiset_insert(entry_infos(had), at as int, entry@);
            vstd::seq_lib::to_multiset_build(listed, entry@);
            lemma_total_insert(entry_infos(had), at as int, entry@);
        }
    }
}

fn list_slots(
    listing: &mut Listing,
    slots: &Vec<SlotStorage>,
    bytes: &Vec<u64>,
    excess: &Vec<SlotId>,
    Ghost(kept): Ghost<Seq<SlotId>>,
)
    requires
        old(listing).holds(Seq::empty()),
        old(listing).reclaimable == 0,
        bytes@.len() == slots@.len(),
        sum_of(bytes@) <= u64::MAX,
        forall|id: SlotId| excess@.contains(id) == is_excess(slots@, kept, id),
    ensures
        final(listing).holds(slot_infos(slots@, bytes@, kept, slots@.len())),
        final(listing).reclaimable <= sum_of(bytes@),
{
    let mut n: usize = 0;
    assert(bytes@.take(0) =~= Seq::empty());
    while n < slots.len()
        invariant
            n <= slots@.len(),
            bytes@.len() == slots@.len(),
            sum_of(bytes@) <= u64::MAX,
            forall|id: SlotId| excess@.contains(id) == is_excess(slots@, kept, id),
            listing.holds(slot_infos(slots@, bytes@, kept, n as nat)),
            listing.reclaimable <= sum_of(bytes@.take(n as int)),
        decreases slots@.len() - n,
    {
        proof {
            lemma_sum_grows(bytes@, n as int);
        }
        let slot = &slots[n];
        let protected_reason = if str_equal(slot.state.as_str(), "idle") {
            None
        } else {
            Some("slot is ".to_owned().concat(slot.state.as_str()))
        };
        let entry = StorageEntryView {
            repository_id: Some(slot.repository_id),
            slot_id: Some(slot.slot_id),
            class: "slot".to_owned(),
            path: slot.path.as_str().to_owned(),
            charged_bytes: bytes[n],
            reclaimable: contains_id(excess, slot.slot_id),
            protected_reason,
            last_accessed_at: slot.last_accessed_at,
        };
        assert(entry@ =~= slot_info(
            *slot,
            bytes@[n as int],
            is_excess(slots@, kept, slot.slot_id),
        ));
        let ghost listed = slot_infos(slots@, bytes@, kept, n as nat);
        listing.add_entry(entry, Ghost(listed));
        n += 1;
    }
    assert(bytes@.take(n as int) =~= bytes@);
}

fn list_seeds(
    listing: &mut Listing,
    seeds: &Vec<SeedStorage>,
    bytes: &Vec<u64>,
    Ghost(first): Ghost<Seq<EntryInfo>>,
)
    requires
        old(listing).holds(first),
        bytes@.len() == seeds@.len(),
        old(listing).reclaimable + sum_of(bytes@) <= u64::MAX,
    ensures
        final(listing).holds(first + seed_infos(seeds@, bytes@, seeds@.len())),
        final(listing).reclaimable <= old(listing).reclaimable + sum_of(bytes@),
{
    let mut n: usize = 0;
    assert(bytes@.take(0) =~= Seq::empty());
    assert(first + seed_infos(seeds@, bytes@, 0) =~= first);
    while n < seeds.len()
        invariant
            n <= seeds@.len(),
            bytes@.len() == seeds@.len(),
            old(listing).reclaimable + sum_of(bytes@) <= u64::MAX,
            listing.holds(first + seed_infos(seeds@, bytes@, n as nat)),
            listing.reclaimable <= old(listing).reclaimable + sum_of(bytes@.take(n as int)),
        decreases seeds@.len() - n,
    {
        proof {
            lemma_sum_grows(bytes@, n as int);
        }
        let seed = &seeds[n];
        let protected_reason = if seed.protected {
            Some("latest compatible published seed".to_owned())
        } else {
            None
        };
        let entry = StorageEntryView {
            repository_id: Some(seed.repository_id),
            slot_id: None,
            class: "seed".to_owned(),
            path: seed.path.as_str().to_owned(),
            charged_bytes: bytes[n],
            reclaimable: !seed.protected,
            protected_reason,
            last_accessed_at: None,
        };
        assert(entry@ =~= seed_info(*seed, bytes@[n as int]));
        let ghost listed = first + seed_infos(seeds@, bytes@, n as nat);
        listing.add_entry(entry, Ghost(listed));
        proof {
            assert(listed.push(entry@) =~= first + seed_infos(seeds@, bytes@, (n + 1) as nat));
        }
        n += 1;
    }
    assert(bytes@.take(n as int) =~= bytes@);
}

fn child_entry(child: &CacheChild, class: ChildClass) -> (r: StorageEntryView)
    ensures
        r@ == child_info(*child, class),
{
    let (repository_id, name, goes): (Option<RepositoryId>, &str, bool) = match class {
        ChildClass::Orphan(id) => (Some(id), "orphan-repository", true),
        ChildClass::PruneQuarantine => (None, "prune-quarantine", true),
        ChildClass::Recovery => (None, "recovery", false),
        _ => (None, "unknown", false),
    };
    let protected_reason = if goes {
        None
    } else {
        Some("ownership requires review".to_owned())
    };
    StorageEntryView {
        repository_id,
        slot_id: None,
        class: name.to_owned(),
        path: child.path.as_str().to_owned(),
        charged_bytes: child.charged_bytes,
        reclaimable: goes,
        protected_reason,
        last_accessed_at: None,
    }
}

fn list_children(
    listing: &mut Listing,
    children: &Vec<CacheChild>,
    registered: &Vec<RepositoryId>,
    Ghost(first): Ghost<Seq<EntryInfo>>,
)
    requires
        old(listing).holds(first),
        old(listing).reclaimable + sum_of(child_bytes(children@)) <= u64::MAX,
    ensures
        final(listing).holds(first + child_infos(children@, registered@, children@.len())),
{
    let ghost bytes = child_bytes(children@);
    let mut n: usize = 0;
    assert(bytes.take(0) =~= Seq::empty());
    assert(first + child_infos(children@, registered@, 0) =~= first);
    while n < children.len()
        invariant
            n <= children@.len(),
            bytes == child_bytes(children@),
            old(listing).reclaimable + sum_of(bytes) <= u64::MAX,
            listing.holds(first + child_infos(children@, registered@, n as nat)),
            listing.reclaimable <= old(listing).reclaimable + sum_of(bytes.take(n as int)),
        decreases children@.len() - n,
    {
        proof {
            lemma_sum_grows(bytes, n as int);
            assert(bytes[n as int] == children@[n as int].charged_bytes);
        }
        let child = &children[n];
        let class = classify_child(child.name.as_str(), registered);
        let ghost listed = first + child_infos(children@, registered@, n as nat);
        match class {
            ChildClass::Registered => {},
            _ => {
                let entry = child_entry(child, class);
                listing.add_entry(entry, Ghost(listed));
                proof {
                    assert(listed.push(entry@) =~= first + child_infos(
                        children@,
                        registered@,
                        (n + 1) as nat,
                    ));
                }
            },
        }
        n += 1;
    }
}

/// Lists what the cache holds, by path: slots, seeds, and whatever else lies in it but
/// does not belong to a registered repository. The sizes of slots and seeds are handed in
/// beside them; `cache_bytes` is the size of the whole.
pub fn inspect(
    registered: &Vec<RepositoryId>,
    slots: &Vec<SlotStorage>,
    slot_bytes: &Vec<u64>,
    seeds: &Vec<SeedStorage>,
    seed_bytes: &Vec<u64>,
    children: &Vec<CacheChild>,
    cache_bytes: u64,
) -> (r: StorageView)
    requires
        slot_bytes@.len() == slots@.len(),
        seed_bytes@.len() == seeds@.len(),
        sum_of(slot_bytes@) + sum_of(seed_bytes@) + sum_of(child_bytes(children@)) <= u64::MAX,
    ensures
        exists|order: Seq<int>| #[trigger]
            warm_order(slots@, order) && entry_infos(r.entries@).to_multiset() == (slot_infos(
                slots@,
                slot_bytes@,
                kept_warm(slots@, order, order.len()),
                slots@.len(),
            ) + seed_infos(seeds@, seed_bytes@, seeds@.len()) + child_infos(
                children@,
                registered@,
                children@.len(),
            )).to_multiset(),
        in_order(
            r.entries@,
            |a: StorageEntryView, b: StorageEntryView| path_before(a, b),
        ),
        r.charged_bytes == cache_bytes,
        r.reclaimable_bytes == reclaimable_total(entry_infos(r.entries@)),
        r.target_bytes == TARGET_BYTES,
        r.high_water_bytes == HIGH_WATER_BYTES,
        r.hard_limit_bytes == HARD_LIMIT_BYTES,
        r.minimum_free_bytes == MINIMUM_FREE_BYTES,
        r.seed_limit_bytes == SEED_LIMIT_BYTES,
{
    let excess = excess_warm_slots(slots);
    let ghost order = choose|order: Seq<int>| #[trigger]
        warm_order(slots@, order) && forall|id: SlotId|
            excess@.contains(id) == is_excess(
                slots@,
                kept_warm(slots@, order, order.len()),
                id,
            );
    let ghost kept = kept_warm(slots@, order, order.len());
    let mut listing = Listing { entries: Vec::new(), reclaimable: 0 };
    proof {
        assert(entry_infos(listing.entries@) =~= Seq::empty());
    }
    list_slots(&mut listing, slots, slot_bytes, &excess, Ghost(kept));
    let ghost first = slot_infos(slots@, slot_bytes@, kept, slots@.len());
    list_seeds(&mut listing, seeds, seed_bytes, Ghost(first));
    let ghost second = first + seed_infos(seeds@, seed_bytes@, seeds@.len());
    list_children(&mut listing, children, registered, Ghost(second));
    StorageView {
        charged_bytes: cache_bytes,
        reclaimable_bytes: listing.reclaimable,
        target_bytes: TARGET_BYTES,
        high_water_bytes: HIGH_WATER_BYTES,
        hard_limit_bytes: HARD_LIMIT_BYTES,
        minimum_free_bytes: MINIMUM_FREE_BYTES,
        seed_limit_bytes: SEED_LIMIT_BYTES,
        entries: listing.entries,
    }
}

/// The room that so many blocks take up.
pub fn charged_size(blocks: u64) -> (r: u64)
    ensures
        r == if blocks * 512 <= u64::MAX {
            blocks * 512
        } else {
            u64::MAX as int
        },
{
    match blocks.checked_mul(512) {
        Some(bytes) => bytes,
        None => u64::MAX,
    }
}

/// The room that a directory takes up with one more thing in it.
pub fn add_charge(total: u64, charge: u64) -> (r: u64)
    ensures
        r == if total + charge <= u64::MAX {
            total + charge
        } else {
            u64::MAX as int
        },
{
    total.saturating_add(charge)
}

/// Checks that what is to be measured is no symbolic link.
pub fn check_storage_root(path: &str, is_symlink: bool) -> (r: Result<(), String>)
    ensures
        r is Ok <==> !is_symlink,
        r matches Err(text) ==> text@ == "storage path is a symbolic link: "@ + path@,
{
    if is_symlink {
        return Err("storage path is a symbolic link: ".to_owned().concat(path));
    }
    Ok(())
}

/// A slot that is in use, or whose repository is at work, is never one too many.
pub proof fn law_slots_in_use_stay(slots: Seq<SlotStorage>, kept: Seq<SlotId>, id: SlotId)
    requires
        forall|i: int| 0 <= i < slots.len() && slots[i].slot_id == id ==> !#[trigger] slots[i].free(),
    ensures
        !is_excess(slots, kept, id),
{
}

} // verus!
