//! The table of queue items.

use crate::ids::{QueueItemId, RepositoryId};
use crate::model::QueueItem;
#[allow(unused_imports)]
use crate::outside::uuid_text;
use crate::store::{refused, StoreError};
use crate::text::concat3;
use vstd::prelude::*;

verus! {

/// An item, with its number in the queue of its repository and whether it is under way.
#[derive(Clone, Debug, PartialEq, Eq)]
pub struct ItemRow {
    pub repository_id: RepositoryId,
    pub number: i64,
    pub active: bool,
    pub item: QueueItem,
}

/// What tells rows apart.
#[derive(Clone, Copy, Debug, PartialEq, Eq, Structural)]
pub struct RowKey {
    pub id: QueueItemId,
    pub repository_id: RepositoryId,
    pub number: i64,
    pub active: bool,
}

/// What tells a row apart.
pub open spec fn key_of(row: ItemRow) -> RowKey {
    RowKey {
        id: row.item.id,
        repository_id: row.repository_id,
        number: row.number,
        active: row.active,
    }
}

/// What tells the rows apart.
pub open spec fn keys_of(rows: Seq<ItemRow>) -> Seq<RowKey> {
    rows.map_values(|row: ItemRow| key_of(row))
}

/// No two rows are of the same item, and no two of one repository have the same number.
pub open spec fn keys_sound(keys: Seq<RowKey>) -> bool {
    forall|i: int, j: int|
        0 <= i < j < keys.len() ==> (#[trigger] keys[i]).id != (#[trigger] keys[j]).id && !(
        keys[i].repository_id == keys[j].repository_id && keys[i].number == keys[j].number)
}

/// The number that an item gets.
pub open spec fn number_of_item(item: QueueItem) -> i64 {
    item.enqueue_sequence as i64
}

/// The row of the key would take the number of another row of its repository.
pub open spec fn number_taken(keys: Seq<RowKey>, i: int, number: i64) -> bool {
    exists|j: int|
        0 <= j < keys.len() && j != i && (#[trigger] keys[j]).repository_id
            == keys[i].repository_id && keys[j].number == number
}

/// The row at a position is of an item.
pub open spec fn row_at(keys: Seq<RowKey>, i: int, id: QueueItemId) -> bool {
    0 <= i < keys.len() && keys[i].id == id
}

/// There is a row of the item.
pub open spec fn has_item(keys: Seq<RowKey>, id: QueueItemId) -> bool {
    exists|i: int| row_at(keys, i, id)
}

/// The keys after the row of an item has been given a number, if it is free.
pub open spec fn parked(keys: Seq<RowKey>, id: QueueItemId, number: i64) -> Option<Seq<RowKey>> {
    if has_item(keys, id) {
        let i = choose|i: int| row_at(keys, i, id);
        if number_taken(keys, i, number) {
            None
        } else {
            Some(keys.update(i, RowKey { number, ..keys[i] }))
        }
    } else {
        Some(keys)
    }
}

/// Why an item cannot be stored.
#[allow(inconsistent_fields)]
pub enum StoreFault {
    /// Its number is taken.
    NumberTaken,
    /// There is no row of it that is under way.
    NotActive { id: QueueItemId },
}

/// The keys after the row of an item has been overwritten.
pub open spec fn overwritten(
    keys: Seq<RowKey>,
    item: QueueItem,
    only_active: bool,
) -> Result<Seq<RowKey>, StoreFault> {
    if has_item(keys, item.id) && (only_active ==> keys[choose|i: int|
        row_at(keys, i, item.id)].active) {
        let i = choose|i: int| row_at(keys, i, item.id);
        if number_taken(keys, i, number_of_item(item)) {
            Err(StoreFault::NumberTaken)
        } else {
            Ok(
                keys.update(
                    i,
                    RowKey {
                        number: number_of_item(item),
                        active: !item.state.terminal(),
                        ..keys[i]
                    },
                ),
            )
        }
    } else if only_active {
        Err(StoreFault::NotActive { id: item.id })
    } else {
        Ok(keys)
    }
}

/// The keys after the rows of the first `n` items have been put aside, with numbers that
/// no item has.
pub open spec fn all_parked(keys: Seq<RowKey>, items: Seq<QueueItem>, n: nat) -> Option<
    Seq<RowKey>,
>
    decreases n,
{
    if n == 0 {
        Some(keys)
    } else {
        match all_parked(keys, items, (n - 1) as nat) {
            Some(before) => parked(before, items[n - 1].id, (-(n as int)) as i64),
            None => None,
        }
    }
}

/// The keys after the rows of the first `n` items have been overwritten.
pub open spec fn all_overwritten(
    keys: Seq<RowKey>,
    items: Seq<QueueItem>,
    n: nat,
    only_active: bool,
) -> Result<Seq<RowKey>, StoreFault>
    decreases n,
{
    if n == 0 {
        Ok(keys)
    } else {
        match all_overwritten(keys, items, (n - 1) as nat, only_active) {
            Ok(before) => overwritten(before, items[n - 1], only_active),
            Err(fault) => Err(fault),
        }
    }
}

/// Why the items cannot be stored in place of their rows. The rows are put aside first,
/// so that the items may trade numbers.
pub open spec fn restructure_fault(
    rows: Seq<ItemRow>,
    items: Seq<QueueItem>,
    only_active: bool,
) -> Option<StoreFault> {
    match all_parked(keys_of(rows), items, items.len()) {
        None => Some(StoreFault::NumberTaken),
        Some(keys) => match all_overwritten(keys, items, items.len(), only_active) {
            Ok(_) => None,
            Err(fault) => Some(fault),
        },
    }
}

/// The row of an item after it has been overwritten.
pub open spec fn stored_row(row: ItemRow, item: QueueItem) -> ItemRow {
    ItemRow {
        repository_id: row.repository_id,
        number: number_of_item(item),
        active: !item.state.terminal(),
        item,
    }
}

/// The rows after the row of an item has been overwritten.
pub open spec fn stored(rows: Seq<ItemRow>, item: QueueItem) -> Seq<ItemRow> {
    rows.map_values(
        |row: ItemRow|
            if row.item.id == item.id {
                stored_row(row, item)
            } else {
                row
            },
    )
}

/// The rows after the time of an item in the queue is over.
pub open spec fn finished(rows: Seq<ItemRow>, item: QueueItem) -> Seq<ItemRow> {
    rows.map_values(
        |row: ItemRow|
            if row.item.id == item.id {
                ItemRow { active: false, item, ..row }
            } else {
                row
            },
    )
}

/// The rows after those of the first `n` items have been overwritten.
pub open spec fn all_stored(rows: Seq<ItemRow>, items: Seq<QueueItem>, n: nat) -> Seq<ItemRow>
    decreases n,
{
    if n == 0 {
        rows
    } else {
        stored(all_stored(rows, items, (n - 1) as nat), items[n - 1])
    }
}

/// The dependencies of an item are other items of the table, each named once.
pub open spec fn dependencies_known(keys: Seq<RowKey>, item: QueueItem) -> bool {
    &&& item.dependencies@.no_duplicates()
    &&& forall|i: int|
        0 <= i < item.dependencies@.len() ==> #[trigger] item.dependencies@[i] != item.id
            && has_item(keys, item.dependencies@[i])
}

/// There is a place for a new item.
pub open spec fn has_place(keys: Seq<RowKey>, item: QueueItem) -> bool {
    &&& !has_item(keys, item.id)
    &&& forall|i: int|
        0 <= i < keys.len() ==> !((#[trigger] keys[i]).repository_id == item.repository_id
            && keys[i].number == number_of_item(item))
}

/// A new item can be stored together with its dependencies.
pub open spec fn can_insert(keys: Seq<RowKey>, item: QueueItem) -> bool {
    has_place(keys, item) && dependencies_known(keys, item)
}

/// The row of a new item.
pub open spec fn new_row(item: QueueItem, active: bool) -> ItemRow {
    ItemRow { repository_id: item.repository_id, number: number_of_item(item), active, item }
}

proof fn lemma_row_unique(keys: Seq<RowKey>, id: QueueItemId, i: int)
    requires
        keys_sound(keys),
        row_at(keys, i, id),
    ensures
        has_item(keys, id),
        (choose|k: int| row_at(keys, k, id)) == i,
{
    let k = choose|k: int| row_at(keys, k, id);
    if k < i {
        assert(keys[k].id != keys[i].id);
    } else if i < k {
        assert(keys[i].id != keys[k].id);
    }
}

fn find_key(keys: &Vec<RowKey>, id: QueueItemId) -> (r: Option<usize>)
    requires
        keys_sound(keys@),
    ensures
        match r {
            Some(i) => row_at(keys@, i as int, id) && has_item(keys@, id) && (choose|k: int|
                row_at(keys@, k, id)) == i,
            None => !has_item(keys@, id),
        },
{
    let mut i: usize = 0;
    while i < keys.len()
        invariant
            i <= keys@.len(),
            keys_sound(keys@),
            forall|j: int| 0 <= j < i ==> (#[trigger] keys@[j]).id != id,
        decreases keys@.len() - i,
    {
        if keys[i].id.0 == id.0 {
            proof {
                lemma_row_unique(keys@, id, i as int);
            }
            return Some(i);
        }
        i += 1;
    }
    None
}

fn takes_number(keys: &Vec<RowKey>, i: usize, number: i64) -> (r: bool)
    requires
        i < keys@.len(),
    ensures
        r == number_taken(keys@, i as int, number),
{
    let mut j: usize = 0;
    while j < keys.len()
        invariant
            j <= keys@.len(),
            i < keys@.len(),
            forall|k: int|
                0 <= k < j ==> !(k != i && (#[trigger] keys@[k]).repository_id
                    == keys@[i as int].repository_id && keys@[k].number == number),
        decreases keys@.len() - j,
    {
        if j != i && keys[j].repository_id.0 == keys[i].repository_id.0 && keys[j].number
            == number {
            assert(keys@[j as int].number == number);
            return true;
        }
        j += 1;
    }
    false
}

proof fn lemma_update_sound(keys: Seq<RowKey>, i: int, key: RowKey)
    requires
        keys_sound(keys),
        0 <= i < keys.len(),
        key.id == keys[i].id,
        key.repository_id == keys[i].repository_id,
        !number_taken(keys, i, key.number),
    ensures
        keys_sound(keys.update(i, key)),
{
    let after = keys.update(i, key);
    assert forall|a: int, b: int| 0 <= a < b < after.len() implies (#[trigger] after[a]).id != (
    #[trigger] after[b]).id && !(after[a].repository_id == after[b].repository_id
        && after[a].number == after[b].number) by {
        assert(keys[a].id != keys[b].id);
        if a == i {
            assert(keys[b].repository_id == keys[i].repository_id ==> keys[b].number
                != key.number);
        } else if b == i {
            assert(keys[a].repository_id == keys[i].repository_id ==> keys[a].number
                != key.number);
        }
    }
}

fn park(keys: &mut Vec<RowKey>, id: QueueItemId, number: i64) -> (r: bool)
    requires
        keys_sound(old(keys)@),
    ensures
        r == (parked(old(keys)@, id, number) is Some),
        r ==> parked(old(keys)@, id, number) == Some(final(keys)@) && keys_sound(final(keys)@),
{
    match find_key(keys, id) {
        None => true,
        Some(i) => {
            if takes_number(keys, i, number) {
                return false;
            }
            let key = keys[i];
            let ghost had = keys@;
            let changed = RowKey {
                id: key.id,
                repository_id: key.repository_id,
                number,
                active: key.active,
            };
            keys.set(i, changed);
            proof {
                lemma_update_sound(had, i as int, changed);
            }
            true
        },
    }
}

fn overwrite(keys: &mut Vec<RowKey>, item: &QueueItem, only_active: bool) -> (r: Result<
    (),
    StoreError,
>)
    requires
        keys_sound(old(keys)@),
        item.enqueue_sequence <= i64::MAX,
    ensures
        match overwritten(old(keys)@, *item, only_active) {
            Ok(after) => r is Ok && final(keys)@ == after && keys_sound(after),
            Err(fault) => r matches Err(error) && reports(error, fault),
        },
{
    match find_key(keys, item.id) {
        None => {
            if only_active {
                return Err(not_updated(item.id));
            }
            Ok(())
        },
        Some(i) => {
            if only_active && !keys[i].active {
                return Err(not_updated(item.id));
            }
            let number: i64 = item.enqueue_sequence as i64;
            if takes_number(keys, i, number) {
                return Err(number_refused());
            }
            let key = keys[i];
            let ghost had = keys@;
            let changed = RowKey {
                id: key.id,
                repository_id: key.repository_id,
                number,
                active: !item.state.is_terminal(),
            };
            keys.set(i, changed);
            proof {
                lemma_update_sound(had, i as int, changed);
            }
            Ok(())
        },
    }
}

/// The error reports the fault.
pub open spec fn reports(error: StoreError, fault: StoreFault) -> bool {
    match fault {
        StoreFault::NumberTaken => error is Sql,
        StoreFault::NotActive { id } => error.broken(
            "candidate authorization did not update active item "@ + uuid_text(id.0)
                + " exactly once"@,
        ),
    }
}

fn not_updated(id: QueueItemId) -> (r: StoreError)
    ensures
        reports(r, (StoreFault::NotActive { id })),
{
    StoreError::Integrity(
        concat3(
            "candidate authorization did not update active item ",
            id.to_text().as_str(),
            " exactly once",
        ),
    )
}

fn number_refused() -> (r: StoreError)
    ensures
        r is Sql,
{
    refused(
        "UNIQUE constraint failed: queue_items.repository_id, queue_items.enqueue_sequence",
    )
}

proof fn lemma_parking_lost(keys: Seq<RowKey>, items: Seq<QueueItem>, n: nat, more: nat)
    requires
        n <= more,
        all_parked(keys, items, n) is None,
    ensures
        all_parked(keys, items, more) is None,
    decreases more,
{
    if n < more {
        lemma_parking_lost(keys, items, n, (more - 1) as nat);
    }
}

proof fn lemma_overwriting_lost(
    keys: Seq<RowKey>,
    items: Seq<QueueItem>,
    n: nat,
    more: nat,
    only_active: bool,
)
    requires
        n <= more,
        all_overwritten(keys, items, n, only_active) is Err,
    ensures
        all_overwritten(keys, items, more, only_active) == all_overwritten(
            keys,
            items,
            n,
            only_active,
        ),
    decreases more,
{
    if n < more {
        lemma_overwriting_lost(keys, items, n, (more - 1) as nat, only_active);
    }
}

/// The item is among those from position `k` on.
spec fn pending(items: Seq<QueueItem>, k: int, id: QueueItemId) -> bool {
    exists|m: int| k <= m < items.len() && (#[trigger] items[m]).id == id
}

/// The keys agree with the rows, but for the numbers of items that are still put aside.
spec fn tracks(keys: Seq<RowKey>, rows: Seq<ItemRow>, items: Seq<QueueItem>, k: int) -> bool {
    &&& keys.len() == rows.len()
    &&& forall|p: int|
        0 <= p < rows.len() ==> (#[trigger] keys[p]).id == rows[p].item.id && keys[p].repository_id
            == rows[p].repository_id && keys[p].active == rows[p].active && (keys[p].number
            == rows[p].number || pending(items, k, rows[p].item.id))
}

proof fn lemma_parking_tracks(rows: Seq<ItemRow>, items: Seq<QueueItem>, n: nat)
    requires
        n <= items.len(),
        keys_sound(keys_of(rows)),
        all_parked(keys_of(rows), items, n) is Some,
    ensures
        tracks(all_parked(keys_of(rows), items, n)->0, rows, items, 0),
    decreases n,
{
    if n > 0 {
        let fewer = (n - 1) as nat;
        lemma_parking_tracks(rows, items, fewer);
        let before = all_parked(keys_of(rows), items, fewer)->0;
        let after = all_parked(keys_of(rows), items, n)->0;
        let id = items[n - 1].id;
        assert forall|p: int| 0 <= p < rows.len() implies (#[trigger] after[p]).id
            == rows[p].item.id && after[p].repository_id == rows[p].repository_id
            && after[p].active == rows[p].active && (after[p].number == rows[p].number
            || pending(items, 0, rows[p].item.id)) by {
            assert(before[p].id == rows[p].item.id);
            if has_item(before, id) {
                let i = choose|i: int| row_at(before, i, id);
                if p == i {
                    assert(items[n - 1].id == rows[p].item.id);
                }
            }
        }
    }
}

proof fn lemma_storing_tracks(
    keys: Seq<RowKey>,
    rows: Seq<ItemRow>,
    items: Seq<QueueItem>,
    n: nat,
    only_active: bool,
)
    requires
        n <= items.len(),
        keys_sound(keys),
        tracks(keys, rows, items, 0),
        all_overwritten(keys, items, n, only_active) is Ok,
    ensures
        ({
            let after = all_overwritten(keys, items, n, only_active)->Ok_0;
            &&& keys_sound(after)
            &&& tracks(after, all_stored(rows, items, n), items, n as int)
        }),
    decreases n,
{
    if n > 0 {
        let fewer = (n - 1) as nat;
        lemma_storing_tracks(keys, rows, items, fewer, only_active);
        let item = items[n - 1];
        let before = all_overwritten(keys, items, fewer, only_active)->Ok_0;
        let after = all_overwritten(keys, items, n, only_active)->Ok_0;
        let had = all_stored(rows, items, fewer);
        let now = all_stored(rows, items, n);
        if has_item(before, item.id) {
            let i = choose|i: int| row_at(before, i, item.id);
            lemma_row_unique(before, item.id, i);
            lemma_update_sound(before, i, after[i]);
        }
        assert forall|p: int| 0 <= p < now.len() implies (#[trigger] after[p]).id
            == now[p].item.id && after[p].repository_id == now[p].repository_id && after[p].active
            == now[p].active && (after[p].number == now[p].number || pending(
            items,
            n as int,
            now[p].item.id,
        )) by {
            assert(before[p].id == had[p].item.id);
            assert(now[p] == if had[p].item.id == item.id {
                stored_row(had[p], item)
            } else {
                had[p]
            });
            if had[p].item.id == item.id {
                assert(row_at(before, p, item.id));
                lemma_row_unique(before, item.id, p);
            } else {
                assert(after[p] == before[p]);
                if before[p].number != had[p].number {
                    let m = choose|m: int|
                        fewer <= m < items.len() && (#[trigger] items[m]).id == had[p].item.id;
                    assert(m != n - 1);
                    assert(items[m].id == now[p].item.id);
                }
            }
        }
    }
}

/// Storing items in place of their rows keeps the table sound.
proof fn lemma_restructuring_sound(rows: Seq<ItemRow>, items: Seq<QueueItem>, only_active: bool)
    requires
        keys_sound(keys_of(rows)),
        restructure_fault(rows, items, only_active) is None,
        all_parked(keys_of(rows), items, items.len()) matches Some(keys) ==> keys_sound(keys),
    ensures
        keys_sound(keys_of(all_stored(rows, items, items.len()))),
{
    let n = items.len();
    lemma_parking_tracks(rows, items, n);
    let keys = all_parked(keys_of(rows), items, n)->0;
    lemma_storing_tracks(keys, rows, items, n, only_active);
    let after = all_overwritten(keys, items, n, only_active)->Ok_0;
    let now = all_stored(rows, items, n);
    assert(after =~= keys_of(now)) by {
        assert forall|p: int| 0 <= p < now.len() implies #[trigger] after[p] == key_of(now[p]) by {
            assert(after[p].id == now[p].item.id);
            assert(!pending(items, n as int, now[p].item.id));
        }
    }
}

/// The table of queue items.
#[derive(Clone, Debug, PartialEq, Eq)]
pub struct ItemTable {
    pub rows: Vec<ItemRow>,
}

impl ItemTable {
    /// The table holds together.
    pub open spec fn wf(self) -> bool {
        keys_sound(keys_of(self.rows@))
    }

    /// An empty table.
    pub fn new() -> (r: ItemTable)
        ensures
            r.wf(),
            r.rows@.len() == 0,
    {
        ItemTable { rows: Vec::new() }
    }

    fn keys(&self) -> (r: Vec<RowKey>)
        ensures
            r@ == keys_of(self.rows@),
    {
        let mut keys: Vec<RowKey> = Vec::new();
        let mut i: usize = 0;
        while i < self.rows.len()
            invariant
                i <= self.rows@.len(),
                keys@.len() == i,
                forall|j: int| 0 <= j < i ==> #[trigger] keys@[j] == key_of(self.rows@[j]),
            decreases self.rows@.len() - i,
        {
            let row = &self.rows[i];
            keys.push(
                RowKey {
                    id: row.item.id,
                    repository_id: row.repository_id,
                    number: row.number,
                    active: row.active,
                },
            );
            i += 1;
        }
        assert(keys@ =~= keys_of(self.rows@));
        keys
    }

    /// Whether there is a row of an item.
    pub fn holds(&self, id: QueueItemId) -> (r: bool)
        requires
            self.wf(),
        ensures
            r == has_item(keys_of(self.rows@), id),
    {
        let keys = self.keys();
        match find_key(&keys, id) {
            Some(_) => true,
            None => false,
        }
    }

    /// Checks that there is a place for a new item.
    pub fn check_place(&self, item: &QueueItem) -> (r: Result<(), StoreError>)
        requires
            self.wf(),
            item.enqueue_sequence <= i64::MAX,
        ensures
            r is Ok <==> has_place(keys_of(self.rows@), *item),
            r matches Err(error) ==> error is Sql,
    {
        let keys = self.keys();
        if let Some(_) = find_key(&keys, item.id) {
            return Err(refused("UNIQUE constraint failed: queue_items.item_id"));
        }
        let number: i64 = item.enqueue_sequence as i64;
        let mut i: usize = 0;
        while i < keys.len()
            invariant
                i <= keys@.len(),
                number == number_of_item(*item),
                keys@ == keys_of(self.rows@),
                forall|j: int|
                    0 <= j < i ==> !((#[trigger] keys@[j]).repository_id == item.repository_id
                        && keys@[j].number == number),
            decreases keys@.len() - i,
        {
            if keys[i].repository_id.0 == item.repository_id.0 && keys[i].number == number {
                assert(keys@[i as int].number == number);
                return Err(number_refused());
            }
            i += 1;
        }
        Ok(())
    }

    /// Checks that a new item can be stored together with its dependencies.
    pub fn check_insert(&self, item: &QueueItem) -> (r: Result<(), StoreError>)
        requires
            self.wf(),
            item.enqueue_sequence <= i64::MAX,
        ensures
            r is Ok <==> can_insert(keys_of(self.rows@), *item),
            r matches Err(error) ==> error is Sql,
    {
        match self.check_place(item) {
            Ok(()) => {},
            Err(error) => {
                return Err(error);
            },
        }
        let keys = self.keys();
        let dependencies = &item.dependencies;
        let mut d: usize = 0;
        while d < dependencies.len()
            invariant
                d <= dependencies@.len(),
                dependencies@ == item.dependencies@,
                keys@ == keys_of(self.rows@),
                keys_sound(keys@),
                forall|a: int, b: int|
                    0 <= a < b < d ==> #[trigger] dependencies@[a] != #[trigger] dependencies@[b],
                forall|a: int|
                    0 <= a < d ==> #[trigger] dependencies@[a] != item.id && has_item(
                        keys@,
                        dependencies@[a],
                    ),
            decreases dependencies@.len() - d,
        {
            let dependency = dependencies[d];
            let mut e: usize = 0;
            while e < d
                invariant
                    e <= d < dependencies@.len(),
                    dependencies@ == item.dependencies@,
                    dependency == dependencies@[d as int],
                    forall|a: int| 0 <= a < e ==> #[trigger] dependencies@[a] != dependency,
                decreases d - e,
            {
                if dependencies[e].0 == dependency.0 {
                    assert(dependencies@[e as int] == dependencies@[d as int]);
                    return Err(refused("UNIQUE constraint failed: item_dependencies"));
                }
                e += 1;
            }
            if dependency.0 == item.id.0 {
                assert(item.dependencies@[d as int] == item.id);
                return Err(refused("CHECK constraint failed: item_id <> dependency_item_id"));
            }
            match find_key(&keys, dependency) {
                Some(_) => {},
                None => {
                    assert(!has_item(keys@, item.dependencies@[d as int]));
                    return Err(refused("FOREIGN KEY constraint failed"));
                },
            }
            d += 1;
        }
        assert(item.dependencies@.no_duplicates());
        Ok(())
    }

    /// Stores a new item.
    pub fn insert(&mut self, item: QueueItem, active: bool)
        requires
            old(self).wf(),
            item.enqueue_sequence <= i64::MAX,
            has_place(keys_of(old(self).rows@), item),
        ensures
            final(self).wf(),
            final(self).rows@ == old(self).rows@.push(new_row(item, active)),
    {
        let ghost had = self.rows@;
        let repository_id = item.repository_id;
        let number: i64 = item.enqueue_sequence as i64;
        let ghost row = new_row(item, active);
        self.rows.push(ItemRow { repository_id, number, active, item });
        proof {
            assert(self.rows@ =~= had.push(row));
            let keys = keys_of(had);
            let after = keys_of(self.rows@);
            assert forall|a: int, b: int| 0 <= a < b < after.len() implies (
            #[trigger] after[a]).id != (#[trigger] after[b]).id && !(after[a].repository_id
                == after[b].repository_id && after[a].number == after[b].number) by {
                assert(after[a] == keys[a]);
                if b < keys.len() {
                    assert(after[b] == keys[b]);
                } else {
                    assert(!row_at(keys, a, item.id));
                    assert(!(keys[a].repository_id == item.repository_id && keys[a].number
                        == number_of_item(item)));
                }
            }
        }
    }

    /// Checks that items can be stored in place of their rows.
    pub fn check_restructure(&self, items: &Vec<QueueItem>, only_active: bool) -> (r: Result<
        (),
        StoreError,
    >)
        requires
            self.wf(),
            forall|i: int|
                0 <= i < items@.len() ==> (#[trigger] items@[i]).enqueue_sequence <= i64::MAX,
            items@.len() <= i64::MAX,
        ensures
            match restructure_fault(self.rows@, items@, only_active) {
                None => r is Ok,
                Some(fault) => r matches Err(error) && reports(error, fault),
            },
            r is Ok ==> keys_sound(keys_of(all_stored(self.rows@, items@, items@.len()))),
    {
        let mut keys = self.keys();
        let ghost start = keys@;
        let ghost total = items@.len();
        let mut i: usize = 0;
        while i < items.len()
            invariant
                i <= items@.len() <= i64::MAX,
                total == items@.len(),
                start == keys_of(self.rows@),
                keys_sound(keys@),
                all_parked(start, items@, i as nat) == Some(keys@),
            decreases items@.len() - i,
        {
            let number: i64 = -(i as i64) - 1;
            if !park(&mut keys, items[i].id, number) {
                proof {
                    assert(number == (-((i + 1) as int)) as i64);
                    assert(all_parked(start, items@, (i + 1) as nat) is None);
                    lemma_parking_lost(start, items@, (i + 1) as nat, total);
                }
                return Err(number_refused());
            }
            assert(number == (-((i + 1) as int)) as i64);
            i += 1;
        }
        let ghost middle = keys@;
        let mut k: usize = 0;
        while k < items.len()
            invariant
                k <= items@.len(),
                total == items@.len(),
                start == keys_of(self.rows@),
                all_parked(start, items@, total) == Some(middle),
                keys_sound(keys@),
                forall|i: int|
                    0 <= i < items@.len() ==> (#[trigger] items@[i]).enqueue_sequence <= i64::MAX,
                all_overwritten(middle, items@, k as nat, only_active) == Ok::<
                    Seq<RowKey>,
                    StoreFault,
                >(keys@),
            decreases items@.len() - k,
        {
            match overwrite(&mut keys, &items[k], only_active) {
                Ok(()) => {},
                Err(error) => {
                    proof {
                        lemma_overwriting_lost(
                            middle,
                            items@,
                            (k + 1) as nat,
                            total,
                            only_active,
                        );
                    }
                    return Err(error);
                },
            }
            k += 1;
        }
        proof {
            lemma_restructuring_sound(self.rows@, items@, only_active);
        }
        Ok(())
    }

    /// Overwrites the row of an item, if there is one.
    fn store(&mut self, item: QueueItem)
        requires
            ids_differ(old(self).rows@),
            item.enqueue_sequence <= i64::MAX,
        ensures
            final(self).rows@ == stored(old(self).rows@, item),
            ids_differ(final(self).rows@),
    {
        let ghost had = self.rows@;
        let ghost goal = stored(had, item);
        let number: i64 = item.enqueue_sequence as i64;
        let active = !item.state.is_terminal();
        let mut i: usize = 0;
        while i < self.rows.len()
            invariant
                i <= self.rows@.len(),
                self.rows@ == had,
                had == old(self).rows@,
                ids_differ(had),
                goal == stored(had, item),
                number == number_of_item(item),
                active == !item.state.terminal(),
                forall|j: int| 0 <= j < i ==> (#[trigger] had[j]).item.id != item.id,
            decreases self.rows@.len() - i,
        {
            if self.rows[i].item.id.0 == item.id.0 {
                let ghost at = i as int;
                assert(had[at].item.id == item.id);
                let ghost given = item;
                self.rows[i].number = number;
                self.rows[i].active = active;
                self.rows[i].item = item;
                proof {
                    let now = self.rows@;
                    assert(now =~= had.update(at, stored_row(had[at], given)));
                    assert forall|j: int| 0 <= j < had.len() implies #[trigger] now[j]
                        == goal[j] by {
                        if j < at {
                            assert(had[j].item.id != had[at].item.id);
                        } else if j > at {
                            assert(had[at].item.id != had[j].item.id);
                        }
                    }
                    assert(now =~= goal);
                    lemma_stored_ids(had, given);
                }
                return;
            }
            i += 1;
        }
        proof {
            assert(had =~= goal);
        }
    }

    /// Stores items in place of their rows.
    pub fn restructure(&mut self, items: Vec<QueueItem>)
        requires
            old(self).wf(),
            forall|i: int|
                0 <= i < items@.len() ==> (#[trigger] items@[i]).enqueue_sequence <= i64::MAX,
            keys_sound(keys_of(all_stored(old(self).rows@, items@, items@.len()))),
        ensures
            final(self).wf(),
            final(self).rows@ == all_stored(old(self).rows@, items@, items@.len()),
    {
        let ghost had = self.rows@;
        let ghost all = items@;
        proof {
            assert forall|i: int, j: int| 0 <= i < j < had.len() implies (
            #[trigger] had[i]).item.id != (#[trigger] had[j]).item.id by {
                assert(keys_of(had)[i].id != keys_of(had)[j].id);
            }
        }
        let mut left = items;
        let ghost mut n: nat = 0;
        while left.len() > 0
            invariant
                n <= all.len(),
                left@ == all.skip(n as int),
                ids_differ(self.rows@),
                self.rows@ == all_stored(had, all, n),
                forall|i: int|
                    0 <= i < all.len() ==> (#[trigger] all[i]).enqueue_sequence <= i64::MAX,
            decreases left@.len(),
        {
            assert(left@[0] == all[n as int]);
            let item = left.remove(0);
            assert(left@ =~= all.skip(n as int + 1));
            self.store(item);
            proof {
                n = n + 1;
            }
        }
        assert(n == all.len());
    }

    /// Stores an item whose time in the queue is over, if there is a row of it; it keeps its
    /// number.
    pub fn finish(&mut self, item: QueueItem)
        requires
            old(self).wf(),
        ensures
            final(self).wf(),
            final(self).rows@ == finished(old(self).rows@, item),
    {
        let ghost had = self.rows@;
        let ghost goal = finished(had, item);
        let keys = self.keys();
        let ghost before = keys_of(had);
        match find_key(&keys, item.id) {
            Some(i) => {
                let ghost given = item;
                self.rows[i].active = false;
                self.rows[i].item = item;
                proof {
                    assert forall|p: int| 0 <= p < had.len() implies #[trigger] self.rows@[p]
                        == goal[p] by {
                        if p != i {
                            if p < i {
                                assert(before[p].id != before[i as int].id);
                            } else {
                                assert(before[i as int].id != before[p].id);
                            }
                        } else {
                            assert(had[p].item.id == before[p].id);
                        }
                    }
                    assert(self.rows@ =~= goal);
                    let after = keys_of(self.rows@);
                    assert forall|a: int, b: int| 0 <= a < b < after.len() implies (
                    #[trigger] after[a]).id != (#[trigger] after[b]).id && !(
                    after[a].repository_id == after[b].repository_id && after[a].number
                        == after[b].number) by {
                        assert(before[a].id != before[b].id);
                        assert(after[a].id == before[a].id && after[b].id == before[b].id);
                    }
                }
            },
            None => {
                proof {
                    assert forall|p: int| 0 <= p < had.len() implies #[trigger] had[p]
                        == goal[p] by {
                        assert(!row_at(before, p, item.id));
                    }
                    assert(had =~= goal);
                }
            },
        }
    }

    /// Stores an item in place of its row, if there is one.
    pub fn update(&mut self, item: QueueItem) -> (r: Result<(), StoreError>)
        requires
            old(self).wf(),
            item.enqueue_sequence <= i64::MAX,
        ensures
            final(self).wf(),
            match overwritten(keys_of(old(self).rows@), item, false) {
                Ok(_) => r is Ok && final(self).rows@ == stored(old(self).rows@, item),
                Err(fault) => final(self).rows@ == old(self).rows@ && (r matches Err(error)
                    && reports(error, fault)),
            },
    {
        let ghost had = self.rows@;
        let mut keys = self.keys();
        match overwrite(&mut keys, &item, false) {
            Ok(()) => {},
            Err(error) => {
                return Err(error);
            },
        }
        proof {
            assert forall|i: int, j: int| 0 <= i < j < had.len() implies (
            #[trigger] had[i]).item.id != (#[trigger] had[j]).item.id by {
                assert(keys_of(had)[i].id != keys_of(had)[j].id);
            }
        }
        let ghost given = item;
        self.store(item);
        proof {
            let now = stored(had, given);
            let before = keys_of(had);
            assert(keys@ =~= keys_of(now)) by {
                assert forall|p: int| 0 <= p < now.len() implies #[trigger] keys@[p] == key_of(
                    now[p],
                ) by {
                    assert(before[p] == key_of(had[p]));
                    if had[p].item.id == given.id {
                        assert(row_at(before, p, given.id));
                        lemma_row_unique(before, given.id, p);
                    }
                }
            }
        }
        Ok(())
    }
}

/// No two rows are of the same item.
spec fn ids_differ(rows: Seq<ItemRow>) -> bool {
    forall|i: int, j: int|
        0 <= i < j < rows.len() ==> (#[trigger] rows[i]).item.id != (#[trigger] rows[j]).item.id
}

proof fn lemma_stored_ids(rows: Seq<ItemRow>, item: QueueItem)
    requires
        ids_differ(rows),
    ensures
        ids_differ(stored(rows, item)),
{
    let after = stored(rows, item);
    assert forall|i: int, j: int| 0 <= i < j < after.len() implies (#[trigger] after[i]).item.id
        != (#[trigger] after[j]).item.id by {
        assert(rows[i].item.id != rows[j].item.id);
    }
}

/// No item appears in or disappears from the table when items are stored in place of
/// their rows, and every row keeps its repository.
pub proof fn law_restructuring_keeps_the_items(rows: Seq<ItemRow>, items: Seq<QueueItem>, n: nat)
    requires
        n <= items.len(),
    ensures
        all_stored(rows, items, n).len() == rows.len(),
        forall|p: int|
            0 <= p < rows.len() ==> (#[trigger] all_stored(rows, items, n)[p]).item.id
                == rows[p].item.id && all_stored(rows, items, n)[p].repository_id
                == rows[p].repository_id,
    decreases n,
{
    if n > 0 {
        law_restructuring_keeps_the_items(rows, items, (n - 1) as nat);
        let before = all_stored(rows, items, (n - 1) as nat);
        let after = all_stored(rows, items, n);
        assert forall|p: int| 0 <= p < rows.len() implies (#[trigger] after[p]).item.id
            == rows[p].item.id && after[p].repository_id == rows[p].repository_id by {
            assert(before[p].item.id == rows[p].item.id);
        }
    }
}

} // verus!
