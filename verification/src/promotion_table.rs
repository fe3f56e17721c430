//! The table of promotions: which commit each source has become.

use crate::ids::{CertificateId, QueueItemId};
use crate::oid::GitOid;
#[allow(unused_imports)]
use crate::seqs::{in_order, is_listing};
use crate::seqs::order_numbers;
use crate::text::{bytes_equal, copy_range};
use vstd::prelude::*;

verus! {

/// A promotion. Commits are told by the bytes of their names.
#[derive(Clone, Debug, PartialEq, Eq)]
pub struct PromotionRow {
    pub item_id: QueueItemId,
    pub source: Vec<u8>,
    pub promoted: Vec<u8>,
    pub old_master: Vec<u8>,
    pub certificate_id: CertificateId,
    pub event_sequence: i64,
}

/// What is known of a promotion.
#[verifier::ext_equal]
pub struct PromotionInfo {
    pub item_id: QueueItemId,
    pub source: Seq<u8>,
    pub promoted: Seq<u8>,
    pub old_master: Seq<u8>,
    pub certificate_id: CertificateId,
    pub event_sequence: i64,
}

impl View for PromotionRow {
    type V = PromotionInfo;

    open spec fn view(&self) -> PromotionInfo {
        PromotionInfo {
            item_id: self.item_id,
            source: self.source@,
            promoted: self.promoted@,
            old_master: self.old_master@,
            certificate_id: self.certificate_id,
            event_sequence: self.event_sequence,
        }
    }
}

/// What is known of the promotions.
pub open spec fn promotion_infos(rows: Seq<PromotionRow>) -> Seq<PromotionInfo> {
    rows.map_values(|row: PromotionRow| row@)
}

/// The row is of the item.
pub open spec fn promotes(infos: Seq<PromotionInfo>, i: int, item: QueueItemId) -> bool {
    0 <= i < infos.len() && infos[i].item_id == item
}

/// No item is promoted twice.
pub open spec fn promotions_sound(infos: Seq<PromotionInfo>) -> bool {
    forall|i: int, j: int|
        0 <= i < j < infos.len() ==> (#[trigger] infos[i]).item_id != (#[trigger] infos[j]).item_id
}

/// The promotions without that of an item.
pub open spec fn without_item(infos: Seq<PromotionInfo>, item: QueueItemId) -> Seq<PromotionInfo> {
    if exists|i: int| promotes(infos, i, item) {
        infos.remove(choose|i: int| promotes(infos, i, item))
    } else {
        infos
    }
}

/// The promotions after one has been recorded: it takes the place of an earlier one of the
/// same item.
pub open spec fn promoted_too(infos: Seq<PromotionInfo>, info: PromotionInfo) -> Seq<
    PromotionInfo,
> {
    without_item(infos, info.item_id).push(info)
}

/// The last promotion of a source.
pub open spec fn is_last_promotion(infos: Seq<PromotionInfo>, source: Seq<u8>, i: int) -> bool {
    &&& 0 <= i < infos.len()
    &&& infos[i].source == source
    &&& forall|j: int|
        0 <= j < infos.len() && (#[trigger] infos[j]).source == source ==> infos[j].event_sequence
            <= infos[i].event_sequence
}

/// The list has all promotions, in the order of their events.
pub open spec fn lists_promotions(infos: Seq<PromotionInfo>, listed: Seq<usize>) -> bool {
    &&& is_listing(listed, infos.len(), |i: usize| true)
    &&& in_order(
        listed,
        |a: usize, b: usize| infos[a as int].event_sequence < infos[b as int].event_sequence,
    )
}

/// The table of promotions.
#[derive(Clone, Debug, PartialEq, Eq)]
pub struct PromotionTable {
    pub rows: Vec<PromotionRow>,
}

impl PromotionTable {
    /// The table holds together.
    pub open spec fn wf(self) -> bool {
        promotions_sound(promotion_infos(self.rows@))
    }

    /// An empty table.
    pub fn new() -> (r: PromotionTable)
        ensures
            r.wf(),
            r.rows@.len() == 0,
    {
        PromotionTable { rows: Vec::new() }
    }

    /// Records a promotion.
    pub fn record(&mut self, row: PromotionRow)
        requires
            old(self).wf(),
        ensures
            final(self).wf(),
            promotion_infos(final(self).rows@) == promoted_too(
                promotion_infos(old(self).rows@),
                row@,
            ),
    {
        let ghost had = promotion_infos(self.rows@);
        let ghost info = row@;
        let mut at: usize = 0;
        while at < self.rows.len() && self.rows[at].item_id.0 != row.item_id.0
            invariant
                at <= self.rows@.len(),
                had == promotion_infos(self.rows@),
                self.rows@ == old(self).rows@,
                forall|j: int| 0 <= j < at ==> (#[trigger] had[j]).item_id != row.item_id,
            decreases self.rows@.len() - at,
        {
            assert(had[at as int] == self.rows@[at as int]@);
            at += 1;
        }
        if at < self.rows.len() {
            assert(had[at as int] == self.rows@[at as int]@);
            assert(promotes(had, at as int, row.item_id));
            proof {
                let i = choose|i: int| promotes(had, i, row.item_id);
                if i < at {
                    assert(had[i].item_id != had[at as int].item_id);
                } else if i > at {
                    assert(had[at as int].item_id != had[i].item_id);
                }
            }
            self.rows.remove(at);
            assert(promotion_infos(self.rows@) =~= had.remove(at as int));
        }
        let ghost left = promotion_infos(self.rows@);
        assert(left == without_item(had, info.item_id));
        assert forall|k: int| 0 <= k < left.len() implies (#[trigger] left[k]).item_id
            != info.item_id by {
            if at < had.len() {
                let l = if k < at { k } else { k + 1 };
                assert(left[k] == had[l]);
                if l < at {
                    assert(had[l].item_id != had[at as int].item_id);
                } else {
                    assert(had[at as int].item_id != had[l].item_id);
                }
            }
        }
        assert forall|k: int, l: int| 0 <= k < l < left.len() implies (#[trigger] left[k]).item_id
            != (#[trigger] left[l]).item_id by {
            if at < had.len() {
                let a = if k < at { k } else { k + 1 };
                let b = if l < at { l } else { l + 1 };
                assert(left[k] == had[a] && left[l] == had[b]);
                assert(had[a].item_id != had[b].item_id);
            }
        }
        self.rows.push(row);
        assert(promotion_infos(self.rows@) =~= left.push(info));
    }

    /// The commit that a source has become at last.
    pub fn promoted_oid_bytes(&self, source: &GitOid) -> (r: Option<Vec<u8>>)
        ensures
            match r {
                Some(bytes) => exists|i: int| #[trigger]
                    is_last_promotion(promotion_infos(self.rows@), source@.bytes, i) && bytes@
                        == promotion_infos(self.rows@)[i].promoted,
                None => forall|i: int|
                    0 <= i < self.rows@.len() ==> (#[trigger] promotion_infos(
                        self.rows@,
                    )[i]).source != source@.bytes,
            },
    {
        let ghost infos = promotion_infos(self.rows@);
        let mut best: Option<usize> = None;
        let mut i: usize = 0;
        while i < self.rows.len()
            invariant
                i <= self.rows@.len(),
                infos == promotion_infos(self.rows@),
                match best {
                    Some(b) => b < i && infos[b as int].source == source@.bytes && forall|j: int|
                        0 <= j < i && (#[trigger] infos[j]).source == source@.bytes
                            ==> infos[j].event_sequence <= infos[b as int].event_sequence,
                    None => forall|j: int|
                        0 <= j < i ==> (#[trigger] infos[j]).source != source@.bytes,
                },
            decreases self.rows@.len() - i,
        {
            assert(infos[i as int] == self.rows@[i as int]@);
            if bytes_equal(self.rows[i].source.as_slice(), source.as_bytes()) {
                let better = match best {
                    Some(b) => {
                        assert(infos[b as int] == self.rows@[b as int]@);
                        self.rows[b].event_sequence < self.rows[i].event_sequence
                    },
                    None => true,
                };
                if better {
                    best = Some(i);
                }
            }
            i += 1;
        }
        match best {
            Some(b) => {
                assert(infos[b as int] == self.rows@[b as int]@);
                assert(is_last_promotion(infos, source@.bytes, b as int));
                let bytes = self.rows[b].promoted.as_slice();
                Some(copy_range(bytes, 0, bytes.len()))
            },
            None => None,
        }
    }

    /// The positions of the promotions, in the order of their events.
    pub fn promotion_edges(&self) -> (r: Vec<usize>)
        ensures
            lists_promotions(promotion_infos(self.rows@), r@),
    {
        let ghost infos = promotion_infos(self.rows@);
        let mut numbers: Vec<i64> = Vec::new();
        let mut i: usize = 0;
        while i < self.rows.len()
            invariant
                i <= self.rows@.len(),
                infos == promotion_infos(self.rows@),
                numbers@.len() == i,
                forall|j: int| 0 <= j < i ==> #[trigger] numbers@[j] == infos[j].event_sequence,
            decreases self.rows@.len() - i,
        {
            assert(infos[i as int] == self.rows@[i as int]@);
            numbers.push(self.rows[i].event_sequence);
            i += 1;
        }
        let listed = order_numbers(&numbers);
        proof {
            let by_number = |a: usize, b: usize| numbers@[a as int] < numbers@[b as int];
            let before = |a: usize, b: usize|
                infos[a as int].event_sequence < infos[b as int].event_sequence;
            assert forall|k: int, l: int| 0 <= k < l < listed@.len() implies !before(
                #[trigger] listed@[l],
                #[trigger] listed@[k],
            ) by {
                assert(!by_number(listed@[l], listed@[k]));
            }
        }
        listed
    }
}

/// The promotion that was recorded last answers for its source, unless the source has one
/// with a later event.
pub proof fn law_the_last_promotion_answers(infos: Seq<PromotionInfo>, info: PromotionInfo)
    requires
        promotions_sound(infos),
        forall|i: int|
            0 <= i < infos.len() && (#[trigger] infos[i]).source == info.source
                ==> infos[i].event_sequence < info.event_sequence,
    ensures
        forall|i: int|
            is_last_promotion(promoted_too(infos, info), info.source, i) ==> #[trigger] promoted_too(
                infos,
                info,
            )[i] == info,
{
    let left = without_item(infos, info.item_id);
    let all = promoted_too(infos, info);
    assert forall|i: int| is_last_promotion(all, info.source, i) implies #[trigger] all[i]
        == info by {
        assert(all[left.len() as int] == info);
        if i < left.len() {
            let at = choose|k: int| promotes(infos, k, info.item_id);
            let had = if exists|k: int| promotes(infos, k, info.item_id) {
                if i < at { i } else { i + 1 }
            } else {
                i
            };
            assert(left[i] == infos[had]);
        }
    }
}

} // verus!
