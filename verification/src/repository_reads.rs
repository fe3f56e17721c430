//! What can be read from the store of a repository.

use crate::document::Document;
#[allow(unused_imports)]
use crate::document::Tree;
use crate::ids::CommandId;
#[allow(unused_imports)]
use crate::ids::RepositoryId;
use crate::intent_table::FromStates;
#[allow(unused_imports)]
use crate::intent_table::{evidence_of, prepared_info, remote_seen, selected, IntentInfo};
use crate::intent_table::{merged_evidence, IntentRow};
#[allow(unused_imports)]
use crate::item_table::ItemRow;
use crate::model::{PassCertificate, ValidationGeneration};
use crate::repository_store::RepositoryStore;
use crate::seqs::order_numbers;
#[allow(unused_imports)]
use crate::seqs::{in_order, lemma_filter_ends, lemma_filter_grows, lemma_filter_step};
use crate::store::{IntentState, StoreError};
#[allow(unused_imports)]
use crate::stored_json::{approval_error, approval_kept, denoted, ApprovalFault};
use crate::stored_json::{read_approval, read_stored};
use crate::text::{contains_text, str_equal};
#[allow(unused_imports)]
use crate::text::texts;
use vstd::prelude::*;

verus! {

/// The list has all rows, in the order of their numbers.
pub open spec fn lists_by_number(rows: Seq<ItemRow>, listed: Seq<usize>) -> bool {
    &&& forall|k: int| 0 <= k < listed.len() ==> (#[trigger] listed[k]) < rows.len()
    &&& listed.no_duplicates()
    &&& in_order(listed, |a: usize, b: usize| rows[a as int].number < rows[b as int].number)
    &&& forall|i: int| 0 <= i < rows.len() ==> listed.contains(#[trigger] (i as usize))
}

/// Why the evidence of an operation cannot be given.
pub enum EvidenceFault {
    /// It is no JSON.
    Malformed,
    /// What was seen of the remote has no place in it: it is no record.
    NoRecord,
}

/// The evidence that is kept of an operation: what was expected, with the object that the
/// remote was seen to have.
pub open spec fn evidence_kept(info: IntentInfo) -> Result<Tree, EvidenceFault> {
    let seen = match info.observed {
        Some(observed) => denoted(observed),
        None => None,
    };
    match denoted(info.expected) {
        None => Err(EvidenceFault::Malformed),
        Some(expected) => if info.observed is Some && seen is None {
            Err(EvidenceFault::Malformed)
        } else if remote_seen(seen) is Some && !(expected is Table || expected is Null) {
            Err(EvidenceFault::NoRecord)
        } else {
            Ok(evidence_of(expected, seen))
        },
    }
}

/// The error says why the evidence cannot be given.
pub open spec fn evidence_error(error: StoreError, fault: EvidenceFault) -> bool {
    match fault {
        EvidenceFault::Malformed => error is Json,
        EvidenceFault::NoRecord => error.broken("operation evidence is not a record"@),
    }
}

/// The operations of some kinds that are in some states, the oldest first.
pub open spec fn operations(
    infos: Seq<IntentInfo>,
    kinds: Seq<Seq<char>>,
    from: FromStates,
) -> Seq<IntentInfo> {
    infos.filter(|info: IntentInfo| selected(info, kinds, from))
}

/// What is told of an operation: the command, the kind, the evidence and the state.
pub open spec fn tells(
    told: (CommandId, String, Document, IntentState),
    info: IntentInfo,
) -> bool {
    &&& told.0 == info.command_id
    &&& told.1@ == info.kind
    &&& evidence_kept(info) == Ok::<Tree, EvidenceFault>(told.2@)
    &&& told.3 == info.state
}

/// The first operation whose evidence cannot be given.
pub open spec fn first_unclear(chosen: Seq<IntentInfo>, k: int) -> bool {
    &&& 0 <= k < chosen.len()
    &&& evidence_kept(chosen[k]) is Err
    &&& forall|j: int| 0 <= j < k ==> evidence_kept(#[trigger] chosen[j]) is Ok
}

/// Either all of the operations are told of, or the error is that of the first one whose
/// evidence cannot be given.
pub open spec fn tells_all(
    r: Result<Vec<(CommandId, String, Document, IntentState)>, StoreError>,
    chosen: Seq<IntentInfo>,
) -> bool {
    match r {
        Ok(list) => list@.len() == chosen.len() && forall|k: int|
            0 <= k < chosen.len() ==> tells(#[trigger] list@[k], chosen[k]),
        Err(error) => exists|k: int| #[trigger]
            first_unclear(chosen, k) && evidence_error(error, evidence_kept(chosen[k])->Err_0),
    }
}

/// Whether the operation is a promotion that is under way.
pub open spec fn is_open_promotion(info: IntentInfo) -> bool {
    info.kind == "promotion"@ && info.state.open_state()
}

/// Gives the evidence of an operation.
pub fn read_evidence(row: &IntentRow) -> (r: Result<Document, StoreError>)
    ensures
        match evidence_kept(row@) {
            Ok(evidence) => r matches Ok(document) && document@ == evidence,
            Err(fault) => r matches Err(error) && evidence_error(error, fault),
        },
{
    let expected = match read_stored(row.expected.as_str()) {
        Ok(expected) => expected,
        Err(error) => {
            return Err(error);
        },
    };
    let observed = match &row.observed {
        Some(observed) => match read_stored(observed.as_str()) {
            Ok(observed) => observed,
            Err(error) => {
                return Err(error);
            },
        },
        None => {
            return Ok(merged_evidence(expected, None));
        },
    };
    let is_record = match &expected {
        Document::Table(_) => true,
        Document::Null => true,
        _ => false,
    };
    if observed.get("observed_remote_oid").is_some() && !is_record {
        return Err(StoreError::Integrity("operation evidence is not a record".to_owned()));
    }
    Ok(merged_evidence(expected, Some(&observed)))
}

/// The operation is an approval that has been prepared and not completed.
pub open spec fn is_waiting_approval(info: IntentInfo) -> bool {
    info.kind == "approval"@ && info.state == IntentState::Prepared
}

/// The approvals that have been prepared and not completed, the oldest first.
pub open spec fn waiting_approvals(infos: Seq<IntentInfo>) -> Seq<IntentInfo> {
    infos.filter(|info: IntentInfo| is_waiting_approval(info))
}

/// The first approval that cannot be read.
pub open spec fn first_unread(waiting: Seq<IntentInfo>, k: int) -> bool {
    &&& 0 <= k < waiting.len()
    &&& approval_kept(waiting[k].expected) is Err
    &&& forall|j: int|
        0 <= j < k ==> approval_kept((#[trigger] waiting[j]).expected) is Ok
}

impl RepositoryStore {
    /// The positions of the items, in the order of their numbers.
    pub fn queue_items(&self) -> (r: Vec<usize>)
        ensures
            lists_by_number(self@.items, r@),
    {
        let mut numbers: Vec<i64> = Vec::new();
        let mut i: usize = 0;
        while i < self.items.rows.len()
            invariant
                i <= self.items.rows@.len(),
                numbers@.len() == i,
                forall|j: int|
                    0 <= j < i ==> #[trigger] numbers@[j] == self.items.rows@[j].number,
            decreases self.items.rows@.len() - i,
        {
            numbers.push(self.items.rows[i].number);
            i += 1;
        }
        let listed = order_numbers(&numbers);
        proof {
            let rows = self.items.rows@;
            let pick = |i: usize| true;
            let by_number = |a: usize, b: usize| numbers@[a as int] < numbers@[b as int];
            let before = |a: usize, b: usize| rows[a as int].number < rows[b as int].number;
            assert forall|k: int, l: int| 0 <= k < l < listed@.len() implies !before(
                #[trigger] listed@[l],
                #[trigger] listed@[k],
            ) by {
                assert(!by_number(listed@[l], listed@[k]));
            }
            assert forall|i: int| 0 <= i < rows.len() implies listed@.contains(
                #[trigger] (i as usize),
            ) by {
                assert(pick(i as usize));
            }
        }
        listed
    }

    /// The generations, the oldest first.
    pub fn generations(&self) -> (r: Vec<&ValidationGeneration>)
        ensures
            r@.len() == self@.generations.len(),
            forall|k: int|
                0 <= k < r@.len() ==> *(#[trigger] r@[k]) == self@.generations[k].generation,
    {
        let mut list: Vec<&ValidationGeneration> = Vec::new();
        let mut i: usize = 0;
        while i < self.generations.rows.len()
            invariant
                i <= self.generations.rows@.len(),
                list@.len() == i,
                forall|k: int|
                    0 <= k < i ==> *(#[trigger] list@[k]) == self.generations.rows@[k].generation,
            decreases self.generations.rows@.len() - i,
        {
            list.push(&self.generations.rows[i].generation);
            i += 1;
        }
        list
    }

    /// The certificates, the oldest first.
    pub fn certificates(&self) -> (r: &Vec<PassCertificate>)
        ensures
            r@ == self@.certificates,
    {
        &self.certificates.rows
    }

    /// The approvals that have been prepared and not completed, the oldest first: the
    /// command, the item, and the digest of the request.
    pub fn unfinished_approvals(&self) -> (r: Result<
        Vec<(CommandId, Document, String)>,
        StoreError,
    >)
        ensures
            ({
                let waiting = waiting_approvals(self@.intents);
                match r {
                    Ok(list) => list@.len() == waiting.len() && forall|k: int|
                        0 <= k < waiting.len() ==> list@[k].0 == waiting[k].command_id
                            && approval_kept((#[trigger] waiting[k]).expected) == Ok::<
                            (Tree, Seq<char>),
                            ApprovalFault,
                        >((list@[k].1@, list@[k].2@)),
                    Err(error) => exists|k: int| #[trigger]
                        first_unread(waiting, k) && approval_error(
                            error,
                            approval_kept(waiting[k].expected)->Err_0,
                        ),
                }
            }),
    {
        let ghost infos = self@.intents;
        let ghost pick = |info: IntentInfo| is_waiting_approval(info);
        let mut list: Vec<(CommandId, Document, String)> = Vec::new();
        let mut i: usize = 0;
        proof {
            lemma_filter_ends(infos, pick);
        }
        while i < self.intents.rows.len()
            invariant
                i <= self.intents.rows@.len(),
                infos == self@.intents,
                infos.len() == self.intents.rows@.len(),
                pick == (|info: IntentInfo| is_waiting_approval(info)),
                list@.len() == infos.take(i as int).filter(pick).len(),
                forall|k: int|
                    0 <= k < list@.len() ==> list@[k].0 == infos.take(i as int).filter(
                        pick,
                    )[k].command_id && approval_kept(
                        (#[trigger] infos.take(i as int).filter(pick)[k]).expected,
                    ) == Ok::<(Tree, Seq<char>), ApprovalFault>((list@[k].1@, list@[k].2@)),
            decreases self.intents.rows@.len() - i,
        {
            let ghost had = infos.take(i as int).filter(pick);
            proof {
                lemma_filter_step(infos, pick, i as int);
                assert(infos[i as int] == self.intents.rows@[i as int]@);
            }
            let row = &self.intents.rows[i];
            if str_equal(row.kind.as_str(), "approval") && row.state == IntentState::Prepared {
                assert(pick(infos[i as int]));
                match read_approval(row.expected.as_str()) {
                    Ok((item, digest)) => {
                        list.push((row.command_id, item, digest));
                    },
                    Err(error) => {
                        proof {
                            lemma_filter_grows(infos, pick, i as int + 1, infos.len() as int);
                            lemma_filter_ends(infos, pick);
                            let waiting = infos.filter(pick);
                            let part = infos.take(i as int + 1).filter(pick);
                            let k = had.len() as int;
                            assert(part[k] == infos[i as int]);
                            assert(waiting[k] == infos[i as int]);
                            assert forall|j: int| 0 <= j < k implies approval_kept(
                                (#[trigger] waiting[j]).expected,
                            ) is Ok by {
                                assert(part[j] == had[j]);
                                assert(waiting[j] == had[j]);
                            }
                            assert(first_unread(waiting, k));
                        }
                        return Err(error);
                    },
                }
            }
            i += 1;
        }
        proof {
            lemma_filter_ends(infos, pick);
        }
        Ok(list)
    }

    /// The operations of some kinds that are in some states, the oldest first.
    fn operations_from(&self, kinds: &Vec<String>, from: FromStates) -> (r: Result<
        Vec<(CommandId, String, Document, IntentState)>,
        StoreError,
    >)
        ensures
            tells_all(r, operations(self@.intents, texts(kinds@), from)),
    {
        let ghost infos = self@.intents;
        let ghost pick = |info: IntentInfo| selected(info, texts(kinds@), from);
        let mut list: Vec<(CommandId, String, Document, IntentState)> = Vec::new();
        let mut i: usize = 0;
        proof {
            lemma_filter_ends(infos, pick);
        }
        while i < self.intents.rows.len()
            invariant
                i <= self.intents.rows@.len(),
                infos == self@.intents,
                infos.len() == self.intents.rows@.len(),
                pick == (|info: IntentInfo| selected(info, texts(kinds@), from)),
                list@.len() == infos.take(i as int).filter(pick).len(),
                forall|k: int|
                    0 <= k < list@.len() ==> tells(
                        #[trigger] list@[k],
                        infos.take(i as int).filter(pick)[k],
                    ),
            decreases self.intents.rows@.len() - i,
        {
            let ghost had = infos.take(i as int).filter(pick);
            proof {
                lemma_filter_step(infos, pick, i as int);
                assert(infos[i as int] == self.intents.rows@[i as int]@);
            }
            let row = &self.intents.rows[i];
            if from.contains(row.state) && contains_text(kinds, row.kind.as_str()) {
                assert(pick(infos[i as int]));
                match read_evidence(row) {
                    Ok(evidence) => {
                        list.push((row.command_id, row.kind.clone(), evidence, row.state));
                    },
                    Err(error) => {
                        proof {
                            lemma_filter_grows(infos, pick, i as int + 1, infos.len() as int);
                            lemma_filter_ends(infos, pick);
                            let chosen = infos.filter(pick);
                            let part = infos.take(i as int + 1).filter(pick);
                            let k = had.len() as int;
                            assert(part[k] == infos[i as int]);
                            assert(chosen[k] == infos[i as int]);
                            assert forall|j: int| 0 <= j < k implies evidence_kept(
                                #[trigger] chosen[j],
                            ) is Ok by {
                                assert(part[j] == had[j]);
                                assert(tells(list@[j], had[j]));
                            }
                            assert(first_unclear(chosen, k));
                        }
                        return Err(error);
                    },
                }
            }
            i += 1;
        }
        proof {
            lemma_filter_ends(infos, pick);
        }
        Ok(list)
    }

    /// The operations of some kinds that are under way, the oldest first: the command, the
    /// kind, the evidence and the state.
    pub fn unfinished_operations(&self, kinds: &Vec<String>) -> (r: Result<
        Vec<(CommandId, String, Document, IntentState)>,
        StoreError,
    >)
        ensures
            tells_all(r, operations(self@.intents, texts(kinds@), FromStates::Open)),
    {
        self.operations_from(kinds, FromStates::Open)
    }

    /// The operations of some kinds that are under way or need attention, the oldest first:
    /// the command, the kind, the evidence and the state.
    pub fn recoverable_operations(&self, kinds: &Vec<String>) -> (r: Result<
        Vec<(CommandId, String, Document, IntentState)>,
        StoreError,
    >)
        ensures
            tells_all(r, operations(self@.intents, texts(kinds@), FromStates::Recoverable)),
    {
        self.operations_from(kinds, FromStates::Recoverable)
    }

    /// The promotion that is under way, if one is: the command, the notation of the
    /// certificate that it follows, and the state.
    pub fn unfinished_promotion(&self) -> (r: Option<(CommandId, String, IntentState)>)
        ensures
            match r {
                Some(told) => exists|i: int|
                    0 <= i < self@.intents.len() && is_open_promotion(
                        #[trigger] self@.intents[i],
                    ) && told.0 == self@.intents[i].command_id && told.1@
                        == self@.intents[i].expected && told.2 == self@.intents[i].state
                        && forall|j: int|
                        0 <= j < i ==> !is_open_promotion(#[trigger] self@.intents[j]),
                None => forall|i: int|
                    0 <= i < self@.intents.len() ==> !is_open_promotion(
                        #[trigger] self@.intents[i],
                    ),
            },
    {
        let mut i: usize = 0;
        while i < self.intents.rows.len()
            invariant
                i <= self.intents.rows@.len(),
                forall|j: int| 0 <= j < i ==> !is_open_promotion(#[trigger] self@.intents[j]),
            decreases self.intents.rows@.len() - i,
        {
            let row = &self.intents.rows[i];
            assert(self@.intents[i as int] == row@);
            if str_equal(row.kind.as_str(), "promotion") && row.state.is_open() {
                return Some((row.command_id, row.expected.clone(), row.state));
            }
            i += 1;
        }
        None
    }
}

/// An approval that has been prepared waits behind those that waited before; no other
/// operation waits among them.
pub proof fn law_a_prepared_approval_waits(
    infos: Seq<IntentInfo>,
    repository: RepositoryId,
    command: CommandId,
    expected: Seq<char>,
    kind: Seq<char>,
)
    ensures
        waiting_approvals(
            infos.push(prepared_info(repository, "approval"@, command, expected)),
        ) == waiting_approvals(infos).push(
            prepared_info(repository, "approval"@, command, expected),
        ),
        kind != "approval"@ ==> waiting_approvals(
            infos.push(prepared_info(repository, kind, command, expected)),
        ) == waiting_approvals(infos),
{
    reveal(Seq::filter);
    let approval = prepared_info(repository, "approval"@, command, expected);
    let other = prepared_info(repository, kind, command, expected);
    assert(infos.push(approval).drop_last() =~= infos);
    assert(infos.push(other).drop_last() =~= infos);
}

} // verus!
