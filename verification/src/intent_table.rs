//! The table of operations: what was meant to be done, and how far it has come.

use crate::document::Document;
#[allow(unused_imports)]
use crate::document::{entry_trees, lookup, Tree};
use crate::ids::{CommandId, RepositoryId};
use crate::store::{refused, IntentState, StoreError};
use crate::stored_json::{note_approval, read_request_digest};
#[allow(unused_imports)]
use crate::noted_item::item_form;
#[allow(unused_imports)]
use crate::stored_json::{
    approval_kept, approval_tree, denoted, notation, request_digest_of, ApprovalFault,
};
use crate::text::str_equal;
#[allow(unused_imports)]
use crate::text::texts;
use vstd::prelude::*;

verus! {

/// An operation. What it expects and what has been observed is JSON.
#[derive(Clone, Debug, PartialEq, Eq)]
pub struct IntentRow {
    pub repository_id: RepositoryId,
    pub kind: String,
    pub state: IntentState,
    pub command_id: CommandId,
    pub expected: String,
    pub observed: Option<String>,
}

/// What is known of an operation.
#[verifier::ext_equal]
pub struct IntentInfo {
    pub repository_id: RepositoryId,
    pub kind: Seq<char>,
    pub state: IntentState,
    pub command_id: CommandId,
    pub expected: Seq<char>,
    pub observed: Option<Seq<char>>,
}

impl View for IntentRow {
    type V = IntentInfo;

    open spec fn view(&self) -> IntentInfo {
        IntentInfo {
            repository_id: self.repository_id,
            kind: self.kind@,
            state: self.state,
            command_id: self.command_id,
            expected: self.expected@,
            observed: match self.observed {
                Some(observed) => Some(observed@),
                None => None,
            },
        }
    }
}

/// What is known of the operations.
pub open spec fn intent_infos(rows: Seq<IntentRow>) -> Seq<IntentInfo> {
    rows.map_values(|row: IntentRow| row@)
}

/// The last operation of a command.
pub open spec fn is_latest(infos: Seq<IntentInfo>, command: CommandId, i: int) -> bool {
    &&& 0 <= i < infos.len()
    &&& infos[i].command_id == command
    &&& forall|j: int| i < j < infos.len() ==> (#[trigger] infos[j]).command_id != command
}

/// The command has no operation.
pub open spec fn is_new(infos: Seq<IntentInfo>, command: CommandId) -> bool {
    forall|j: int| 0 <= j < infos.len() ==> (#[trigger] infos[j]).command_id != command
}

/// The command has an operation under way.
pub open spec fn has_open(infos: Seq<IntentInfo>, command: CommandId) -> bool {
    exists|i: int|
        0 <= i < infos.len() && (#[trigger] infos[i]).command_id == command
            && infos[i].state.open_state()
}

/// Of this kind a repository has one operation under way at most.
pub open spec fn is_exclusive(kind: Seq<char>) -> bool {
    kind == "promotion"@ || kind == "push"@
}

/// Another operation of the kind is under way.
pub open spec fn is_occupied(
    infos: Seq<IntentInfo>,
    repository: RepositoryId,
    kind: Seq<char>,
) -> bool {
    is_exclusive(kind) && exists|i: int|
        0 <= i < infos.len() && (#[trigger] infos[i]).repository_id == repository && infos[i].kind
            == kind && infos[i].state.open_state()
}

/// An operation that has been prepared.
pub open spec fn prepared_info(
    repository: RepositoryId,
    kind: Seq<char>,
    command: CommandId,
    expected: Seq<char>,
) -> IntentInfo {
    IntentInfo {
        repository_id: repository,
        kind,
        state: IntentState::Prepared,
        command_id: command,
        expected,
        observed: None,
    }
}

/// States from which an operation can be moved on.
#[derive(Clone, Copy, Debug, PartialEq, Eq, Structural)]
pub enum FromStates {
    Prepared,
    Open,
    Recoverable,
    NeedsAttention,
}

impl FromStates {
    /// The state is among them.
    pub open spec fn has(self, state: IntentState) -> bool {
        match self {
            FromStates::Prepared => state == IntentState::Prepared,
            FromStates::Open => state.open_state(),
            FromStates::Recoverable => state.recoverable_state(),
            FromStates::NeedsAttention => state == IntentState::NeedsAttention,
        }
    }

    /// Whether the state is among them.
    pub fn contains(self, state: IntentState) -> (r: bool)
        ensures
            r == self.has(state),
    {
        match self {
            FromStates::Prepared => state == IntentState::Prepared,
            FromStates::Open => state.is_open(),
            FromStates::Recoverable => state.is_recoverable(),
            FromStates::NeedsAttention => state == IntentState::NeedsAttention,
        }
    }
}

/// Which operations are moved on.
pub struct IntentFilter {
    pub command: CommandId,
    pub repository: Option<RepositoryId>,
    pub kind: Option<Seq<char>>,
    pub from: FromStates,
}

impl IntentFilter {
    /// The operation is moved on.
    pub open spec fn picks(self, info: IntentInfo) -> bool {
        &&& info.command_id == self.command
        &&& self.repository is Some ==> Some(info.repository_id) == self.repository
        &&& self.kind is Some ==> Some(info.kind) == self.kind
        &&& self.from.has(info.state)
    }
}

/// The operations after some have been moved on.
pub open spec fn moved_on(
    infos: Seq<IntentInfo>,
    filter: IntentFilter,
    to: IntentState,
    observed: Seq<char>,
) -> Seq<IntentInfo> {
    infos.map_values(
        |info: IntentInfo|
            if filter.picks(info) {
                IntentInfo { state: to, observed: Some(observed), ..info }
            } else {
                info
            },
    )
}

/// The operations after the promotions of a repository have been completed.
pub open spec fn promotions_completed(
    infos: Seq<IntentInfo>,
    repository: RepositoryId,
    observed: Seq<char>,
) -> Seq<IntentInfo> {
    infos.map_values(
        |info: IntentInfo|
            if info.repository_id == repository && info.kind == "promotion"@
                && info.state.open_state() {
                IntentInfo { state: IntentState::Completed, observed: Some(observed), ..info }
            } else {
                info
            },
    )
}

/// The operation is a promotion of the repository that has been completed.
pub open spec fn completed_promotion(info: IntentInfo, repository: RepositoryId) -> bool {
    info.repository_id == repository && info.kind == "promotion"@ && info.state
        == IntentState::Completed
}

/// The last operation of a command that is of a kind.
pub open spec fn last_of_kind(
    infos: Seq<IntentInfo>,
    command: CommandId,
    kind: Seq<char>,
    i: int,
) -> bool {
    &&& 0 <= i < infos.len()
    &&& infos[i].command_id == command && infos[i].kind == kind
    &&& forall|j: int|
        i < j < infos.len() ==> !((#[trigger] infos[j]).command_id == command && infos[j].kind
            == kind)
}

/// The last operation of the repository and the command that is under way.
pub open spec fn last_open(
    infos: Seq<IntentInfo>,
    repository: RepositoryId,
    command: CommandId,
    i: int,
) -> bool {
    &&& 0 <= i < infos.len()
    &&& infos[i].repository_id == repository && infos[i].command_id == command
    &&& infos[i].state.open_state()
    &&& forall|j: int|
        i < j < infos.len() ==> !((#[trigger] infos[j]).repository_id == repository
            && infos[j].command_id == command && infos[j].state.open_state())
}

/// The table of operations, the oldest first.
#[derive(Clone, Debug, PartialEq, Eq)]
pub struct IntentTable {
    pub rows: Vec<IntentRow>,
}

/// An approval can be prepared: its command is new, or the same request was canceled
/// before.
pub open spec fn can_prepare_approval(
    infos: Seq<IntentInfo>,
    command: CommandId,
    digest: Seq<char>,
) -> bool {
    is_new(infos, command) || exists|i: int| #[trigger]
        is_latest(infos, command, i) && prepared_for(infos[i], digest) && infos[i].state
            == IntentState::Canceled
}

/// The operation was prepared for the request with the digest.
pub open spec fn prepared_for(info: IntentInfo, digest: Seq<char>) -> bool {
    denoted(info.expected) is Some && request_digest_of(denoted(info.expected)->Some_0) == Some(
        digest,
    )
}

/// What the last operation of a command expects cannot be read.
pub open spec fn latest_unreadable(infos: Seq<IntentInfo>, command: CommandId) -> bool {
    exists|i: int| #[trigger]
        is_latest(infos, command, i) && denoted(infos[i].expected) is None
}

/// The same operation has been prepared before.
pub open spec fn is_replay(
    infos: Seq<IntentInfo>,
    command: CommandId,
    kind: Seq<char>,
    expected: Seq<char>,
) -> bool {
    exists|i: int| #[trigger]
        is_latest(infos, command, i) && infos[i].kind == kind && infos[i].expected == expected
}

proof fn lemma_latest_unique(infos: Seq<IntentInfo>, command: CommandId, i: int, j: int)
    requires
        is_latest(infos, command, i),
        is_latest(infos, command, j),
    ensures
        i == j,
{
    if i < j {
        assert(infos[j].command_id != command);
    } else if j < i {
        assert(infos[i].command_id != command);
    }
}

impl IntentTable {
    /// An empty table.
    pub fn new() -> (r: IntentTable)
        ensures
            r.rows@.len() == 0,
    {
        IntentTable { rows: Vec::new() }
    }

    fn latest(&self, command: CommandId) -> (r: Option<usize>)
        ensures
            match r {
                Some(i) => is_latest(intent_infos(self.rows@), command, i as int),
                None => is_new(intent_infos(self.rows@), command),
            },
    {
        let ghost infos = intent_infos(self.rows@);
        let mut i: usize = self.rows.len();
        while i > 0
            invariant
                i <= self.rows@.len(),
                infos == intent_infos(self.rows@),
                forall|j: int|
                    i <= j < infos.len() ==> (#[trigger] infos[j]).command_id != command,
            decreases i,
        {
            assert(infos[i - 1] == self.rows@[i - 1]@);
            if self.rows[i - 1].command_id.0 == command.0 {
                return Some(i - 1);
            }
            i -= 1;
        }
        None
    }

    /// Whether a command has no operation yet.
    pub fn is_new_command(&self, command: CommandId) -> (r: bool)
        ensures
            r == is_new(intent_infos(self.rows@), command),
    {
        match self.latest(command) {
            Some(i) => {
                assert(intent_infos(self.rows@)[i as int].command_id == command);
                false
            },
            None => true,
        }
    }

    /// Whether a command has an operation under way.
    pub fn has_open_intent(&self, command: CommandId) -> (r: bool)
        ensures
            r == has_open(intent_infos(self.rows@), command),
    {
        let ghost infos = intent_infos(self.rows@);
        let mut i: usize = 0;
        while i < self.rows.len()
            invariant
                i <= self.rows@.len(),
                infos == intent_infos(self.rows@),
                forall|j: int|
                    0 <= j < i ==> !((#[trigger] infos[j]).command_id == command
                        && infos[j].state.open_state()),
            decreases self.rows@.len() - i,
        {
            assert(infos[i as int] == self.rows@[i as int]@);
            if self.rows[i].command_id.0 == command.0 && self.rows[i].state.is_open() {
                return true;
            }
            i += 1;
        }
        false
    }

    fn occupied(&self, repository: RepositoryId, kind: &str) -> (r: bool)
        ensures
            r == is_occupied(intent_infos(self.rows@), repository, kind@),
    {
        if !str_equal(kind, "promotion") && !str_equal(kind, "push") {
            return false;
        }
        let ghost infos = intent_infos(self.rows@);
        let mut i: usize = 0;
        while i < self.rows.len()
            invariant
                i <= self.rows@.len(),
                is_exclusive(kind@),
                infos == intent_infos(self.rows@),
                forall|j: int|
                    0 <= j < i ==> !((#[trigger] infos[j]).repository_id == repository
                        && infos[j].kind == kind@ && infos[j].state.open_state()),
            decreases self.rows@.len() - i,
        {
            assert(infos[i as int] == self.rows@[i as int]@);
            if self.rows[i].repository_id.0 == repository.0 && self.rows[i].state.is_open()
                && str_equal(self.rows[i].kind.as_str(), kind) {
                return true;
            }
            i += 1;
        }
        false
    }

    fn add_row(
        &mut self,
        repository: RepositoryId,
        kind: &str,
        command: CommandId,
        expected: &str,
    )
        ensures
            intent_infos(final(self).rows@) == intent_infos(old(self).rows@).push(
                prepared_info(repository, kind@, command, expected@),
            ),
    {
        let ghost had = self.rows@;
        let row = IntentRow {
            repository_id: repository,
            kind: kind.to_owned(),
            state: IntentState::Prepared,
            command_id: command,
            expected: expected.to_owned(),
            observed: None,
        };
        let ghost added = row@;
        self.rows.push(row);
        assert(intent_infos(self.rows@) =~= intent_infos(had).push(added));
    }

    /// Checks that an approval can be prepared.
    pub fn check_approval(&self, command_id: CommandId, request_digest: &str) -> (r: Result<
        (),
        StoreError,
    >)
        ensures
            r is Ok <==> can_prepare_approval(
                intent_infos(self.rows@),
                command_id,
                request_digest@,
            ),
            r matches Err(error) ==> if latest_unreadable(intent_infos(self.rows@), command_id) {
                error is Json
            } else {
                error == StoreError::CommandReplayMismatch
            },
    {
        let ghost infos = intent_infos(self.rows@);
        if let Some(i) = self.latest(command_id) {
            assert(infos[i as int] == self.rows@[i as int]@);
            proof {
                assert(infos[i as int].command_id == command_id);
                assert forall|k: int| #[trigger] is_latest(infos, command_id, k) implies k
                    == i as int by {
                    lemma_latest_unique(infos, command_id, i as int, k);
                }
            }
            let same = match read_request_digest(self.rows[i].expected.as_str()) {
                Ok(Some(digest)) => str_equal(digest.as_str(), request_digest),
                Ok(None) => false,
                Err(error) => {
                    return Err(error);
                },
            };
            if !same || self.rows[i].state != IntentState::Canceled {
                return Err(StoreError::CommandReplayMismatch);
            }
        }
        Ok(())
    }

    /// Prepares an approval. The same command may not be used for anything else.
    pub fn prepare_approval(
        &mut self,
        repository_id: RepositoryId,
        item: Document,
        command_id: CommandId,
        request_digest: &str,
    ) -> (r: Result<(), StoreError>)
        requires
            item@.has_notation(),
        ensures
            r is Ok <==> can_prepare_approval(
                intent_infos(old(self).rows@),
                command_id,
                request_digest@,
            ),
            r is Ok ==> intent_infos(final(self).rows@) == intent_infos(old(self).rows@).push(
                prepared_info(
                    repository_id,
                    "approval"@,
                    command_id,
                    notation(approval_tree(item@, request_digest@)),
                ),
            ),
            r is Ok && item@.writable(126) ==> (item_form(item@) matches Some(form) ==> approval_kept(
                notation(approval_tree(item@, request_digest@)),
            ) == Ok::<(Tree, Seq<char>), ApprovalFault>((form, request_digest@))),
            r is Err ==> final(self).rows@ == old(self).rows@,
            r matches Err(error) ==> if latest_unreadable(
                intent_infos(old(self).rows@),
                command_id,
            ) {
                error is Json
            } else {
                error == StoreError::CommandReplayMismatch
            },
    {
        match self.check_approval(command_id, request_digest) {
            Ok(()) => {},
            Err(error) => {
                return Err(error);
            },
        }
        let expected = note_approval(item, request_digest);
        self.add_row(repository_id, "approval", command_id, expected.as_str());
        Ok(())
    }

    /// Prepares a promotion; a repository has one under way at most.
    pub fn prepare_promotion(
        &mut self,
        repository_id: RepositoryId,
        command_id: CommandId,
        evidence: &str,
    ) -> (r: Result<(), StoreError>)
        ensures
            r is Ok <==> !is_occupied(
                intent_infos(old(self).rows@),
                repository_id,
                "promotion"@,
            ),
            r is Ok ==> intent_infos(final(self).rows@) == intent_infos(old(self).rows@).push(
                prepared_info(repository_id, "promotion"@, command_id, evidence@),
            ),
            r is Err ==> final(self).rows@ == old(self).rows@,
            r matches Err(error) ==> error is Sql,
    {
        if self.occupied(repository_id, "promotion") {
            return Err(refused("UNIQUE constraint failed: operation_intents.repository_id"));
        }
        self.add_row(repository_id, "promotion", command_id, evidence);
        Ok(())
    }

    /// Prepares an operation. The same command prepares the same operation once.
    pub fn prepare_operation(
        &mut self,
        repository_id: RepositoryId,
        kind: &str,
        command_id: CommandId,
        evidence: &str,
    ) -> (r: Result<(), StoreError>)
        ensures
            ({
                let infos = intent_infos(old(self).rows@);
                let fresh = is_new(infos, command_id);
                let replay = is_replay(infos, command_id, kind@, evidence@);
                let occupied = is_occupied(infos, repository_id, kind@);
                &&& r is Ok <==> replay || (fresh && !occupied)
                &&& replay || r is Err ==> final(self).rows@ == old(self).rows@
                &&& fresh && !occupied ==> intent_infos(final(self).rows@) == infos.push(
                    prepared_info(repository_id, kind@, command_id, evidence@),
                )
                &&& r matches Err(error) ==> if fresh {
                    error is Sql
                } else {
                    error == StoreError::CommandReplayMismatch
                }
            }),
    {
        let ghost infos = intent_infos(self.rows@);
        if let Some(i) = self.latest(command_id) {
            assert(infos[i as int] == self.rows@[i as int]@);
            assert(infos[i as int].command_id == command_id);
            proof {
                assert forall|k: int| #[trigger] is_latest(infos, command_id, k) implies k == i by {
                    lemma_latest_unique(infos, command_id, i as int, k);
                }
            }
            if str_equal(self.rows[i].kind.as_str(), kind) && str_equal(
                self.rows[i].expected.as_str(),
                evidence,
            ) {
                return Ok(());
            }
            return Err(StoreError::CommandReplayMismatch);
        }
        proof {
            assert forall|k: int| !(#[trigger] is_latest(infos, command_id, k)) by {
                if is_latest(infos, command_id, k) {
                    assert(infos[k].command_id != command_id);
                }
            }
        }
        if self.occupied(repository_id, kind) {
            return Err(refused("UNIQUE constraint failed: operation_intents.repository_id"));
        }
        self.add_row(repository_id, kind, command_id, evidence);
        Ok(())
    }

    /// Moves operations of a command on.
    pub fn move_on(
        &mut self,
        command: CommandId,
        repository: Option<RepositoryId>,
        kind: Option<&str>,
        from: FromStates,
        to: IntentState,
        observed: &str,
    )
        ensures
            intent_infos(final(self).rows@) == moved_on(
                intent_infos(old(self).rows@),
                (IntentFilter {
                    command,
                    repository,
                    kind: match kind {
                        Some(kind) => Some(kind@),
                        None => None,
                    },
                    from,
                }),
                to,
                observed@,
            ),
    {
        let ghost filter = IntentFilter {
            command,
            repository,
            kind: match kind {
                Some(kind) => Some(kind@),
                None => None,
            },
            from,
        };
        let ghost had = intent_infos(self.rows@);
        let ghost goal = moved_on(had, filter, to, observed@);
        let mut i: usize = 0;
        while i < self.rows.len()
            invariant
                i <= self.rows@.len(),
                self.rows@.len() == had.len(),
                had == intent_infos(old(self).rows@),
                filter == (IntentFilter {
                    command,
                    repository,
                    kind: match kind {
                        Some(kind) => Some(kind@),
                        None => None,
                    },
                    from,
                }),
                goal == moved_on(had, filter, to, observed@),
                forall|j: int| 0 <= j < i ==> (#[trigger] self.rows@[j])@ == goal[j],
                forall|j: int| i <= j < had.len() ==> (#[trigger] self.rows@[j])@ == had[j],
            decreases self.rows@.len() - i,
        {
            assert(self.rows@[i as int]@ == had[i as int]);
            let of_repository = match repository {
                Some(repository) => self.rows[i].repository_id.0 == repository.0,
                None => true,
            };
            let of_kind = match kind {
                Some(kind) => str_equal(self.rows[i].kind.as_str(), kind),
                None => true,
            };
            let picked = self.rows[i].command_id.0 == command.0 && of_repository && of_kind
                && from.contains(self.rows[i].state);
            proof {
                if repository is Some && of_repository {
                    assert(Some(had[i as int].repository_id) == repository);
                }
                assert(picked == filter.picks(had[i as int]));
            }
            if picked {
                self.rows[i].state = to;
                self.rows[i].observed = Some(observed.to_owned());
                assert(self.rows@[i as int]@ =~= IntentInfo {
                    state: to,
                    observed: Some(observed@),
                    ..had[i as int]
                });
            }
            assert(self.rows@[i as int]@ == goal[i as int]);
            i += 1;
        }
        assert(intent_infos(self.rows@) =~= goal);
    }

    /// Completes the promotions of a repository.
    pub fn complete_promotions(&mut self, repository: RepositoryId, observed: &str)
        ensures
            intent_infos(final(self).rows@) == promotions_completed(
                intent_infos(old(self).rows@),
                repository,
                observed@,
            ),
    {
        let ghost had = intent_infos(self.rows@);
        let ghost goal = promotions_completed(had, repository, observed@);
        let mut i: usize = 0;
        while i < self.rows.len()
            invariant
                i <= self.rows@.len(),
                self.rows@.len() == had.len(),
                had == intent_infos(old(self).rows@),
                goal == promotions_completed(had, repository, observed@),
                forall|j: int| 0 <= j < i ==> (#[trigger] self.rows@[j])@ == goal[j],
                forall|j: int| i <= j < had.len() ==> (#[trigger] self.rows@[j])@ == had[j],
            decreases self.rows@.len() - i,
        {
            assert(self.rows@[i as int]@ == had[i as int]);
            if self.rows[i].repository_id.0 == repository.0 && self.rows[i].state.is_open()
                && str_equal(self.rows[i].kind.as_str(), "promotion") {
                self.rows[i].state = IntentState::Completed;
                self.rows[i].observed = Some(observed.to_owned());
                assert(self.rows@[i as int]@ =~= IntentInfo {
                    state: IntentState::Completed,
                    observed: Some(observed@),
                    ..had[i as int]
                });
            }
            assert(self.rows@[i as int]@ == goal[i as int]);
            i += 1;
        }
        assert(intent_infos(self.rows@) =~= goal);
    }

    /// Whether the operation is a promotion of the repository that has been completed.
    pub fn is_completed_promotion(&self, i: usize, repository: RepositoryId) -> (r: bool)
        requires
            i < self.rows@.len(),
        ensures
            r == completed_promotion(intent_infos(self.rows@)[i as int], repository),
    {
        assert(intent_infos(self.rows@)[i as int] == self.rows@[i as int]@);
        self.rows[i].repository_id.0 == repository.0 && self.rows[i].state
            == IntentState::Completed && str_equal(self.rows[i].kind.as_str(), "promotion")
    }

    /// Records what was observed for the last operation of a command that is under way.
    pub fn observe(
        &mut self,
        repository: RepositoryId,
        command: CommandId,
        observed: &str,
    ) -> (r: Result<(), StoreError>)
        ensures
            r is Ok <==> exists|i: int| #[trigger]
                last_open(intent_infos(old(self).rows@), repository, command, i),
            r is Ok ==> exists|i: int| #[trigger]
                last_open(intent_infos(old(self).rows@), repository, command, i) && intent_infos(
                    final(self).rows@,
                ) == intent_infos(old(self).rows@).update(
                    i,
                    (IntentInfo {
                        observed: Some(observed@),
                        ..intent_infos(old(self).rows@)[i]
                    }),
                ),
            r is Err ==> final(self).rows@ == old(self).rows@,
            r matches Err(error) ==> error is Sql,
    {
        let ghost infos = intent_infos(self.rows@);
        let mut i: usize = self.rows.len();
        while i > 0
            invariant
                i <= self.rows@.len(),
                self.rows@ == old(self).rows@,
                infos == intent_infos(self.rows@),
                forall|j: int|
                    i <= j < infos.len() ==> !((#[trigger] infos[j]).repository_id == repository
                        && infos[j].command_id == command && infos[j].state.open_state()),
            decreases i,
        {
            i -= 1;
            assert(infos[i as int] == self.rows@[i as int]@);
            if self.rows[i].repository_id.0 == repository.0 && self.rows[i].command_id.0
                == command.0 && self.rows[i].state.is_open() {
                self.rows[i].observed = Some(observed.to_owned());
                proof {
                    assert(last_open(infos, repository, command, i as int));
                    assert(intent_infos(self.rows@) =~= infos.update(
                        i as int,
                        IntentInfo { observed: Some(observed@), ..infos[i as int] },
                    ));
                }
                return Ok(());
            }
        }
        Err(refused("Query returned no rows"))
    }

    /// What the last operation of a command expects that is of a kind.
    pub fn expected_by(&self, command: CommandId, kind: &str) -> (r: Option<&str>)
        ensures
            match r {
                Some(expected) => exists|i: int| #[trigger]
                    last_of_kind(intent_infos(self.rows@), command, kind@, i) && expected@
                        == intent_infos(self.rows@)[i].expected,
                None => forall|i: int|
                    0 <= i < self.rows@.len() ==> !((#[trigger] intent_infos(
                        self.rows@,
                    )[i]).command_id == command && intent_infos(self.rows@)[i].kind == kind@),
            },
    {
        let ghost infos = intent_infos(self.rows@);
        let mut i: usize = self.rows.len();
        while i > 0
            invariant
                i <= self.rows@.len(),
                infos == intent_infos(self.rows@),
                forall|j: int|
                    i <= j < infos.len() ==> !((#[trigger] infos[j]).command_id == command
                        && infos[j].kind == kind@),
            decreases i,
        {
            i -= 1;
            assert(infos[i as int] == self.rows@[i as int]@);
            if self.rows[i].command_id.0 == command.0 && str_equal(
                self.rows[i].kind.as_str(),
                kind,
            ) {
                assert(last_of_kind(infos, command, kind@, i as int));
                return Some(self.rows[i].expected.as_str());
            }
        }
        None
    }
}

/// The operation is of one of the kinds, and in one of the states.
pub open spec fn selected(info: IntentInfo, kinds: Seq<Seq<char>>, from: FromStates) -> bool {
    from.has(info.state) && kinds.contains(info.kind)
}

/// An operation that has come to an end is never moved on from there, but for one that
/// needs attention.
pub proof fn law_finished_operations_stay(
    infos: Seq<IntentInfo>,
    filter: IntentFilter,
    to: IntentState,
    observed: Seq<char>,
    i: int,
)
    requires
        0 <= i < infos.len(),
        infos[i].state == IntentState::Completed || infos[i].state == IntentState::Canceled,
    ensures
        moved_on(infos, filter, to, observed)[i] == infos[i],
{
}

/// Of promotions and pushes a repository has one under way at most.
pub open spec fn one_under_way(infos: Seq<IntentInfo>) -> bool {
    forall|i: int, j: int|
        0 <= i < j < infos.len() ==> !(is_exclusive((#[trigger] infos[i]).kind) && infos[i].kind
            == (#[trigger] infos[j]).kind && infos[i].repository_id == infos[j].repository_id
            && infos[i].state.open_state() && infos[j].state.open_state())
}

/// However operations are prepared and moved on, a repository has one promotion and one push
/// under way at most.
pub proof fn law_one_promotion_is_under_way(
    infos: Seq<IntentInfo>,
    repository: RepositoryId,
    kind: Seq<char>,
    command: CommandId,
    expected: Seq<char>,
    filter: IntentFilter,
    to: IntentState,
    observed: Seq<char>,
)
    requires
        one_under_way(infos),
    ensures
        !is_occupied(infos, repository, kind) ==> one_under_way(
            infos.push(prepared_info(repository, kind, command, expected)),
        ),
        filter.from == FromStates::Prepared || filter.from == FromStates::Open
            || !to.open_state() ==> one_under_way(moved_on(infos, filter, to, observed)),
        one_under_way(promotions_completed(infos, repository, observed)),
{
    let pushed = infos.push(prepared_info(repository, kind, command, expected));
    if !is_occupied(infos, repository, kind) {
        assert forall|i: int, j: int| 0 <= i < j < pushed.len() implies !(is_exclusive(
            (#[trigger] pushed[i]).kind,
        ) && pushed[i].kind == (#[trigger] pushed[j]).kind && pushed[i].repository_id
            == pushed[j].repository_id && pushed[i].state.open_state()
            && pushed[j].state.open_state()) by {
            assert(pushed[i] == infos[i]);
            if j < infos.len() {
                assert(pushed[j] == infos[j]);
            }
        }
    }
    let moved = moved_on(infos, filter, to, observed);
    if filter.from == FromStates::Prepared || filter.from == FromStates::Open
        || !to.open_state() {
        assert forall|i: int, j: int| 0 <= i < j < moved.len() implies !(is_exclusive(
            (#[trigger] moved[i]).kind,
        ) && moved[i].kind == (#[trigger] moved[j]).kind && moved[i].repository_id
            == moved[j].repository_id && moved[i].state.open_state()
            && moved[j].state.open_state()) by {
            assert(moved[i].state.open_state() ==> infos[i].state.open_state());
            assert(moved[j].state.open_state() ==> infos[j].state.open_state());
        }
    }
    let done = promotions_completed(infos, repository, observed);
    assert forall|i: int, j: int| 0 <= i < j < done.len() implies !(is_exclusive(
        (#[trigger] done[i]).kind,
    ) && done[i].kind == (#[trigger] done[j]).kind && done[i].repository_id
        == done[j].repository_id && done[i].state.open_state()
        && done[j].state.open_state()) by {
        assert(done[i].state.open_state() ==> infos[i].state.open_state());
        assert(done[j].state.open_state() ==> infos[j].state.open_state());
    }
}

/// A command that is sent again prepares nothing new.
pub proof fn law_commands_are_prepared_once(
    infos: Seq<IntentInfo>,
    repository: RepositoryId,
    kind: Seq<char>,
    command: CommandId,
    expected: Seq<char>,
)
    ensures
        ({
            let after = infos.push(prepared_info(repository, kind, command, expected));
            is_replay(after, command, kind, expected) && !is_new(after, command)
        }),
{
    let after = infos.push(prepared_info(repository, kind, command, expected));
    assert(is_latest(after, command, infos.len() as int));
    assert(after[infos.len() as int].command_id == command);
}

/// The evidence of an operation, with the object that the remote was seen to have.
pub open spec fn with_remote(expected: Seq<(Seq<char>, Tree)>, oid: Tree) -> Seq<
    (Seq<char>, Tree),
>
    decreases expected.len(),
{
    if expected.len() == 0 {
        seq![("observed_remote_oid"@, oid)]
    } else if expected[0].0 == "observed_remote_oid"@ {
        seq![("observed_remote_oid"@, oid)] + expected.drop_first()
    } else {
        seq![expected[0]] + with_remote(expected.drop_first(), oid)
    }
}

/// What was seen of the remote, if anything was.
pub open spec fn remote_seen(observed: Option<Tree>) -> Option<Tree> {
    match observed {
        Some(observed) => observed.field("observed_remote_oid"@),
        None => None,
    }
}

/// The evidence of an operation.
pub open spec fn evidence_of(expected: Tree, observed: Option<Tree>) -> Tree {
    match remote_seen(observed) {
        Some(oid) => match expected {
            Tree::Table(entries) => Tree::Table(with_remote(entries, oid)),
            _ => Tree::Table(seq![("observed_remote_oid"@, oid)]),
        },
        None => expected,
    }
}

/// What was seen of the remote is told with the evidence of an operation, and nothing else
/// of the evidence changes.
pub proof fn law_evidence_tells_of_the_remote(
    expected: Seq<(Seq<char>, Tree)>,
    oid: Tree,
    name: Seq<char>,
)
    ensures
        lookup(with_remote(expected, oid), "observed_remote_oid"@) == Some(oid),
        name != "observed_remote_oid"@ ==> lookup(with_remote(expected, oid), name) == lookup(
            expected,
            name,
        ),
    decreases expected.len(),
{
    let after = with_remote(expected, oid);
    if expected.len() == 0 {
        reveal_with_fuel(lookup, 2);
        assert(after.drop_first() =~= expected);
    } else if expected[0].0 == "observed_remote_oid"@ {
        assert(after.drop_first() =~= expected.drop_first());
    } else {
        law_evidence_tells_of_the_remote(expected.drop_first(), oid, name);
        assert(after.drop_first() =~= with_remote(expected.drop_first(), oid));
    }
}

fn put_remote(entries: Vec<(String, Document)>, oid: Document) -> (r: Vec<(String, Document)>)
    ensures
        entry_trees(r@) == with_remote(entry_trees(entries@), oid@),
    decreases entries@.len(),
{
    let ghost had = entry_trees(entries@);
    let ghost all = entries@;
    let mut rest = entries;
    if rest.len() == 0 {
        let mut out: Vec<(String, Document)> = Vec::new();
        out.push(("observed_remote_oid".to_owned(), oid));
        assert(entry_trees(out@) =~= with_remote(had, oid@));
        return out;
    }
    let first = rest.remove(0);
    assert(entry_trees(rest@) =~= had.drop_first());
    assert(had[0] == (first.0@, first.1@));
    if str_equal(first.0.as_str(), "observed_remote_oid") {
        let ghost kept = rest@;
        rest.insert(0, ("observed_remote_oid".to_owned(), oid));
        assert(entry_trees(rest@) =~= with_remote(had, oid@));
        rest
    } else {
        let ghost value = oid@;
        let mut out = put_remote(rest, oid);
        let ghost tail = entry_trees(out@);
        out.insert(0, first);
        assert(entry_trees(out@) =~= seq![had[0]] + tail);
        out
    }
}

/// The evidence of an operation: what was expected, and what was seen of the remote.
pub fn merged_evidence(expected: Document, observed: Option<&Document>) -> (r: Document)
    requires
        remote_seen(
            match observed {
                Some(observed) => Some(observed@),
                None => None,
            },
        ) is Some ==> expected is Table || expected is Null,
    ensures
        r@ == evidence_of(
            expected@,
            match observed {
                Some(observed) => Some(observed@),
                None => None,
            },
        ),
{
    let oid: Document = match observed {
        Some(observed) => match observed.get("observed_remote_oid") {
            Some(oid) => oid.duplicate(),
            None => {
                return expected;
            },
        },
        None => {
            return expected;
        },
    };
    match expected {
        Document::Table(entries) => {
            let r = Document::Table(put_remote(entries, oid));
            assert(r@->Table_0 =~= entry_trees(r->Table_0@));
            assert(Document::Table(entries)@->Table_0 =~= entry_trees(entries@));
            r
        },
        _ => {
            let mut out: Vec<(String, Document)> = Vec::new();
            out.push(("observed_remote_oid".to_owned(), oid));
            let r = Document::Table(out);
            assert(r@->Table_0 =~= seq![("observed_remote_oid"@, oid@)]);
            r
        },
    }
}

} // verus!
