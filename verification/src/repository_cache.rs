//! Operations of the store on artifacts, seeds, prepared work and answers.

use crate::artifact_table::ArtifactRecord;
#[allow(unused_imports)]
use crate::artifact_table::{
    artifact_infos, can_change, can_retain, changed, first_refused, is_retention_state,
    retention_error, retention_fault, taken_up,
};
use crate::document::Document;
#[allow(unused_imports)]
use crate::document::Tree;
use crate::event::{Actor, DomainEvent};
use crate::event_table::Notice;
#[allow(unused_imports)]
use crate::event_table::noticed;
use crate::ids::{CommandId, RepositoryId};
use crate::intent_table::FromStates;
#[allow(unused_imports)]
use crate::intent_table::{
    can_prepare_approval, has_open, is_new, is_occupied, is_replay, last_open, latest_unreadable,
    moved_on, prepared_info, IntentFilter, IntentInfo,
};
use crate::model::RepositoryState;
#[allow(unused_imports)]
use crate::event_table::EventInfo;
#[allow(unused_imports)]
use crate::repository_ops::{completing, projection_sequence};
use crate::repository_store::RepositoryStore;
#[allow(unused_imports)]
use crate::repository_store::{can_tell, numbered, Books};
#[allow(unused_imports)]
use crate::repository_table::{has_repository, repository_index, repository_row, restated, with_repository};
use crate::result_table::Reply;
#[allow(unused_imports)]
use crate::result_table::{has_result, replied, ResultInfo};
use crate::seed_table::SeedRecord;
#[allow(unused_imports)]
use crate::seed_table::{
    all_pruned, has_seed, publication_fault, pruning_error, published, seed_error, seed_infos,
    stops_at,
};
use crate::store::{refused, IntentState, StoreError};
#[allow(unused_imports)]
use crate::noted_item::item_form;
#[allow(unused_imports)]
use crate::stored_json::{approval_kept, approval_tree, notation, ApprovalFault};
#[allow(unused_imports)]
use crate::text::texts;
#[allow(unused_imports)]
use crate::volume_table::{
    released, reservation_error, reservation_infos, reserved_but, reserved_on, volume_row,
    with_reservation, ReservationFault, ReservationRow,
};
use vstd::prelude::*;

verus! {

/// The state releases what a command has spoken for.
pub open spec fn releases(state: IntentState) -> bool {
    state == IntentState::Completed || state == IntentState::Canceled || state
        == IntentState::NeedsAttention
}

/// Why a command cannot have room on a volume.
pub open spec fn room_fault(
    store: RepositoryStore,
    command: CommandId,
    volume: Seq<char>,
    allowance: u64,
) -> Option<ReservationFault> {
    store.volumes.fault(command, volume, allowance, has_open(store@.intents, command))
}

/// The state of the repository after the next event.
pub open spec fn next_state(state: RepositoryState) -> RepositoryState {
    numbered(state, (state.event_sequence + 1) as u64)
}

/// The books after an event that leaves the queue as it is.
pub open spec fn told(
    books: Books,
    state: RepositoryState,
    event: EventInfo,
    answer: Option<ResultInfo>,
) -> Books {
    Books {
        repositories: with_repository(
            books.repositories,
            restated(repository_row(books.repositories, state.id), state),
        ),
        events: books.events.push(event),
        results: match answer {
            Some(answer) => books.results.push(answer),
            None => books.results,
        },
        ..books
    }
}

impl RepositoryStore {
    /// Tells of something that leaves the queue as it is.
    fn tell(
        &mut self,
        at: usize,
        state: RepositoryState,
        actor: Actor,
        command: CommandId,
        event_kind: &str,
        notice: Notice,
    ) -> (r: DomainEvent)
        requires
            old(self).wf(),
            state.event_sequence < i64::MAX,
            repository_index(old(self)@.repositories, state.id) == at,
            at < old(self)@.repositories.len(),
            old(self)@.repositories[at as int].state.id == state.id,
            can_tell(old(self)@, state.id, next_state(state).event_sequence, notice.id, None),
        ensures
            final(self).wf(),
            r@ == noticed(
                notice,
                state.id,
                next_state(state).event_sequence,
                actor,
                Some(command),
                event_kind@,
            ),
            final(self)@ == told(old(self)@, next_state(state), r@, None),
    {
        let repository = state.id;
        let sequence: u64 = state.event_sequence + 1;
        let mut after = state;
        after.event_sequence = sequence;
        self.repositories.restate(at, after);
        self.events.publish(notice, repository, sequence, actor, Some(command), event_kind)
    }

    /// Records the artifacts that a build has left.
    pub fn complete_artifact_retention(
        &mut self,
        state: RepositoryState,
        command_id: CommandId,
        records: Vec<ArtifactRecord>,
        observed: &str,
        notice: Notice,
    ) -> (r: Result<DomainEvent, StoreError>)
        requires
            old(self).wf(),
            state.event_sequence < i64::MAX,
        ensures
            final(self).wf(),
            ({
                let after = next_state(state);
                let offered = artifact_infos(records@);
                let fit = can_retain(old(self)@.artifacts, old(self)@.buildsets, offered);
                let tell = can_tell(old(self)@, state.id, after.event_sequence, notice.id, None);
                &&& r is Ok <==> fit && tell
                &&& r matches Ok(event) ==> event@ == noticed(
                    notice,
                    state.id,
                    after.event_sequence,
                    Actor::App,
                    Some(command_id),
                    "artifact.published"@,
                ) && final(self)@ == (Books {
                    artifacts: taken_up(old(self)@.artifacts, offered, offered.len()),
                    intents: moved_on(
                        old(self)@.intents,
                        completing(command_id, state.id, "artifact"@, FromStates::Open),
                        IntentState::Completed,
                        observed@,
                    ),
                    reservations: released(old(self)@.reservations, command_id),
                    ..told(old(self)@, after, event@, None)
                })
                &&& r is Err ==> final(self)@ == old(self)@
                &&& r matches Err(error) ==> if fit {
                    error is Sql
                } else {
                    exists|i: int| #[trigger]
                        first_refused(old(self)@.artifacts, old(self)@.buildsets, offered, i)
                            && retention_error(
                            error,
                            retention_fault(
                                old(self)@.artifacts,
                                old(self)@.buildsets,
                                offered,
                                i,
                            )->Some_0,
                        )
                }
            }),
    {
        let sequence: u64 = state.event_sequence + 1;
        let checked = self.check_tell(state.id, sequence, notice.id, None);
        let known: usize = self.artifacts.rows.len();
        match self.artifacts.retain_all(records, &self.buildsets) {
            Ok(()) => {},
            Err(error) => {
                return Err(error);
            },
        }
        let at: usize = match checked {
            Ok(at) => at,
            Err(error) => {
                self.artifacts.rows.truncate(known);
                return Err(error);
            },
        };
        let repository = state.id;
        self.intents.move_on(
            command_id,
            Some(repository),
            Some("artifact"),
            FromStates::Open,
            IntentState::Completed,
            observed,
        );
        self.volumes.deactivate_volume_reservation(command_id);
        Ok(self.tell(at, state, Actor::App, command_id, "artifact.published", notice))
    }

    /// Changes the state of an artifact that is in one of the expected states.
    pub fn complete_artifact_state_change(
        &mut self,
        state: RepositoryState,
        artifact_id: &str,
        expected_states: &Vec<String>,
        new_state: &str,
        intent_kind: Option<&str>,
        command_id: CommandId,
        command_kind: &str,
        event_kind: &str,
        actor: Actor,
        notice: Notice,
        reply: Reply,
    ) -> (r: Result<DomainEvent, StoreError>)
        requires
            old(self).wf(),
            state.event_sequence < i64::MAX,
            is_retention_state(new_state@),
        ensures
            final(self).wf(),
            ({
                let after = next_state(state);
                let change = can_change(
                    old(self)@.artifacts,
                    artifact_id@,
                    texts(expected_states@),
                );
                let tell = can_tell(
                    old(self)@,
                    state.id,
                    after.event_sequence,
                    notice.id,
                    Some(command_id),
                );
                &&& r is Ok <==> change && tell
                &&& r matches Ok(event) ==> event@ == noticed(
                    notice,
                    state.id,
                    after.event_sequence,
                    actor,
                    Some(command_id),
                    event_kind@,
                ) && final(self)@ == (Books {
                    artifacts: changed(
                        old(self)@.artifacts,
                        artifact_id@,
                        texts(expected_states@),
                        new_state@,
                    ),
                    intents: match intent_kind {
                        Some(kind) => moved_on(
                            old(self)@.intents,
                            completing(command_id, state.id, kind@, FromStates::Open),
                            IntentState::Completed,
                            reply.response@,
                        ),
                        None => old(self)@.intents,
                    },
                    ..told(
                        old(self)@,
                        after,
                        event@,
                        Some(replied(reply, command_id, command_kind@, after.event_sequence)),
                    )
                })
                &&& r is Err ==> final(self)@ == old(self)@
                &&& r matches Err(error) ==> if change {
                    error is Sql
                } else {
                    error.broken(
                        "artifact "@ + artifact_id@ + " was not in the expected retention state"@,
                    )
                }
            }),
    {
        match self.artifacts.check_change(artifact_id, expected_states) {
            Ok(()) => {},
            Err(error) => {
                return Err(error);
            },
        }
        let sequence: u64 = state.event_sequence + 1;
        let at: usize = match self.check_tell(state.id, sequence, notice.id, Some(command_id)) {
            Ok(at) => at,
            Err(error) => {
                return Err(error);
            },
        };
        self.artifacts.change_state(artifact_id, expected_states, new_state);
        if let Some(kind) = intent_kind {
            self.intents.move_on(
                command_id,
                Some(state.id),
                Some(kind),
                FromStates::Open,
                IntentState::Completed,
                reply.response.as_str(),
            );
        }
        let event = self.tell(at, state, actor, command_id, event_kind, notice);
        self.results.record(command_id, command_kind, reply, sequence);
        Ok(event)
    }

    /// Publishes a seed. One that was published before, as after a crash, must be the same.
    pub fn complete_seed_publication(
        &mut self,
        state: RepositoryState,
        command_id: CommandId,
        seed: SeedRecord,
        actor: Actor,
        observed: &str,
        notice: Notice,
        reply: Reply,
    ) -> (r: Result<DomainEvent, StoreError>)
        requires
            old(self).wf(),
            state.event_sequence < i64::MAX,
        ensures
            final(self).wf(),
            ({
                let after = next_state(state);
                let fault = publication_fault(old(self)@.seeds, seed@);
                let owned = has_seed(old(self)@.seeds, seed.id@) || has_repository(
                    old(self)@.repositories,
                    seed.repository_id,
                );
                let tell = can_tell(
                    old(self)@,
                    state.id,
                    after.event_sequence,
                    notice.id,
                    Some(command_id),
                );
                &&& r is Ok <==> fault is None && owned && tell
                &&& r matches Ok(event) ==> event@ == noticed(
                    notice,
                    state.id,
                    after.event_sequence,
                    actor,
                    Some(command_id),
                    "cache.seed-published"@,
                ) && final(self)@ == (Books {
                    seeds: published(old(self)@.seeds, seed@),
                    intents: moved_on(
                        old(self)@.intents,
                        completing(command_id, state.id, "cache-snapshot"@, FromStates::Open),
                        IntentState::Completed,
                        observed@,
                    ),
                    reservations: released(old(self)@.reservations, command_id),
                    ..told(
                        old(self)@,
                        after,
                        event@,
                        Some(replied(reply, command_id, "cache-snapshot"@, after.event_sequence)),
                    )
                })
                &&& r is Err ==> final(self)@ == old(self)@
                &&& r matches Err(error) ==> match fault {
                    Some(fault) => seed_error(error, seed.id@, fault),
                    None => error is Sql,
                }
            }),
    {
        match self.seeds.check_publication(&seed) {
            Ok(()) => {},
            Err(error) => {
                return Err(error);
            },
        }
        let known = self.seeds.holds(seed.id.as_str());
        if !known && self.repositories.find(seed.repository_id).is_none() {
            return Err(refused("FOREIGN KEY constraint failed"));
        }
        let sequence: u64 = state.event_sequence + 1;
        let at: usize = match self.check_tell(state.id, sequence, notice.id, Some(command_id)) {
            Ok(at) => at,
            Err(error) => {
                return Err(error);
            },
        };
        self.seeds.publish(seed);
        self.intents.move_on(
            command_id,
            Some(state.id),
            Some("cache-snapshot"),
            FromStates::Open,
            IntentState::Completed,
            observed,
        );
        self.volumes.deactivate_volume_reservation(command_id);
        let event = self.tell(at, state, actor, command_id, "cache.seed-published", notice);
        self.results.record(command_id, "cache-snapshot", reply, sequence);
        Ok(event)
    }

    /// Records that seeds have been pruned, all of which must be as expected.
    pub fn complete_cache_purge(
        &mut self,
        state: RepositoryState,
        command_id: CommandId,
        seeds: &Vec<SeedRecord>,
        actor: Actor,
        notice: Notice,
        reply: Reply,
    ) -> (r: Result<DomainEvent, StoreError>)
        requires
            old(self).wf(),
            state.event_sequence < i64::MAX,
        ensures
            final(self).wf(),
            ({
                let after = next_state(state);
                let purged = all_pruned(old(self)@.seeds, seed_infos(seeds@), seeds@.len());
                let tell = can_tell(
                    old(self)@,
                    state.id,
                    after.event_sequence,
                    notice.id,
                    Some(command_id),
                );
                &&& r is Ok <==> purged is Some && tell
                &&& r matches Ok(event) ==> event@ == noticed(
                    notice,
                    state.id,
                    after.event_sequence,
                    actor,
                    Some(command_id),
                    "cache.purged"@,
                ) && final(self)@ == (Books {
                    seeds: purged->Some_0,
                    intents: moved_on(
                        old(self)@.intents,
                        completing(command_id, state.id, "cache-purge"@, FromStates::Open),
                        IntentState::Completed,
                        reply.response@,
                    ),
                    ..told(
                        old(self)@,
                        after,
                        event@,
                        Some(replied(reply, command_id, "cache-purge"@, after.event_sequence)),
                    )
                })
                &&& r is Err ==> final(self)@ == old(self)@
                &&& r matches Err(error) ==> if purged is Some {
                    error is Sql
                } else {
                    exists|i: int| #[trigger]
                        stops_at(old(self)@.seeds, seed_infos(seeds@), i) && pruning_error(
                            error,
                            all_pruned(old(self)@.seeds, seed_infos(seeds@), i as nat)->Some_0,
                            seed_infos(seeds@)[i],
                        )
                }
            }),
    {
        let purged = match self.seeds.purge(seeds) {
            Ok(purged) => purged,
            Err(error) => {
                return Err(error);
            },
        };
        let sequence: u64 = state.event_sequence + 1;
        let at: usize = match self.check_tell(state.id, sequence, notice.id, Some(command_id)) {
            Ok(at) => at,
            Err(error) => {
                return Err(error);
            },
        };
        self.seeds = purged;
        self.intents.move_on(
            command_id,
            Some(state.id),
            Some("cache-purge"),
            FromStates::Open,
            IntentState::Completed,
            reply.response.as_str(),
        );
        let event = self.tell(at, state, actor, command_id, "cache.purged", notice);
        self.results.record(command_id, "cache-purge", reply, sequence);
        Ok(event)
    }

    /// Prepares an approval. The same command may not be used for anything else.
    pub fn prepare_approval(
        &mut self,
        repository_id: RepositoryId,
        item: Document,
        command_id: CommandId,
        request_digest: &str,
    ) -> (r: Result<(), StoreError>)
        requires
            old(self).wf(),
            item@.has_notation(),
        ensures
            final(self).wf(),
            ({
                let known = has_repository(old(self)@.repositories, repository_id);
                let fresh = can_prepare_approval(
                    old(self)@.intents,
                    command_id,
                    request_digest@,
                );
                &&& r is Ok <==> fresh && known
                &&& r is Ok ==> final(self)@ == (Books {
                    intents: old(self)@.intents.push(
                        prepared_info(
                            repository_id,
                            "approval"@,
                            command_id,
                            notation(approval_tree(item@, request_digest@)),
                        ),
                    ),
                    ..old(self)@
                })
                &&& r is Ok && item@.writable(126) ==> (item_form(item@) matches Some(form) ==> approval_kept(
                    notation(approval_tree(item@, request_digest@)),
                ) == Ok::<(Tree, Seq<char>), ApprovalFault>((form, request_digest@)))
                &&& r is Err ==> final(self)@ == old(self)@
                &&& r matches Err(error) ==> if fresh {
                    error is Sql
                } else if latest_unreadable(old(self)@.intents, command_id) {
                    error is Json
                } else {
                    error == StoreError::CommandReplayMismatch
                }
            }),
    {
        match self.intents.check_approval(command_id, request_digest) {
            Ok(()) => {},
            Err(error) => {
                return Err(error);
            },
        }
        if self.repositories.find(repository_id).is_none() {
            return Err(refused("FOREIGN KEY constraint failed"));
        }
        self.intents.prepare_approval(repository_id, item, command_id, request_digest)
    }

    /// Prepares a promotion; a repository has one under way at most.
    pub fn prepare_promotion(
        &mut self,
        repository_id: RepositoryId,
        command_id: CommandId,
        evidence: &str,
    ) -> (r: Result<(), StoreError>)
        requires
            old(self).wf(),
        ensures
            final(self).wf(),
            r is Ok <==> has_repository(old(self)@.repositories, repository_id) && !is_occupied(
                old(self)@.intents,
                repository_id,
                "promotion"@,
            ),
            r is Ok ==> final(self)@ == (Books {
                intents: old(self)@.intents.push(
                    prepared_info(repository_id, "promotion"@, command_id, evidence@),
                ),
                ..old(self)@
            }),
            r is Err ==> final(self)@ == old(self)@,
            r matches Err(error) ==> error is Sql,
    {
        if self.repositories.find(repository_id).is_none() {
            return Err(refused("FOREIGN KEY constraint failed"));
        }
        self.intents.prepare_promotion(repository_id, command_id, evidence)
    }

    /// Prepares an operation. The same command prepares the same operation once.
    pub fn prepare_operation(
        &mut self,
        repository_id: RepositoryId,
        kind: &str,
        command_id: CommandId,
        evidence: &str,
    ) -> (r: Result<(), StoreError>)
        requires
            old(self).wf(),
        ensures
            final(self).wf(),
            ({
                let fresh = is_new(old(self)@.intents, command_id);
                let replay = is_replay(old(self)@.intents, command_id, kind@, evidence@);
                let open = has_repository(old(self)@.repositories, repository_id)
                    && !is_occupied(old(self)@.intents, repository_id, kind@);
                &&& r is Ok <==> replay || (fresh && open)
                &&& replay || r is Err ==> final(self)@ == old(self)@
                &&& fresh && open ==> final(self)@ == (Books {
                    intents: old(self)@.intents.push(
                        prepared_info(repository_id, kind@, command_id, evidence@),
                    ),
                    ..old(self)@
                })
                &&& r matches Err(error) ==> if fresh {
                    error is Sql
                } else {
                    error == StoreError::CommandReplayMismatch
                }
            }),
    {
        if self.intents.is_new_command(command_id) && self.repositories.find(
            repository_id,
        ).is_none() {
            return Err(refused("FOREIGN KEY constraint failed"));
        }
        self.intents.prepare_operation(repository_id, kind, command_id, evidence)
    }

    /// Moves the operations of a command on that are under way.
    pub fn set_intent_state(&mut self, command_id: CommandId, state: IntentState, evidence: &str)
        requires
            old(self).wf(),
        ensures
            final(self).wf(),
            final(self)@ == (Books {
                intents: moved_on(
                    old(self)@.intents,
                    IntentFilter {
                        command: command_id,
                        repository: None,
                        kind: None,
                        from: FromStates::Open,
                    },
                    state,
                    evidence@,
                ),
                reservations: if releases(state) {
                    released(old(self)@.reservations, command_id)
                } else {
                    old(self)@.reservations
                },
                ..old(self)@
            }),
    {
        self.intents.move_on(command_id, None, None, FromStates::Open, state, evidence);
        match state {
            IntentState::Completed | IntentState::Canceled | IntentState::NeedsAttention => {
                self.volumes.deactivate_volume_reservation(command_id);
            },
            _ => {},
        }
    }

    /// Gives up the operations of a command that need attention.
    pub fn cancel_attention_intent(&mut self, command_id: CommandId, evidence: &str)
        requires
            old(self).wf(),
        ensures
            final(self).wf(),
            final(self)@ == (Books {
                intents: moved_on(
                    old(self)@.intents,
                    IntentFilter {
                        command: command_id,
                        repository: None,
                        kind: None,
                        from: FromStates::NeedsAttention,
                    },
                    IntentState::Canceled,
                    evidence@,
                ),
                reservations: released(old(self)@.reservations, command_id),
                ..old(self)@
            }),
    {
        self.intents.move_on(
            command_id,
            None,
            None,
            FromStates::NeedsAttention,
            IntentState::Canceled,
            evidence,
        );
        self.volumes.deactivate_volume_reservation(command_id);
    }

    /// Speaks for room on a volume, for a command that has an operation under way.
    pub fn reserve_volume(&mut self, command_id: CommandId, volume_id: &str, allowance: u64) -> (r:
        Result<(), StoreError>)
        requires
            old(self).wf(),
        ensures
            final(self).wf(),
            final(self)@ == (Books { reservations: final(self)@.reservations, ..old(self)@ }),
            match room_fault(*old(self), command_id, volume_id@, allowance) {
                Some(fault) => final(self)@ == old(self)@ && (r matches Err(error)
                    && reservation_error(error, volume_id@, fault)),
                None => {
                    &&& r is Ok
                    &&& reservation_infos(final(self)@.reservations) == with_reservation(
                        reservation_infos(old(self)@.reservations),
                        command_id,
                        volume_id@,
                        allowance as i64,
                    )
                    &&& reserved_on(final(self)@.reservations, volume_id@) == reserved_but(
                        old(self)@.reservations,
                        volume_id@,
                        Some(command_id),
                        old(self)@.reservations.len(),
                    ) + allowance
                    &&& volume_row(old(self)@.volumes, volume_id@).critical_threshold
                        + reserved_on(final(self)@.reservations, volume_id@) <= volume_row(
                        old(self)@.volumes,
                        volume_id@,
                    ).observed_free
                },
            },
    {
        let has_intent = self.intents.has_open_intent(command_id);
        self.volumes.reserve_volume(command_id, volume_id, allowance, has_intent)
    }

    /// Records the answer to a command that has changed nothing.
    pub fn record_command_result(
        &mut self,
        repository_id: RepositoryId,
        command_id: CommandId,
        command_kind: &str,
        reply: Reply,
    ) -> (r: Result<(), StoreError>)
        requires
            old(self).wf(),
        ensures
            final(self).wf(),
            r is Ok <==> has_repository(old(self)@.repositories, repository_id) && !has_result(
                old(self)@.results,
                command_id,
            ),
            r is Ok ==> final(self)@ == (Books {
                results: old(self)@.results.push(
                    replied(
                        reply,
                        command_id,
                        command_kind@,
                        repository_row(old(self)@.repositories, repository_id).event_sequence,
                    ),
                ),
                ..old(self)@
            }),
            r is Err ==> final(self)@ == old(self)@,
            r matches Err(error) ==> error is Sql,
    {
        let at: usize = match self.repositories.find(repository_id) {
            Some(at) => at,
            None => {
                return Err(refused("Query returned no rows"));
            },
        };
        match self.results.check_new(command_id) {
            Ok(()) => {},
            Err(error) => {
                return Err(error);
            },
        }
        let sequence = self.repositories.rows[at].event_sequence;
        self.results.record(command_id, command_kind, reply, sequence);
        Ok(())
    }

    /// Records what was seen of a remote for the last operation of a command that is under
    /// way.
    pub fn record_remote_observation(
        &mut self,
        repository_id: RepositoryId,
        command_id: CommandId,
        observed: &str,
    ) -> (r: Result<(), StoreError>)
        requires
            old(self).wf(),
        ensures
            final(self).wf(),
            r is Ok <==> exists|i: int| #[trigger]
                last_open(old(self)@.intents, repository_id, command_id, i),
            r is Ok ==> exists|i: int| #[trigger]
                last_open(old(self)@.intents, repository_id, command_id, i) && final(self)@
                    == (Books {
                    intents: old(self)@.intents.update(
                        i,
                        IntentInfo { observed: Some(observed@), ..old(self)@.intents[i] },
                    ),
                    ..old(self)@
                }),
            r is Err ==> final(self)@ == old(self)@,
            r matches Err(error) ==> error is Sql,
    {
        let ghost books = self@;
        let outcome = self.intents.observe(repository_id, command_id, observed);
        proof {
            if outcome is Ok {
                let i = choose|i: int|
                    #[trigger] last_open(books.intents, repository_id, command_id, i)
                        && self@.intents == books.intents.update(
                        i,
                        IntentInfo { observed: Some(observed@), ..books.intents[i] },
                    );
                assert(last_open(books.intents, repository_id, command_id, i));
            }
        }
        outcome
    }
}

/// The number of the event of an item that has changed is one that neither the store nor
/// the given state has come to.
pub proof fn law_stale_states_get_new_numbers(books: Books, state: RepositoryState)
    requires
        state.event_sequence < i64::MAX,
        repository_row(books.repositories, state.id).event_sequence < i64::MAX,
    ensures
        projection_sequence(books, state) > state.event_sequence,
        projection_sequence(books, state) > repository_row(
            books.repositories,
            state.id,
        ).event_sequence,
{
}

/// An operation that comes to an end leaves none of its room spoken for.
pub proof fn law_finished_operations_release_their_room(
    rows: Seq<ReservationRow>,
    command: CommandId,
    i: int,
)
    requires
        0 <= i < rows.len(),
        rows[i].command_id == command,
    ensures
        !released(rows, command)[i].active,
{
}

} // verus!
