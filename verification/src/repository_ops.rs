//! Operations on the store of a repository that change what it holds already.

#[allow(unused_imports)]
use crate::artifact_table::changed;
use crate::event::{Actor, DomainEvent};
use crate::event_table::Notice;
#[allow(unused_imports)]
use crate::event_table::{event_taken, noticed, EventInfo};
#[allow(unused_imports)]
use crate::generation_batch::{
    all_reactivated, all_recorded, first_unavailable, lemma_first_unavailable_unique,
};
use crate::ids::{CommandId, EventId, RepositoryId};
use crate::intent_table::FromStates;
#[allow(unused_imports)]
use crate::intent_table::{
    completed_promotion, moved_on, promotions_completed, IntentFilter, IntentInfo,
};
#[allow(unused_imports)]
use crate::item_table::{
    all_stored, finished, has_item, keys_of, overwritten, restructure_fault, stored,
};
use crate::model::{QueueItem, RepositoryState, ValidationGeneration};
#[allow(unused_imports)]
use crate::outside::uuid_text;
use crate::repository_store::RepositoryStore;
#[allow(unused_imports)]
use crate::repository_store::{can_tell, next_sequence, numbered, Books, Refusal};
#[allow(unused_imports)]
use crate::repository_table::{
    has_repository, repository_row, told_by_state, with_repository, RepositoryRow,
};
use crate::result_table::Reply;
#[allow(unused_imports)]
use crate::result_table::{replied, ResultInfo};
use crate::store::{integrity, refused, IntentState, StoreError};
use crate::text::{concat3, decimal_string};
#[allow(unused_imports)]
use crate::text::decimal;
#[allow(unused_imports)]
use crate::volume_table::{released, ReservationRow};
#[allow(unused_imports)]
use crate::buildset_table::has_certificate;
use crate::model::PassCertificate;
use crate::promotion_table::PromotionRow;
#[allow(unused_imports)]
use crate::promotion_table::{promoted_too, promotes, without_item, PromotionInfo};
use crate::text::copy_range;
use vstd::prelude::*;

verus! {

/// The books after a repository has come to another state, and it has been told.
pub open spec fn concluded(
    books: Books,
    state: RepositoryState,
    event: EventInfo,
    answer: Option<ResultInfo>,
) -> Books {
    Books {
        repositories: with_repository(books.repositories, told_by_state(state)),
        events: books.events.push(event),
        results: match answer {
            Some(answer) => books.results.push(answer),
            None => books.results,
        },
        ..books
    }
}

/// The number of the event of an item that has changed.
pub open spec fn projection_sequence(books: Books, state: RepositoryState) -> u64 {
    let stored = repository_row(books.repositories, state.id).event_sequence;
    if state.event_sequence > stored {
        (state.event_sequence + 1) as u64
    } else {
        (stored + 1) as u64
    }
}

/// All validations belong to items that are stored.
pub open spec fn of_known_items(books: Books, generations: Seq<ValidationGeneration>) -> bool {
    forall|i: int|
        0 <= i < generations.len() ==> has_item(
            keys_of(books.items),
            (#[trigger] generations[i]).item_id,
        )
}

/// What stands against giving the queue another structure.
pub open spec fn structure_refusal(
    books: Books,
    state: RepositoryState,
    items: Seq<QueueItem>,
    generations: Seq<ValidationGeneration>,
    command: CommandId,
    event: EventId,
) -> Option<Refusal> {
    if all_recorded(books.generations, generations, generations.len()) is None || !of_known_items(
        books,
        generations,
    ) {
        Some(Refusal::Constraint)
    } else {
        match restructure_fault(books.items, items, false) {
            Some(fault) => Some(Refusal::Rows(fault)),
            None => if can_tell(
                books,
                state.id,
                (state.event_sequence + 1) as u64,
                event,
                Some(command),
            ) {
                None
            } else {
                Some(Refusal::Constraint)
            },
        }
    }
}

/// The text of the refusal to make a validation count again.
pub open spec fn unavailable_text(generation: ValidationGeneration) -> Seq<char> {
    "retained generation "@ + uuid_text(generation.id.0) + " for item "@ + uuid_text(
        generation.item_id.0,
    ) + " was not available for reactivation"@
}

/// What stands against authorizing a candidate.
pub open spec fn authorization_refusal(
    books: Books,
    state: RepositoryState,
    items: Seq<QueueItem>,
    generations: Seq<ValidationGeneration>,
    restored: Seq<ValidationGeneration>,
    expected_revision: u64,
    command: CommandId,
    event: EventId,
) -> Option<Refusal> {
    let revision = repository_row(books.repositories, state.id).queue_revision;
    if !has_repository(books.repositories, state.id) {
        Some(Refusal::Constraint)
    } else if revision != expected_revision {
        Some(
            Refusal::Broken(
                "candidate authorization revision changed from "@ + decimal(
                    expected_revision as nat,
                ) + " to "@ + decimal(revision as nat),
            ),
        )
    } else if items.len() == 0 {
        Some(Refusal::Broken("candidate authorization did not include any active items"@))
    } else if !of_known_items(books, generations) {
        Some(Refusal::Constraint)
    } else {
        match all_recorded(books.generations, generations, generations.len()) {
            None => Some(Refusal::Constraint),
            Some(middle) => if all_reactivated(middle, restored, restored.len()) is None {
                Some(
                    Refusal::Broken(
                        unavailable_text(
                            restored[choose|i: int| first_unavailable(middle, restored, i)],
                        ),
                    ),
                )
            } else {
                match restructure_fault(books.items, items, true) {
                    Some(fault) => Some(Refusal::Rows(fault)),
                    None => if can_tell(
                        books,
                        state.id,
                        next_sequence(books, state.id),
                        event,
                        Some(command),
                    ) {
                        None
                    } else {
                        Some(Refusal::Constraint)
                    },
                }
            },
        }
    }
}

/// The reservations after those of the promotions among the first `n` operations have been
/// released.
pub open spec fn promotions_released(
    rows: Seq<ReservationRow>,
    infos: Seq<IntentInfo>,
    repository: RepositoryId,
    n: nat,
) -> Seq<ReservationRow>
    decreases n,
{
    if n == 0 {
        rows
    } else {
        let had = promotions_released(rows, infos, repository, (n - 1) as nat);
        if completed_promotion(infos[n - 1], repository) {
            released(had, infos[n - 1].command_id)
        } else {
            had
        }
    }
}

/// Which operations of a command an event of the store completes.
pub open spec fn completing(
    command: CommandId,
    repository: RepositoryId,
    kind: Seq<char>,
    from: FromStates,
) -> IntentFilter {
    IntentFilter { command, repository: Some(repository), kind: Some(kind), from }
}

/// What is recorded of a promotion.
pub open spec fn promotion_of(
    item: QueueItem,
    certificate: PassCertificate,
    old_master: Seq<u8>,
    sequence: u64,
) -> PromotionInfo {
    PromotionInfo {
        item_id: item.id,
        source: item.source_oid@.bytes,
        promoted: certificate.tested_oid@.bytes,
        old_master,
        certificate_id: certificate.id,
        event_sequence: sequence as i64,
    }
}

impl RepositoryStore {
    /// A repository comes to another state, and it is told.
    fn conclude(
        &mut self,
        at: usize,
        state: RepositoryState,
        actor: Actor,
        command: Option<CommandId>,
        event_kind: &str,
        notice: Notice,
    ) -> (r: DomainEvent)
        requires
            old(self).wf(),
            at < old(self)@.repositories.len(),
            old(self)@.repositories[at as int].state.id == state.id,
            state.queue_revision <= i64::MAX,
            state.event_sequence <= i64::MAX,
            !event_taken(old(self)@.events, state.id, state.event_sequence, notice.id),
        ensures
            final(self).wf(),
            r@ == noticed(
                notice,
                state.id,
                state.event_sequence,
                actor,
                command,
                event_kind@,
            ),
            final(self)@ == concluded(old(self)@, state, r@, None),
    {
        let repository = state.id;
        let sequence = state.event_sequence;
        self.repositories.write(at, state);
        self.events.publish(notice, repository, sequence, actor, command, event_kind)
    }

    /// Stores an item that has changed. The event gets a number that neither the store nor
    /// the given state has come to.
    pub fn save_item_projection(
        &mut self,
        state: RepositoryState,
        item: QueueItem,
        notice: Notice,
    ) -> (r: Result<DomainEvent, StoreError>)
        requires
            old(self).wf(),
            old(self).has_room(state.id),
            state.event_sequence < i64::MAX,
            state.queue_revision <= i64::MAX,
            item.enqueue_sequence <= i64::MAX,
        ensures
            final(self).wf(),
            if can_tell(
                old(self)@,
                state.id,
                projection_sequence(old(self)@, state),
                notice.id,
                None,
            ) && overwritten(keys_of(old(self)@.items), item, false) is Ok {
                let after = numbered(state, projection_sequence(old(self)@, state));
                r matches Ok(event) && event@ == noticed(
                    notice,
                    state.id,
                    after.event_sequence,
                    Actor::App,
                    None,
                    "queue.item-updated"@,
                ) && final(self)@ == (Books {
                    items: stored(old(self)@.items, item),
                    ..concluded(old(self)@, after, event@, None)
                })
            } else {
                final(self)@ == old(self)@ && (r matches Err(error) && error is Sql)
            },
    {
        let at: usize = match self.repositories.find(state.id) {
            Some(at) => at,
            None => {
                return Err(refused("Query returned no rows"));
            },
        };
        let stored_sequence = self.repositories.rows[at].event_sequence;
        let sequence: u64 = if state.event_sequence > stored_sequence {
            state.event_sequence + 1
        } else {
            stored_sequence + 1
        };
        match self.check_tell(state.id, sequence, notice.id, None) {
            Ok(_) => {},
            Err(error) => {
                return Err(error);
            },
        }
        match self.items.update(item) {
            Ok(()) => {},
            Err(error) => {
                return Err(error);
            },
        }
        let mut after = state;
        after.event_sequence = sequence;
        Ok(self.conclude(at, after, Actor::App, None, "queue.item-updated", notice))
    }

    fn check_known_items(&self, generations: &Vec<ValidationGeneration>) -> (r: Result<
        (),
        StoreError,
    >)
        requires
            self.wf(),
        ensures
            r is Ok <==> of_known_items(self@, generations@),
            r matches Err(error) ==> error is Sql,
    {
        let mut i: usize = 0;
        while i < generations.len()
            invariant
                i <= generations@.len(),
                self.wf(),
                forall|j: int|
                    0 <= j < i ==> has_item(
                        keys_of(self@.items),
                        (#[trigger] generations@[j]).item_id,
                    ),
            decreases generations@.len() - i,
        {
            if !self.items.holds(generations[i].item_id) {
                assert(!has_item(keys_of(self@.items), generations@[i as int].item_id));
                return Err(refused("FOREIGN KEY constraint failed"));
            }
            i += 1;
        }
        Ok(())
    }

    /// Gives the queue another structure: its items trade places, and are validated anew
    /// where that is needed.
    pub fn replace_queue_structure(
        &mut self,
        state: RepositoryState,
        items: Vec<QueueItem>,
        generations: Vec<ValidationGeneration>,
        command_id: CommandId,
        command_kind: &str,
        notice: Notice,
        reply: Reply,
    ) -> (r: Result<DomainEvent, StoreError>)
        requires
            old(self).wf(),
            state.event_sequence < i64::MAX,
            state.queue_revision <= i64::MAX,
            items@.len() <= i64::MAX,
            forall|i: int|
                0 <= i < items@.len() ==> (#[trigger] items@[i]).enqueue_sequence <= i64::MAX,
        ensures
            final(self).wf(),
            match structure_refusal(
                old(self)@,
                state,
                items@,
                generations@,
                command_id,
                notice.id,
            ) {
                Some(refusal) => final(self)@ == old(self)@ && (r matches Err(error)
                    && refusal.told_by(error)),
                None => {
                    let after = numbered(state, (state.event_sequence + 1) as u64);
                    r matches Ok(event) && event@ == noticed(
                        notice,
                        state.id,
                        after.event_sequence,
                        Actor::Ui,
                        Some(command_id),
                        "queue.reordered"@,
                    ) && final(self)@ == (Books {
                        items: all_stored(old(self)@.items, items@, items@.len()),
                        generations: all_recorded(
                            old(self)@.generations,
                            generations@,
                            generations@.len(),
                        )->Some_0,
                        ..concluded(
                            old(self)@,
                            after,
                            event@,
                            Some(
                                replied(reply, command_id, command_kind@, after.event_sequence),
                            ),
                        )
                    })
                },
            },
    {
        match self.generations.check_record_all(&generations) {
            Ok(()) => {},
            Err(error) => {
                return Err(error);
            },
        }
        match self.check_known_items(&generations) {
            Ok(()) => {},
            Err(error) => {
                return Err(error);
            },
        }
        match self.items.check_restructure(&items, false) {
            Ok(()) => {},
            Err(error) => {
                return Err(error);
            },
        }
        let sequence: u64 = state.event_sequence + 1;
        let at: usize = match self.check_tell(state.id, sequence, notice.id, Some(command_id)) {
            Ok(at) => at,
            Err(error) => {
                return Err(error);
            },
        };
        let mut after = state;
        after.event_sequence = sequence;
        self.generations.record_all(generations);
        self.items.restructure(items);
        let event = self.conclude(
            at,
            after,
            Actor::Ui,
            Some(command_id),
            "queue.reordered",
            notice,
        );
        self.results.record(command_id, command_kind, reply, sequence);
        Ok(event)
    }

    /// Authorizes the promotion of a candidate: the queue takes the structure that was
    /// planned, as long as it has not changed since.
    pub fn authorize_candidate(
        &mut self,
        state: RepositoryState,
        items: Vec<QueueItem>,
        generations: Vec<ValidationGeneration>,
        restored_generations: Vec<ValidationGeneration>,
        expected_revision: u64,
        command_id: CommandId,
        notice: Notice,
        reply: Reply,
    ) -> (r: Result<DomainEvent, StoreError>)
        requires
            old(self).wf(),
            old(self).has_room(state.id),
            items@.len() <= i64::MAX,
            forall|i: int|
                0 <= i < items@.len() ==> (#[trigger] items@[i]).enqueue_sequence <= i64::MAX,
        ensures
            final(self).wf(),
            match authorization_refusal(
                old(self)@,
                state,
                items@,
                generations@,
                restored_generations@,
                expected_revision,
                command_id,
                notice.id,
            ) {
                Some(refusal) => final(self)@ == old(self)@ && (r matches Err(error)
                    && refusal.told_by(error)),
                None => {
                    let sequence = next_sequence(old(self)@, state.id);
                    let after = RepositoryState {
                        queue_revision: (expected_revision + 1) as u64,
                        event_sequence: sequence,
                        ..state
                    };
                    let middle = all_recorded(
                        old(self)@.generations,
                        generations@,
                        generations@.len(),
                    )->Some_0;
                    r matches Ok(event) && event@ == noticed(
                        notice,
                        state.id,
                        sequence,
                        Actor::Cli,
                        Some(command_id),
                        "candidate.promotion-authorized"@,
                    ) && final(self)@ == (Books {
                        items: all_stored(old(self)@.items, items@, items@.len()),
                        generations: all_reactivated(
                            middle,
                            restored_generations@,
                            restored_generations@.len(),
                        )->Some_0,
                        ..concluded(
                            old(self)@,
                            after,
                            event@,
                            Some(
                                replied(reply, command_id, "candidate-authorize"@, sequence),
                            ),
                        )
                    })
                },
            },
    {
        let at: usize = match self.repositories.find(state.id) {
            Some(at) => at,
            None => {
                return Err(refused("Query returned no rows"));
            },
        };
        let revision = self.repositories.rows[at].queue_revision;
        let sequence: u64 = self.repositories.rows[at].event_sequence + 1;
        if revision != expected_revision {
            let mut text = concat3(
                "candidate authorization revision changed from ",
                decimal_string(expected_revision).as_str(),
                " to ",
            );
            text.append(decimal_string(revision).as_str());
            return Err(StoreError::Integrity(text));
        }
        if items.len() == 0 {
            return Err(integrity("candidate authorization did not include any active items"));
        }
        match self.check_known_items(&generations) {
            Ok(()) => {},
            Err(error) => {
                return Err(error);
            },
        }
        match self.generations.check_record_all(&generations) {
            Ok(()) => {},
            Err(error) => {
                return Err(error);
            },
        }
        let ghost middle = all_recorded(
            self@.generations,
            generations@,
            generations@.len(),
        )->Some_0;
        match self.generations.check_reactivate_all(&generations, &restored_generations) {
            Ok(()) => {},
            Err(error) => {
                proof {
                    let i = choose|i: int|
                        #[trigger] first_unavailable(middle, restored_generations@, i)
                            && error.broken(unavailable_text(restored_generations@[i]));
                    let j = choose|j: int| first_unavailable(middle, restored_generations@, j);
                    lemma_first_unavailable_unique(middle, restored_generations@, i, j);
                }
                return Err(error);
            },
        }
        match self.items.check_restructure(&items, true) {
            Ok(()) => {},
            Err(error) => {
                return Err(error);
            },
        }
        match self.check_tell(state.id, sequence, notice.id, Some(command_id)) {
            Ok(_) => {},
            Err(error) => {
                return Err(error);
            },
        }
        let mut after = state;
        after.queue_revision = revision + 1;
        after.event_sequence = sequence;
        self.generations.record_all(generations);
        self.generations.reactivate_all(restored_generations);
        self.items.restructure(items);
        let event = self.conclude(
            at,
            after,
            Actor::Cli,
            Some(command_id),
            "candidate.promotion-authorized",
            notice,
        );
        self.results.record(command_id, "candidate-authorize", reply, sequence);
        Ok(event)
    }

    /// Completes an operation.
    pub fn complete_operation(
        &mut self,
        state: RepositoryState,
        intent_kind: &str,
        command_id: CommandId,
        command_kind: &str,
        event_kind: &str,
        observed: &str,
        actor: Actor,
        notice: Notice,
        reply: Reply,
    ) -> (r: Result<DomainEvent, StoreError>)
        requires
            old(self).wf(),
            state.event_sequence < i64::MAX,
            state.queue_revision <= i64::MAX,
        ensures
            final(self).wf(),
            ({
                let after = numbered(state, (state.event_sequence + 1) as u64);
                if can_tell(
                    old(self)@,
                    state.id,
                    after.event_sequence,
                    notice.id,
                    Some(command_id),
                ) {
                    r matches Ok(event) && event@ == noticed(
                        notice,
                        state.id,
                        after.event_sequence,
                        actor,
                        Some(command_id),
                        event_kind@,
                    ) && final(self)@ == (Books {
                        intents: moved_on(
                            old(self)@.intents,
                            completing(
                                command_id,
                                state.id,
                                intent_kind@,
                                FromStates::Recoverable,
                            ),
                            IntentState::Completed,
                            observed@,
                        ),
                        reservations: released(old(self)@.reservations, command_id),
                        ..concluded(
                            old(self)@,
                            after,
                            event@,
                            Some(
                                replied(reply, command_id, command_kind@, after.event_sequence),
                            ),
                        )
                    })
                } else {
                    final(self)@ == old(self)@ && (r matches Err(error) && error is Sql)
                }
            }),
    {
        let sequence: u64 = state.event_sequence + 1;
        let at: usize = match self.check_tell(state.id, sequence, notice.id, Some(command_id)) {
            Ok(at) => at,
            Err(error) => {
                return Err(error);
            },
        };
        let mut after = state;
        after.event_sequence = sequence;
        self.intents.move_on(
            command_id,
            Some(after.id),
            Some(intent_kind),
            FromStates::Recoverable,
            IntentState::Completed,
            observed,
        );
        self.volumes.deactivate_volume_reservation(command_id);
        let event = self.conclude(at, after, actor, Some(command_id), event_kind, notice);
        self.results.record(command_id, command_kind, reply, sequence);
        Ok(event)
    }

    /// Records that an item has been promoted; the state has the number of the event
    /// already.
    pub fn record_promotion(
        &mut self,
        state: RepositoryState,
        item: QueueItem,
        certificate: &PassCertificate,
        old_master: &[u8],
        observed: &str,
        notice: Notice,
    ) -> (r: Result<DomainEvent, StoreError>)
        requires
            old(self).wf(),
            state.event_sequence <= i64::MAX,
            state.queue_revision <= i64::MAX,
        ensures
            final(self).wf(),
            if can_tell(old(self)@, state.id, state.event_sequence, notice.id, None) && has_item(
                keys_of(old(self)@.items),
                item.id,
            ) && has_certificate(old(self)@.certificates, certificate.id) {
                let intents = promotions_completed(old(self)@.intents, state.id, observed@);
                r matches Ok(event) && event@ == noticed(
                    notice,
                    state.id,
                    state.event_sequence,
                    Actor::App,
                    None,
                    "promotion.completed"@,
                ) && final(self)@ == (Books {
                    items: finished(old(self)@.items, item),
                    promotions: promoted_too(
                        old(self)@.promotions,
                        promotion_of(item, *certificate, old_master@, state.event_sequence),
                    ),
                    intents,
                    reservations: promotions_released(
                        old(self)@.reservations,
                        intents,
                        state.id,
                        intents.len(),
                    ),
                    ..concluded(old(self)@, state, event@, None)
                })
            } else {
                final(self)@ == old(self)@ && (r matches Err(error) && error is Sql)
            },
    {
        let at: usize = match self.check_tell(state.id, state.event_sequence, notice.id, None) {
            Ok(at) => at,
            Err(error) => {
                return Err(error);
            },
        };
        if !self.items.holds(item.id) || !self.certificates.holds(certificate.id) {
            return Err(refused("FOREIGN KEY constraint failed"));
        }
        let repository = state.id;
        let source = item.source_oid.as_bytes();
        let tested = certificate.tested_oid.as_bytes();
        let row = PromotionRow {
            item_id: item.id,
            source: copy_range(source, 0, source.len()),
            promoted: copy_range(tested, 0, tested.len()),
            old_master: copy_range(old_master, 0, old_master.len()),
            certificate_id: certificate.id,
            event_sequence: state.event_sequence as i64,
        };
        assert(row@ =~= promotion_of(item, *certificate, old_master@, state.event_sequence));
        self.promotions.record(row);
        self.items.finish(item);
        self.intents.complete_promotions(repository, observed);
        let ghost rows = self@.reservations;
        let ghost infos = self@.intents;
        let ghost before = self@;
        let mut i: usize = 0;
        while i < self.intents.rows.len()
            invariant
                i <= self.intents.rows@.len(),
                self.wf(),
                infos == before.intents,
                rows == before.reservations,
                self@ == (Books {
                    reservations: promotions_released(rows, infos, repository, i as nat),
                    ..before
                }),
            decreases self.intents.rows@.len() - i,
        {
            let ghost n = (i + 1) as nat;
            assert((n - 1) as nat == i as nat);
            if self.intents.is_completed_promotion(i, repository) {
                let command = self.intents.rows[i].command_id;
                assert(infos[i as int] == self.intents.rows@[i as int]@);
                self.volumes.deactivate_volume_reservation(command);
            }
            assert(self@.reservations == promotions_released(rows, infos, repository, n));
            i += 1;
        }
        Ok(self.conclude(at, state, Actor::App, None, "promotion.completed", notice))
    }

    /// Records an event as it is, and how far the events have come.
    pub fn append_event(&mut self, event: DomainEvent) -> (r: Result<(), StoreError>)
        requires
            old(self).wf(),
            event.sequence <= i64::MAX,
        ensures
            final(self).wf(),
            r is Ok <==> can_tell(
                old(self)@,
                event.repository_id,
                event.sequence,
                event.id,
                None,
            ),
            r is Ok ==> {
                let row = repository_row(old(self)@.repositories, event.repository_id);
                final(self)@ == (Books {
                    repositories: if row.event_sequence < event.sequence {
                        with_repository(
                            old(self)@.repositories,
                            RepositoryRow { event_sequence: event.sequence, ..row },
                        )
                    } else {
                        old(self)@.repositories
                    },
                    events: old(self)@.events.push(event@),
                    ..old(self)@
                })
            },
            r is Err ==> final(self)@ == old(self)@,
            r matches Err(error) ==> error is Sql,
    {
        let at: usize = match self.check_tell(
            event.repository_id,
            event.sequence,
            event.id,
            None,
        ) {
            Ok(at) => at,
            Err(error) => {
                return Err(error);
            },
        };
        let sequence = event.sequence;
        let appended = self.events.append_event(event);
        assert(appended is Ok);
        if self.repositories.rows[at].event_sequence < sequence {
            self.repositories.raise(at, sequence);
        }
        Ok(())
    }
}

/// Every promotion rests on a certificate that is known.
pub open spec fn all_certified(books: Books) -> bool {
    forall|i: int|
        0 <= i < books.promotions.len() ==> has_certificate(
            books.certificates,
            (#[trigger] books.promotions[i]).certificate_id,
        )
}

/// A promotion that is recorded with a known certificate leaves none without one.
pub proof fn law_every_promotion_is_certified(books: Books, info: PromotionInfo)
    requires
        all_certified(books),
        has_certificate(books.certificates, info.certificate_id),
    ensures
        all_certified(Books { promotions: promoted_too(books.promotions, info), ..books }),
{
    let had = books.promotions;
    let left = without_item(had, info.item_id);
    let all = promoted_too(had, info);
    assert forall|i: int| 0 <= i < all.len() implies has_certificate(
        books.certificates,
        (#[trigger] all[i]).certificate_id,
    ) by {
        if i < left.len() {
            let at = choose|k: int| promotes(had, k, info.item_id);
            let was = if exists|k: int| promotes(had, k, info.item_id) {
                if i < at { i } else { i + 1 }
            } else {
                i
            };
            assert(all[i] == had[was]);
        }
    }
}

} // verus!
