//! The store of a repository: what every operation records, all of it or nothing.

use crate::artifact_table::ArtifactTable;
#[allow(unused_imports)]
use crate::artifact_table::{artifact_infos, ArtifactInfo};
#[allow(unused_imports)]
use crate::attempt_table::Logbook;
use crate::attempt_table::AttemptTable;
use crate::buildset_table::{BuildsetTable, CertificateTable};
#[allow(unused_imports)]
use crate::buildset_table::BuildsetRow;
use crate::configuration_table::{BackupRow, ConfigurationTable};
#[allow(unused_imports)]
use crate::configuration_table::{backup_infos, snapshot_infos, BackupInfo, SnapshotInfo};
use crate::promotion_table::PromotionTable;
#[allow(unused_imports)]
use crate::promotion_table::{promotion_infos, PromotionInfo};
#[allow(unused_imports)]
use crate::model::PassCertificate;
use crate::event::{Actor, DomainEvent};
use crate::event_table::{EventTable, Notice};
#[allow(unused_imports)]
use crate::event_table::{event_infos, event_taken, noticed, EventInfo};
#[allow(unused_imports)]
use crate::generation_batch::can_begin;
use crate::generation_table::GenerationTable;
#[allow(unused_imports)]
use crate::generation_table::GenerationRow;
use crate::ids::{CommandId, EventId, QueueItemId, RepositoryId};
use crate::intent_table::{FromStates, IntentTable};
#[allow(unused_imports)]
use crate::intent_table::{intent_infos, moved_on, IntentFilter, IntentInfo};
use crate::item_table::ItemTable;
#[allow(unused_imports)]
use crate::item_table::{
    can_insert, has_item, has_place, keys_of, new_row, reports, ItemRow, StoreFault,
};
use crate::model::{QueueItem, RepositoryState, ValidationGeneration};
use crate::repository_table::RepositoryTable;
#[allow(unused_imports)]
use crate::repository_table::{
    come_to, has_repository, repository_index, repository_row, told_by_state, with_repository,
    RepositoryRow,
};
use crate::result_table::{Reply, ResultTable};
#[allow(unused_imports)]
use crate::result_table::{has_result, replied, result_infos, ResultInfo};
use crate::seed_table::SeedTable;
#[allow(unused_imports)]
use crate::seed_table::{seed_infos, SeedInfo};
use crate::store::{refused, IntentState, StoreError};
use crate::text::str_equal;
#[allow(unused_imports)]
use crate::text::decimal;
use crate::volume_table::VolumeTable;
#[allow(unused_imports)]
use crate::volume_table::{released, ReservationRow, VolumeRow};
use vstd::prelude::*;

verus! {

/// What the store holds.
#[verifier::ext_equal]
pub struct Books {
    pub repositories: Seq<RepositoryRow>,
    pub items: Seq<ItemRow>,
    pub generations: Seq<GenerationRow>,
    pub intents: Seq<IntentInfo>,
    pub volumes: Seq<VolumeRow>,
    pub reservations: Seq<ReservationRow>,
    pub events: Seq<EventInfo>,
    pub results: Seq<ResultInfo>,
    pub artifacts: Seq<ArtifactInfo>,
    pub seeds: Seq<SeedInfo>,
    pub buildsets: Seq<BuildsetRow>,
    pub certificates: Seq<PassCertificate>,
    pub promotions: Seq<PromotionInfo>,
    pub configurations: Seq<SnapshotInfo>,
    pub logbook: Logbook,
    pub backups: Seq<BackupInfo>,
}

/// The store of a repository.
#[derive(Debug, PartialEq, Eq)]
pub struct RepositoryStore {
    pub repositories: RepositoryTable,
    pub items: ItemTable,
    pub generations: GenerationTable,
    pub intents: IntentTable,
    pub volumes: VolumeTable,
    pub events: EventTable,
    pub results: ResultTable,
    pub artifacts: ArtifactTable,
    pub seeds: SeedTable,
    pub buildsets: BuildsetTable,
    pub certificates: CertificateTable,
    pub promotions: PromotionTable,
    pub configurations: ConfigurationTable,
    pub attempts: AttemptTable,
    pub backups: Vec<BackupRow>,
}

impl View for RepositoryStore {
    type V = Books;

    open spec fn view(&self) -> Books {
        Books {
            repositories: self.repositories.rows@,
            items: self.items.rows@,
            generations: self.generations.rows@,
            intents: intent_infos(self.intents.rows@),
            volumes: self.volumes.volumes@,
            reservations: self.volumes.reservations@,
            events: event_infos(self.events.rows@),
            results: result_infos(self.results.rows@),
            artifacts: artifact_infos(self.artifacts.rows@),
            seeds: seed_infos(self.seeds.rows@),
            buildsets: self.buildsets.rows@,
            certificates: self.certificates.rows@,
            promotions: promotion_infos(self.promotions.rows@),
            configurations: snapshot_infos(self.configurations.rows@),
            logbook: self.attempts@,
            backups: backup_infos(self.backups@),
        }
    }
}

/// Why an operation is refused.
pub enum Refusal {
    Constraint,
    Revision { expected: u64, actual: u64 },
    Broken(Seq<char>),
    Rows(StoreFault),
}

impl Refusal {
    /// The error reports the refusal.
    pub open spec fn told_by(self, error: StoreError) -> bool {
        match self {
            Refusal::Constraint => error is Sql,
            Refusal::Revision { expected, actual } => error == (StoreError::RevisionConflict {
                expected,
                actual,
            }),
            Refusal::Broken(reason) => error.broken(reason),
            Refusal::Rows(fault) => reports(error, fault),
        }
    }
}

/// The repository is known, and the event and the answer can be recorded.
pub open spec fn can_tell(
    books: Books,
    repository: RepositoryId,
    sequence: u64,
    event: EventId,
    command: Option<CommandId>,
) -> bool {
    &&& has_repository(books.repositories, repository)
    &&& !event_taken(books.events, repository, sequence, event)
    &&& command matches Some(command) ==> !has_result(books.results, command)
}

/// The number of the next event of a repository.
pub open spec fn next_sequence(books: Books, repository: RepositoryId) -> u64 {
    (repository_row(books.repositories, repository).event_sequence + 1) as u64
}

/// The validation belongs to the item, or to one that is stored.
pub open spec fn is_of_known_item(
    books: Books,
    generation: ValidationGeneration,
    item: QueueItemId,
) -> bool {
    generation.item_id == item || has_item(keys_of(books.items), generation.item_id)
}

/// The rows of an item and its first validation can be stored.
pub open spec fn can_take_up(
    books: Books,
    item: QueueItem,
    generation: Option<ValidationGeneration>,
    with_dependencies: bool,
) -> bool {
    &&& has_place(keys_of(books.items), item)
    &&& with_dependencies ==> can_insert(keys_of(books.items), item)
    &&& generation matches Some(generation) ==> can_begin(
        books.generations,
        generation.id,
        generation.item_id,
    ) && is_of_known_item(books, generation, item.id)
}

/// What stands against completing an approval.
pub open spec fn approval_refusal(
    books: Books,
    item: QueueItem,
    generation: Option<ValidationGeneration>,
    expected_revision: u64,
    command: CommandId,
    event: EventId,
) -> Option<Refusal> {
    let repository = item.repository_id;
    let row = repository_row(books.repositories, repository);
    if !has_repository(books.repositories, repository) {
        Some(Refusal::Constraint)
    } else if row.queue_revision != expected_revision {
        Some(Refusal::Revision { expected: expected_revision, actual: row.queue_revision })
    } else if can_take_up(books, item, generation, true) && can_tell(
        books,
        repository,
        next_sequence(books, repository),
        event,
        Some(command),
    ) {
        None
    } else {
        Some(Refusal::Constraint)
    }
}

/// The books after a command has been carried out on an item that is new.
pub open spec fn taken_into_books(
    books: Books,
    item: QueueItem,
    active: bool,
    generation: Option<ValidationGeneration>,
    revision: u64,
    command: CommandId,
    observed: Seq<char>,
    event: EventInfo,
    answer: ResultInfo,
) -> Books {
    let repository = item.repository_id;
    Books {
        repositories: with_repository(
            books.repositories,
            come_to(
                repository_row(books.repositories, repository),
                revision,
                next_sequence(books, repository),
            ),
        ),
        items: books.items.push(new_row(item, active)),
        generations: match generation {
            Some(generation) => books.generations.push(
                GenerationRow { generation, current: true },
            ),
            None => books.generations,
        },
        intents: moved_on(
            books.intents,
            IntentFilter {
                command,
                repository: Some(repository),
                kind: Some("approval"@),
                from: FromStates::Prepared,
            },
            IntentState::Completed,
            observed,
        ),
        reservations: released(books.reservations, command),
        events: books.events.push(event),
        results: books.results.push(answer),
        ..books
    }
}

/// The kind of event that an approval is.
pub open spec fn approval_kind(command_kind: Seq<char>) -> Seq<char> {
    if command_kind == "candidate"@ {
        "candidate.created"@
    } else {
        "queue.item-enqueued"@
    }
}

/// The state of a repository that has come to another number.
pub open spec fn numbered(state: RepositoryState, sequence: u64) -> RepositoryState {
    RepositoryState { event_sequence: sequence, ..state }
}

impl RepositoryStore {
    /// The store holds together.
    pub open spec fn wf(self) -> bool {
        &&& self.repositories.wf()
        &&& self.items.wf()
        &&& self.generations.wf()
        &&& self.volumes.wf()
        &&& self.events.wf()
        &&& self.results.wf()
        &&& self.artifacts.wf()
        &&& self.seeds.wf()
        &&& self.buildsets.wf()
        &&& self.certificates.wf()
        &&& self.promotions.wf()
        &&& self.configurations.wf()
    }

    /// The numbers of a repository can still grow.
    pub open spec fn has_room(self, repository: RepositoryId) -> bool {
        has_repository(self@.repositories, repository) ==> {
            let row = repository_row(self@.repositories, repository);
            row.queue_revision < i64::MAX && row.event_sequence < i64::MAX
        }
    }

    /// A store that holds nothing.
    pub fn open_in_memory() -> (r: RepositoryStore)
        ensures
            r.wf(),
            r@ == (Books {
                repositories: Seq::empty(),
                items: Seq::empty(),
                generations: Seq::empty(),
                intents: Seq::empty(),
                volumes: Seq::empty(),
                reservations: Seq::empty(),
                events: Seq::empty(),
                results: Seq::empty(),
                artifacts: Seq::empty(),
                seeds: Seq::empty(),
                buildsets: Seq::empty(),
                certificates: Seq::empty(),
                promotions: Seq::empty(),
                configurations: Seq::empty(),
                logbook: (Logbook {
                    steps: Seq::empty(),
                    attempts: Seq::empty(),
                    streams: Seq::empty(),
                }),
                backups: Seq::empty(),
            }),
    {
        let store = RepositoryStore {
            repositories: RepositoryTable::new(),
            items: ItemTable::new(),
            generations: GenerationTable::new(),
            intents: IntentTable::new(),
            volumes: VolumeTable::new(),
            events: EventTable::new(),
            results: ResultTable::new(),
            artifacts: ArtifactTable::new(),
            seeds: SeedTable::new(),
            buildsets: BuildsetTable::new(),
            certificates: CertificateTable::new(),
            promotions: PromotionTable::new(),
            configurations: ConfigurationTable::new(),
            attempts: AttemptTable::new(),
            backups: Vec::new(),
        };
        assert(store@.repositories =~= Seq::empty());
        assert(store@.items =~= Seq::empty());
        assert(store@.generations =~= Seq::empty());
        assert(store@.intents =~= Seq::empty());
        assert(store@.volumes =~= Seq::empty());
        assert(store@.reservations =~= Seq::empty());
        assert(store@.events =~= Seq::empty());
        assert(store@.results =~= Seq::empty());
        assert(store@.artifacts =~= Seq::empty());
        assert(store@.seeds =~= Seq::empty());
        assert(store@.buildsets =~= Seq::empty());
        assert(store@.certificates =~= Seq::empty());
        assert(store@.promotions =~= Seq::empty());
        assert(store@.configurations =~= Seq::empty());
        assert(store@.backups =~= Seq::empty());
        store
    }

    /// Takes up a repository, or replaces its state.
    pub fn initialize_repository(&mut self, state: RepositoryState)
        requires
            old(self).wf(),
            state.queue_revision <= i64::MAX,
            state.event_sequence <= i64::MAX,
        ensures
            final(self).wf(),
            final(self)@ == (Books {
                repositories: if has_repository(old(self)@.repositories, state.id) {
                    with_repository(old(self)@.repositories, told_by_state(state))
                } else {
                    old(self)@.repositories.push(told_by_state(state))
                },
                ..old(self)@
            }),
    {
        self.repositories.initialize_repository(state);
    }

    /// The state of the repository that the store is for.
    pub fn repository_state(&self) -> (r: Result<&RepositoryState, StoreError>)
        ensures
            match r {
                Ok(state) => self@.repositories.len() == 1 && *state
                    == self@.repositories[0].state,
                Err(error) => if self@.repositories.len() == 0 {
                    error == StoreError::RepositoryMissing
                } else {
                    self@.repositories.len() > 1 && error.broken(
                        "repository database contains "@ + decimal(self@.repositories.len())
                            + " competing identities"@,
                    )
                },
            },
    {
        self.repositories.repository_state()
    }

    /// Replaces the state of a repository that is known.
    pub fn update_repository_state(&mut self, state: RepositoryState) -> (r: Result<
        (),
        StoreError,
    >)
        requires
            old(self).wf(),
            state.queue_revision <= i64::MAX,
            state.event_sequence <= i64::MAX,
        ensures
            final(self).wf(),
            r is Ok <==> has_repository(old(self)@.repositories, state.id),
            r is Ok ==> final(self)@ == (Books {
                repositories: with_repository(old(self)@.repositories, told_by_state(state)),
                ..old(self)@
            }),
            r is Err ==> final(self)@ == old(self)@,
            r matches Err(error) ==> error == StoreError::RepositoryMissing,
    {
        self.repositories.update_repository_state(state)
    }

    /// Checks that an event, and the answer to a command, can be recorded.
    pub(crate) fn check_tell(
        &self,
        repository: RepositoryId,
        sequence: u64,
        event: EventId,
        command: Option<CommandId>,
    ) -> (r: Result<usize, StoreError>)
        requires
            self.wf(),
        ensures
            r is Ok <==> can_tell(self@, repository, sequence, event, command),
            r matches Ok(at) ==> at < self@.repositories.len() && repository_index(
                self@.repositories,
                repository,
            ) == at && self@.repositories[at as int].state.id == repository,
            r matches Err(error) ==> error is Sql,
    {
        let at: usize = match self.repositories.find(repository) {
            Some(at) => at,
            None => {
                return Err(refused("FOREIGN KEY constraint failed"));
            },
        };
        if self.events.is_taken(repository, sequence, event) {
            return Err(refused("UNIQUE constraint failed: events.repository_id, events.sequence"));
        }
        if let Some(command) = command {
            match self.results.check_new(command) {
                Ok(()) => {},
                Err(error) => {
                    return Err(error);
                },
            }
        }
        Ok(at)
    }

    fn check_take_up(
        &self,
        item: &QueueItem,
        generation: &Option<ValidationGeneration>,
        with_dependencies: bool,
    ) -> (r: Result<(), StoreError>)
        requires
            self.wf(),
            item.enqueue_sequence <= i64::MAX,
        ensures
            r is Ok <==> can_take_up(self@, *item, *generation, with_dependencies),
            r matches Err(error) ==> error is Sql,
    {
        let placed = if with_dependencies {
            self.items.check_insert(item)
        } else {
            self.items.check_place(item)
        };
        match placed {
            Ok(()) => {},
            Err(error) => {
                return Err(error);
            },
        }
        if let Some(generation) = generation {
            match self.generations.check_first(generation.id, generation.item_id) {
                Ok(()) => {},
                Err(error) => {
                    return Err(error);
                },
            }
            if generation.item_id.0 != item.id.0 && !self.items.holds(generation.item_id) {
                return Err(refused("FOREIGN KEY constraint failed"));
            }
        }
        Ok(())
    }

    /// Stores an item and its first validation, and tells of it.
    fn take_into(
        &mut self,
        at: usize,
        item: QueueItem,
        active: bool,
        generation: Option<ValidationGeneration>,
        revision: u64,
        actor: Actor,
        command: CommandId,
        command_kind: &str,
        event_kind: &str,
        observed: &str,
        notice: Notice,
        reply: Reply,
    ) -> (r: DomainEvent)
        requires
            old(self).wf(),
            item.enqueue_sequence <= i64::MAX,
            can_take_up(old(self)@, item, generation, false),
            can_tell(
                old(self)@,
                item.repository_id,
                next_sequence(old(self)@, item.repository_id),
                notice.id,
                Some(command),
            ),
            at < old(self)@.repositories.len(),
            repository_index(old(self)@.repositories, item.repository_id) == at,
            revision <= i64::MAX,
            old(self)@.repositories[at as int].event_sequence < i64::MAX,
        ensures
            final(self).wf(),
            r@ == noticed(
                notice,
                item.repository_id,
                next_sequence(old(self)@, item.repository_id),
                actor,
                Some(command),
                event_kind@,
            ),
            final(self)@ == taken_into_books(
                old(self)@,
                item,
                active,
                generation,
                revision,
                command,
                observed@,
                r@,
                replied(
                    reply,
                    command,
                    command_kind@,
                    next_sequence(old(self)@, item.repository_id),
                ),
            ),
    {
        let repository = item.repository_id;
        let sequence: u64 = self.repositories.rows[at].event_sequence + 1;
        self.items.insert(item, active);
        if let Some(generation) = generation {
            self.generations.begin(generation);
        }
        self.repositories.advance(at, revision, sequence);
        self.intents.move_on(
            command,
            Some(repository),
            Some("approval"),
            FromStates::Prepared,
            IntentState::Completed,
            observed,
        );
        self.volumes.deactivate_volume_reservation(command);
        let event = self.events.publish(
            notice,
            repository,
            sequence,
            actor,
            Some(command),
            event_kind,
        );
        self.results.record(command, command_kind, reply, sequence);
        event
    }

    /// Completes an approval: the item enters the queue. The queue must not have changed
    /// since the approval was prepared.
    pub fn complete_approval(
        &mut self,
        item: QueueItem,
        generation: Option<ValidationGeneration>,
        expected_revision: u64,
        actor: Actor,
        command_id: CommandId,
        command_kind: &str,
        observed: &str,
        notice: Notice,
        reply: Reply,
    ) -> (r: Result<DomainEvent, StoreError>)
        requires
            old(self).wf(),
            old(self).has_room(item.repository_id),
            item.enqueue_sequence <= i64::MAX,
        ensures
            final(self).wf(),
            match approval_refusal(
                old(self)@,
                item,
                generation,
                expected_revision,
                command_id,
                notice.id,
            ) {
                Some(refusal) => final(self)@ == old(self)@ && (r matches Err(error)
                    && refusal.told_by(error)),
                None => r matches Ok(event) && event@ == noticed(
                    notice,
                    item.repository_id,
                    next_sequence(old(self)@, item.repository_id),
                    actor,
                    Some(command_id),
                    approval_kind(command_kind@),
                ) && final(self)@ == taken_into_books(
                    old(self)@,
                    item,
                    !item.state.terminal(),
                    generation,
                    (expected_revision + 1) as u64,
                    command_id,
                    observed@,
                    event@,
                    replied(
                        reply,
                        command_id,
                        command_kind@,
                        next_sequence(old(self)@, item.repository_id),
                    ),
                ),
            },
    {
        let repository = item.repository_id;
        let at: usize = match self.repositories.find(repository) {
            Some(at) => at,
            None => {
                return Err(refused("Query returned no rows"));
            },
        };
        let revision = self.repositories.rows[at].queue_revision;
        let sequence: u64 = self.repositories.rows[at].event_sequence + 1;
        if revision != expected_revision {
            return Err(
                StoreError::RevisionConflict { expected: expected_revision, actual: revision },
            );
        }
        match self.check_take_up(&item, &generation, true) {
            Ok(()) => {},
            Err(error) => {
                return Err(error);
            },
        }
        match self.check_tell(repository, sequence, notice.id, Some(command_id)) {
            Ok(_) => {},
            Err(error) => {
                return Err(error);
            },
        }
        let active = !item.state.is_terminal();
        let kind = if str_equal(command_kind, "candidate") {
            "candidate.created"
        } else {
            "queue.item-enqueued"
        };
        Ok(
            self.take_into(
                at,
                item,
                active,
                generation,
                revision + 1,
                actor,
                command_id,
                command_kind,
                kind,
                observed,
                notice,
                reply,
            ),
        )
    }

    /// Completes the preparation of a check: the item is stored, and the queue is left as it
    /// is.
    pub fn complete_check(
        &mut self,
        item: QueueItem,
        generation: ValidationGeneration,
        actor: Actor,
        command_id: CommandId,
        observed: &str,
        notice: Notice,
        reply: Reply,
    ) -> (r: Result<DomainEvent, StoreError>)
        requires
            old(self).wf(),
            old(self).has_room(item.repository_id),
            item.enqueue_sequence <= i64::MAX,
        ensures
            final(self).wf(),
            if can_take_up(old(self)@, item, Some(generation), false) && can_tell(
                old(self)@,
                item.repository_id,
                next_sequence(old(self)@, item.repository_id),
                notice.id,
                Some(command_id),
            ) {
                r matches Ok(event) && event@ == noticed(
                    notice,
                    item.repository_id,
                    next_sequence(old(self)@, item.repository_id),
                    actor,
                    Some(command_id),
                    "check.started"@,
                ) && final(self)@ == taken_into_books(
                    old(self)@,
                    item,
                    true,
                    Some(generation),
                    repository_row(old(self)@.repositories, item.repository_id).queue_revision,
                    command_id,
                    observed@,
                    event@,
                    replied(
                        reply,
                        command_id,
                        "check"@,
                        next_sequence(old(self)@, item.repository_id),
                    ),
                )
            } else {
                final(self)@ == old(self)@ && (r matches Err(error) && error is Sql)
            },
    {
        let repository = item.repository_id;
        let at: usize = match self.repositories.find(repository) {
            Some(at) => at,
            None => {
                return Err(refused("Query returned no rows"));
            },
        };
        let revision = self.repositories.rows[at].queue_revision;
        let sequence: u64 = self.repositories.rows[at].event_sequence + 1;
        let generation = Some(generation);
        match self.check_take_up(&item, &generation, false) {
            Ok(()) => {},
            Err(error) => {
                return Err(error);
            },
        }
        match self.check_tell(repository, sequence, notice.id, Some(command_id)) {
            Ok(_) => {},
            Err(error) => {
                return Err(error);
            },
        }
        Ok(
            self.take_into(
                at,
                item,
                true,
                generation,
                revision,
                actor,
                command_id,
                "check",
                "check.started",
                observed,
                notice,
                reply,
            ),
        )
    }
}

/// An approval that is refused leaves the store as it was, and one whose queue has changed
/// is refused.
pub proof fn law_stale_approvals_are_refused(
    books: Books,
    item: QueueItem,
    generation: Option<ValidationGeneration>,
    expected_revision: u64,
    command: CommandId,
    event: EventId,
)
    requires
        has_repository(books.repositories, item.repository_id),
        repository_row(books.repositories, item.repository_id).queue_revision
            != expected_revision,
    ensures
        approval_refusal(books, item, generation, expected_revision, command, event) == Some(
            Refusal::Revision {
                expected: expected_revision,
                actual: repository_row(books.repositories, item.repository_id).queue_revision,
            },
        ),
{
}

} // verus!
