//! How the books of a repository go on from one entry to the next.

#[allow(unused_imports)]
use crate::artifact_table::{is_expired, ArtifactInfo};
#[allow(unused_imports)]
use crate::buildset_table::{
    build_row, builds_compete, can_build, can_certify, certificates_sound, has_buildset,
    is_building, rebuilt, BuildsetRow,
};
#[allow(unused_imports)]
use crate::event::Actor;
#[allow(unused_imports)]
use crate::event_table::{event_taken, is_after, noticed, EventInfo, Notice};
#[allow(unused_imports)]
use crate::generation_batch::{all_reactivated, all_recorded, can_begin, first_unavailable};
#[allow(unused_imports)]
use crate::generation_table::{counts_for, has_generation, is_retained, GenerationRow};
#[allow(unused_imports)]
use crate::ids::{BuildsetId, CommandId, EventId, RepositoryId, ValidationGenerationId};
#[allow(unused_imports)]
use crate::intent_table::{FromStates, IntentInfo};
#[allow(unused_imports)]
use crate::item_table::new_row;
#[allow(unused_imports)]
use crate::model::{
    Buildset, PassCertificate, QueueItem, RepositoryState, Timestamp, ValidationGeneration,
};
#[allow(unused_imports)]
use crate::repository_cache::{next_state, releases, told};
#[allow(unused_imports)]
use crate::repository_ops::{authorization_refusal, concluded, projection_sequence};
#[allow(unused_imports)]
use crate::repository_reads::{operations, waiting_approvals};
#[allow(unused_imports)]
use crate::repository_records::{completed_of, fresh_artifact};
#[allow(unused_imports)]
use crate::repository_store::{
    approval_kind, approval_refusal, can_take_up, can_tell, next_sequence, numbered,
    taken_into_books, Books, Refusal,
};
#[allow(unused_imports)]
use crate::repository_table::{
    come_to, has_repository, repositories_sound, repository_at, repository_index, repository_row,
    restated, told_by_state, with_repository, RepositoryRow,
};
#[allow(unused_imports)]
use crate::result_table::{has_result, replied, same_request, Reply, ResultInfo};
#[allow(unused_imports)]
use crate::seqs::lemma_filter_members;
#[allow(unused_imports)]
use crate::state::{BuildsetEvent, BuildsetState};
#[allow(unused_imports)]
use crate::store::{
    migration_of, recent_enough, version_part, IntentState, MigrationPlan, SCHEMA_VERSION,
};
#[allow(unused_imports)]
use crate::text::split_text;
use vstd::prelude::*;

verus! {

/// The next event of a repository has the next number, and nothing else of the repository
/// changes with it; an event about an item has a number that neither the books nor the
/// state has used.
pub proof fn law_events_are_numbered_on(books: Books, state: RepositoryState)
    requires
        state.event_sequence < u64::MAX,
        repository_row(books.repositories, state.id).event_sequence < u64::MAX,
    ensures
        next_state(state).event_sequence == state.event_sequence + 1,
        next_state(state) == (RepositoryState {
            event_sequence: next_state(state).event_sequence,
            ..state
        }),
        next_sequence(books, state.id) == repository_row(
            books.repositories,
            state.id,
        ).event_sequence + 1,
        projection_sequence(books, state) > state.event_sequence,
        projection_sequence(books, state) > repository_row(
            books.repositories,
            state.id,
        ).event_sequence,
        projection_sequence(books, state) == state.event_sequence + 1 || projection_sequence(
            books,
            state,
        ) == next_sequence(books, state.id),
{
}

/// Replacing the row of a repository replaces that row, and touches no other repository.
pub proof fn law_rows_are_replaced_one_by_one(
    rows: Seq<RepositoryRow>,
    row: RepositoryRow,
    other: RepositoryId,
)
    requires
        repositories_sound(rows),
        has_repository(rows, row.state.id),
    ensures
        repository_row(with_repository(rows, row), row.state.id) == row,
        other != row.state.id && has_repository(rows, other) ==> has_repository(
            with_repository(rows, row),
            other,
        ) && repository_row(with_repository(rows, row), other) == repository_row(rows, other),
        with_repository(rows, row).len() == rows.len(),
{
    let at = repository_index(rows, row.state.id);
    let after = with_repository(rows, row);
    assert(repository_at(rows, at, row.state.id));
    assert(repository_at(after, at, row.state.id));
    let found = repository_index(after, row.state.id);
    assert(repository_at(after, found, row.state.id));
    if found != at {
        assert(after[found] == rows[found]);
    }
    if other != row.state.id && has_repository(rows, other) {
        let was = repository_index(rows, other);
        assert(repository_at(rows, was, other));
        assert(after[was] == rows[was]);
        assert(repository_at(after, was, other));
        let now = repository_index(after, other);
        assert(repository_at(after, now, other));
        assert(now != at);
        assert(after[now] == rows[now]);
        if now < was {
            assert(rows[now].state.id != rows[was].state.id);
        } else if was < now {
            assert(rows[was].state.id != rows[now].state.id);
        }
    }
}

/// A repository whose queue has changed says its new revision both in its row and in its
/// state; one that is only told of keeps the revision of its queue.
pub proof fn law_revisions_change_with_the_queue(
    row: RepositoryRow,
    state: RepositoryState,
    revision: u64,
    sequence: u64,
)
    ensures
        come_to(row, revision, sequence).queue_revision == revision,
        come_to(row, revision, sequence).state.queue_revision == revision,
        come_to(row, revision, sequence).event_sequence == sequence,
        come_to(row, revision, sequence).state.event_sequence == sequence,
        come_to(row, revision, sequence).state.id == row.state.id,
        restated(row, state).queue_revision == row.queue_revision,
        restated(row, state).state == state,
        restated(row, state).event_sequence == state.event_sequence,
        told_by_state(state).state == state,
        told_by_state(state).queue_revision == state.queue_revision,
        told_by_state(state).event_sequence == state.event_sequence,
        numbered(state, sequence).event_sequence == sequence,
        numbered(state, sequence).queue_revision == state.queue_revision,
{
}

/// What a command has spoken for is released exactly when its operation is no longer under
/// way.
pub proof fn law_room_is_released_at_the_end(state: IntentState)
    ensures
        releases(state) <==> !state.open_state(),
{
}

/// Telling of something adds its event and its answer, and leaves items, operations,
/// promotions and everything else of the books alone.
pub proof fn law_telling_changes_nothing_else(
    books: Books,
    state: RepositoryState,
    event: EventInfo,
    answer: Option<ResultInfo>,
)
    ensures
        ({
            let after = told(books, state, event, answer);
            let end = concluded(books, state, event, answer);
            &&& after.events == books.events.push(event)
            &&& end.events == books.events.push(event)
            &&& answer matches Some(given) ==> after.results == books.results.push(given)
                && end.results == books.results.push(given)
            &&& answer is None ==> after.results == books.results && end.results == books.results
            &&& after == (Books {
                repositories: after.repositories,
                events: after.events,
                results: after.results,
                ..books
            })
            &&& end == (Books {
                repositories: end.repositories,
                events: end.events,
                results: end.results,
                ..books
            })
        }),
{
}

/// An item that is taken up stands behind the others with all that was said of it; its
/// approval is completed, its event and its answer are recorded, what its command had
/// spoken for is released, and nothing else changes.
pub proof fn law_items_are_taken_up_whole(
    books: Books,
    item: QueueItem,
    active: bool,
    generation: Option<ValidationGeneration>,
    revision: u64,
    command: CommandId,
    observed: Seq<char>,
    event: EventInfo,
    answer: ResultInfo,
    i: int,
)
    ensures
        ({
            let after = taken_into_books(
                books,
                item,
                active,
                generation,
                revision,
                command,
                observed,
                event,
                answer,
            );
            &&& after.items.drop_last() == books.items
            &&& after.items.last().item == item
            &&& after.items.last().active == active
            &&& after.items.last().repository_id == item.repository_id
            &&& generation matches Some(new) ==> after.generations.drop_last()
                == books.generations && after.generations.last().generation == new
                && after.generations.last().current
            &&& generation is None ==> after.generations == books.generations
            &&& after.events == books.events.push(event)
            &&& after.results == books.results.push(answer)
            &&& after.promotions == books.promotions
            &&& after.certificates == books.certificates
            &&& after.artifacts == books.artifacts
            &&& 0 <= i < books.intents.len() && books.intents[i].command_id == command
                && books.intents[i].repository_id == item.repository_id && books.intents[i].kind
                == "approval"@ && books.intents[i].state == IntentState::Prepared
                ==> after.intents[i].state == IntentState::Completed
                && after.intents[i].observed == Some(observed)
            &&& 0 <= i < books.intents.len() && (books.intents[i].command_id != command
                || books.intents[i].kind != "approval"@) ==> after.intents[i] == books.intents[i]
            &&& 0 <= i < books.reservations.len() ==> (after.reservations[i].active
                <==> books.reservations[i].active && books.reservations[i].command_id != command)
        }),
{
    let after = taken_into_books(
        books,
        item,
        active,
        generation,
        revision,
        command,
        observed,
        event,
        answer,
    );
    assert(after.items.drop_last() =~= books.items);
    if generation is Some {
        assert(after.generations.drop_last() =~= books.generations);
    }
}

/// An approval is completed only at the revision that was expected, for a repository that is
/// known, with a place for its item and a number for its event; and then it is.
pub proof fn law_approvals_are_completed_as_expected(
    books: Books,
    item: QueueItem,
    generation: Option<ValidationGeneration>,
    expected_revision: u64,
    command: CommandId,
    event: EventId,
)
    ensures
        ({
            let row = repository_row(books.repositories, item.repository_id);
            let refusal = approval_refusal(
                books,
                item,
                generation,
                expected_revision,
                command,
                event,
            );
            &&& refusal is None <==> has_repository(books.repositories, item.repository_id)
                && row.queue_revision == expected_revision && can_take_up(
                books,
                item,
                generation,
                true,
            ) && can_tell(
                books,
                item.repository_id,
                next_sequence(books, item.repository_id),
                event,
                Some(command),
            )
            &&& refusal matches Some(Refusal::Revision { expected, actual }) ==> expected
                == expected_revision && actual == row.queue_revision && expected != actual
            &&& refusal is None ==> !has_result(books.results, command)
        }),
{
}

/// A candidate is authorized only at the revision that was expected, and only with items.
pub proof fn law_candidates_are_authorized_as_expected(
    books: Books,
    state: RepositoryState,
    items: Seq<QueueItem>,
    generations: Seq<ValidationGeneration>,
    restored: Seq<ValidationGeneration>,
    expected_revision: u64,
    command: CommandId,
    event: EventId,
)
    requires
        authorization_refusal(
            books,
            state,
            items,
            generations,
            restored,
            expected_revision,
            command,
            event,
        ) is None,
    ensures
        has_repository(books.repositories, state.id),
        repository_row(books.repositories, state.id).queue_revision == expected_revision,
        items.len() > 0,
        all_recorded(books.generations, generations, generations.len()) is Some,
        !has_result(books.results, command),
{
}

/// A candidate is told of as a candidate, anything else as an item of the queue.
pub proof fn law_candidates_are_told_apart(kind: Seq<char>)
    ensures
        approval_kind("candidate"@) == "candidate.created"@,
        kind != "candidate"@ ==> approval_kind(kind) == "queue.item-enqueued"@,
        approval_kind("candidate"@) != "queue.item-enqueued"@,
{
    reveal_strlit("candidate.created");
    reveal_strlit("queue.item-enqueued");
    assert("candidate.created"@.len() == 17 && "queue.item-enqueued"@.len() == 19);
}

/// An event is recorded as it was noticed, under the number and for the repository that it is
/// about, and an answer under its command.
pub proof fn law_notices_are_recorded_as_given(
    notice: Notice,
    repository: RepositoryId,
    sequence: u64,
    actor: Actor,
    command: CommandId,
    kind: Seq<char>,
    reply: Reply,
)
    ensures
        ({
            let event = noticed(notice, repository, sequence, actor, Some(command), kind);
            let answer = replied(reply, command, kind, sequence);
            &&& event.id == notice.id && event.payload == notice.payload@ && event.created_at
                == notice.created_at
            &&& event.repository_id == repository && event.sequence == sequence
            &&& event.actor == actor && event.command_id == Some(command) && event.kind == kind
            &&& answer.command_id == command && answer.command_kind == kind
            &&& answer.response == reply.response@ && answer.event_sequence == sequence
            &&& same_request(answer, kind, reply.request_digest@)
        }),
{
}

/// An answer is given again only to the same request: another kind, or another request under
/// the same command, is another one.
pub proof fn law_requests_are_told_apart(
    info: ResultInfo,
    kind: Seq<char>,
    digest: Seq<char>,
    other: Seq<char>,
)
    ensures
        same_request(info, kind, digest) && same_request(info, kind, other) ==> digest == other,
        same_request(info, kind, digest) && same_request(info, other, digest) ==> kind == other,
{
}

/// A recorded event takes its number in its repository and its name everywhere; the numbers of
/// other repositories stay free.
pub proof fn law_numbers_are_taken_once(
    infos: Seq<EventInfo>,
    event: EventInfo,
    other: RepositoryId,
    id: EventId,
)
    ensures
        event_taken(infos.push(event), event.repository_id, event.sequence, id),
        event_taken(infos.push(event), other, event.sequence, event.id),
        other != event.repository_id && id != event.id && !event_taken(
            infos,
            other,
            event.sequence,
            id,
        ) ==> !event_taken(infos.push(event), other, event.sequence, id),
{
    let after = infos.push(event);
    assert(after[infos.len() as int] == event);
    if event_taken(after, other, event.sequence, id) && other != event.repository_id && id
        != event.id {
        let i = choose|i: int|
            0 <= i < after.len() && crate::event_table::clashes(
                #[trigger] after[i],
                other,
                event.sequence,
                id,
            );
        assert(i < infos.len());
        assert(after[i] == infos[i]);
    }
}

/// What comes after a number has a greater one.
pub proof fn law_later_events_have_greater_numbers(info: EventInfo, sequence: u64)
    requires
        sequence <= i64::MAX,
    ensures
        is_after(info, sequence) <==> info.sequence > sequence,
        !is_after(info, info.sequence) || info.sequence > i64::MAX,
{
}

/// The operations that are told are those of the kinds and in the states that were asked
/// for, all of them and no others; so are the approvals that wait and what was completed.
pub proof fn law_operations_are_told_as_asked(
    infos: Seq<IntentInfo>,
    kinds: Seq<Seq<char>>,
    from: FromStates,
    kind: Seq<char>,
    i: int,
)
    requires
        0 <= i < infos.len(),
    ensures
        operations(infos, kinds, from).contains(infos[i]) <==> kinds.contains(infos[i].kind)
            && from.has(infos[i].state),
        waiting_approvals(infos).contains(infos[i]) <==> infos[i].kind == "approval"@
            && infos[i].state == IntentState::Prepared,
        completed_of(infos, kind).contains(infos[i]) <==> infos[i].kind == kind && infos[i].state
            == IntentState::Completed,
{
    lemma_filter_members(
        infos,
        |info: IntentInfo| crate::intent_table::selected(info, kinds, from),
    );
    lemma_filter_members(
        infos,
        |info: IntentInfo| crate::repository_reads::is_waiting_approval(info),
    );
    lemma_filter_members(
        infos,
        |info: IntentInfo| crate::repository_records::is_completed(info, kind),
    );
}

/// An artifact that has just been left is retained for thirty days, and is otherwise as it was
/// said to be.
pub proof fn law_fresh_artifacts_are_retained(
    artifact_id: Seq<char>,
    buildset_id: BuildsetId,
    source_path: Seq<char>,
    retained_path: Seq<char>,
    hash: Seq<char>,
    size: u64,
    created_at: Timestamp,
)
    requires
        created_at.unix_nanos + 1_000_000_000_000_000_000 <= i128::MAX,
    ensures
        ({
            let info = fresh_artifact(
                artifact_id,
                buildset_id,
                source_path,
                retained_path,
                hash,
                size,
                created_at,
            );
            &&& info.retention_state == "retained"@
            &&& !is_expired(info, created_at)
            &&& info.expires_at.unix_nanos == created_at.unix_nanos + 30 * 24 * 60 * 60
                * 1_000_000_000
            &&& is_expired(info, info.expires_at)
            &&& info.hash == hash && info.size == size && info.source_path == source_path
            &&& info.retained_path == retained_path && info.buildset_id == buildset_id
            &&& info.artifact_id == artifact_id && info.created_at == created_at
        }),
{
}

/// A build is under way exactly as long as it can be canceled.
pub proof fn law_builds_are_under_way_until_they_end(state: BuildsetState)
    ensures
        is_building(state) <==> state.next(BuildsetEvent::Canceled) is Some,
        is_building(state) <==> !state.terminal(),
{
}

/// A build that comes to another state changes its own row and no other.
pub proof fn law_builds_change_one_by_one(rows: Seq<BuildsetRow>, buildset: Buildset, i: int)
    requires
        0 <= i < rows.len(),
    ensures
        rows[i].id == buildset.id ==> rebuilt(rows, buildset)[i].buildset == buildset && rebuilt(
            rows,
            buildset,
        )[i].generation_id == rows[i].generation_id,
        rows[i].id != buildset.id ==> rebuilt(rows, buildset)[i] == rows[i],
        rebuilt(rows, buildset).len() == rows.len(),
        build_row(buildset).id == buildset.id,
        build_row(buildset).generation_id == buildset.validation_generation_id,
{
}

/// A build that is known is not taken up again, nor is one of a validation that is being
/// built; and what it retries has to be known.
pub proof fn law_builds_are_taken_up_once(rows: Seq<BuildsetRow>, buildset: Buildset, i: int)
    requires
        can_build(rows, buildset),
        0 <= i < rows.len(),
    ensures
        rows[i].id != buildset.id,
        is_building(rows[i].buildset.state) && is_building(buildset.state) ==> rows[i].generation_id
            != buildset.validation_generation_id,
        buildset.retry_of matches Some(of) ==> of == buildset.id || has_buildset(rows, of),
        !can_build(rows.push(build_row(buildset)), buildset),
{
    assert(!builds_compete(rows[i], build_row(buildset)));
    let after = rows.push(build_row(buildset));
    assert(after[rows.len() as int].id == buildset.id);
    assert(has_buildset(after, buildset.id));
}

/// A build is certified once, and its certificates stay told apart.
pub proof fn law_builds_are_certified_once(
    rows: Seq<PassCertificate>,
    certificate: PassCertificate,
    again: PassCertificate,
)
    requires
        certificates_sound(rows),
        can_certify(rows, certificate),
    ensures
        certificates_sound(rows.push(certificate)),
        again.buildset_id == certificate.buildset_id ==> !can_certify(
            rows.push(certificate),
            again,
        ),
        again.id == certificate.id ==> !can_certify(rows.push(certificate), again),
{
    let after = rows.push(certificate);
    assert(after[rows.len() as int] == certificate);
}

/// Validations that are recorded together are all there afterwards; if one of them is known
/// already, none is recorded.
pub proof fn law_validations_are_recorded_together(
    rows: Seq<GenerationRow>,
    generations: Seq<ValidationGeneration>,
    n: nat,
    i: int,
)
    requires
        0 <= i < n <= generations.len(),
    ensures
        all_recorded(rows, generations, n) matches Some(after) ==> after.len() == rows.len() + n
            && has_generation(after, generations[i].id),
        has_generation(rows, generations[i].id) ==> all_recorded(rows, generations, n) is None,
    decreases n,
{
    let fewer = (n - 1) as nat;
    lemma_recorded_known(rows, generations, fewer, generations[i].id);
    if fewer > 0 {
        let k = if i < fewer { i } else { 0 };
        law_validations_are_recorded_together(rows, generations, fewer, k);
    }
    if let Some(had) = all_recorded(rows, generations, fewer) {
        let new = generations[n - 1];
        let after = crate::generation_table::recorded(had, new);
        assert(after[had.len() as int].generation == new);
        lemma_recorded_keeps(had, new, generations[i].id);
    }
}

proof fn lemma_recorded_keeps(
    rows: Seq<GenerationRow>,
    new: ValidationGeneration,
    id: ValidationGenerationId,
)
    ensures
        has_generation(rows, id) ==> has_generation(
            crate::generation_table::recorded(rows, new),
            id,
        ),
        has_generation(crate::generation_table::recorded(rows, new), new.id),
        crate::generation_table::recorded(rows, new).len() == rows.len() + 1,
{
    let after = crate::generation_table::recorded(rows, new);
    assert(after[rows.len() as int].generation == new);
    if has_generation(rows, id) {
        let k = choose|k: int| 0 <= k < rows.len() && (#[trigger] rows[k]).generation.id == id;
        assert(after[k].generation.id == id);
    }
}

proof fn lemma_recorded_known(
    rows: Seq<GenerationRow>,
    generations: Seq<ValidationGeneration>,
    n: nat,
    id: ValidationGenerationId,
)
    requires
        n <= generations.len(),
    ensures
        has_generation(rows, id) ==> (all_recorded(rows, generations, n) matches Some(after)
            ==> has_generation(after, id)),
        all_recorded(rows, generations, n) matches Some(after) ==> after.len() == rows.len() + n,
    decreases n,
{
    if n > 0 {
        lemma_recorded_known(rows, generations, (n - 1) as nat, id);
        if let Some(had) = all_recorded(rows, generations, (n - 1) as nat) {
            lemma_recorded_keeps(had, generations[n - 1], id);
        }
    }
}

/// A database of a later version is left alone, one of this version is kept, an older one is
/// brought up from the version that it has, and only one without tables is new.
pub proof fn law_databases_are_brought_up_to_date(version: i64, has_tables: bool)
    ensures
        version > SCHEMA_VERSION <==> migration_of(version, has_tables) is Err,
        version == SCHEMA_VERSION ==> migration_of(version, has_tables) == Ok::<MigrationPlan, ()>(
            MigrationPlan::Refresh,
        ),
        0 < version < SCHEMA_VERSION ==> migration_of(version, has_tables) == Ok::<
            MigrationPlan,
            (),
        >(MigrationPlan::Upgrade { from: version }),
        migration_of(version, has_tables) == Ok::<MigrationPlan, ()>(MigrationPlan::Create) <==> (
        version == 0 && !has_tables),
{
}

/// With one version every later one is recent enough too, and the least of them is known.
pub proof fn law_later_versions_are_recent_enough(a: Seq<char>, b: Seq<char>)
    ensures
        ({
            let x = split_text(a, '.');
            let y = split_text(b, '.');
            let later = version_part(y, 0) > version_part(x, 0) || (version_part(y, 0)
                == version_part(x, 0) && (version_part(y, 1) > version_part(x, 1) || (version_part(
                y,
                1,
            ) == version_part(x, 1) && version_part(y, 2) >= version_part(x, 2))));
            &&& recent_enough(a) && later ==> recent_enough(b)
            &&& version_part(x, 0) == 3 && version_part(x, 1) == 51 && version_part(x, 2) == 3
                ==> recent_enough(a)
            &&& version_part(x, 0) == 3 && version_part(x, 1) == 51 && version_part(x, 2) == 2
                ==> !recent_enough(a)
            &&& version_part(x, 0) == 3 && version_part(x, 1) == 50 ==> !recent_enough(a)
            &&& version_part(x, 0) == 2 ==> !recent_enough(a)
        }),
{
}

/// Something can be told only of a repository that is known, under a number and a name that are
/// free, and in answer to a command that has not been answered; and then it can.
pub proof fn law_things_are_told_once(
    books: Books,
    repository: RepositoryId,
    sequence: u64,
    event: EventId,
    command: CommandId,
)
    ensures
        can_tell(books, repository, sequence, event, Some(command)) <==> has_repository(
            books.repositories,
            repository,
        ) && !event_taken(books.events, repository, sequence, event) && !has_result(
            books.results,
            command,
        ),
        can_tell(books, repository, sequence, event, None) <==> has_repository(
            books.repositories,
            repository,
        ) && !event_taken(books.events, repository, sequence, event),
{
}

/// A build that is tried again names one that is known, or itself; else it is not taken up.
pub proof fn law_retries_name_a_build(rows: Seq<BuildsetRow>, buildset: Buildset, of: BuildsetId)
    requires
        buildset.retry_of == Some(of),
    ensures
        !has_buildset(rows, of) && of != buildset.id ==> !can_build(rows, buildset),
        of == buildset.id || has_buildset(rows, of) ==> can_build(rows, buildset) == can_build(
            rows,
            Buildset { retry_of: None, ..buildset },
        ),
{
    let plain = Buildset { retry_of: None, ..buildset };
    assert forall|i: int| 0 <= i < rows.len() implies builds_compete(
        #[trigger] rows[i],
        build_row(buildset),
    ) == builds_compete(rows[i], build_row(plain)) by {}
}

} // verus!
