//! What the books say after something has been entered in them, and what stays as it was.

#[allow(unused_imports)]
use crate::artifact_table::{
    can_change, changed, is_expired, is_kept, is_retention_state, is_taken_up, retained_bytes,
    taken_up, ArtifactInfo,
};
#[allow(unused_imports)]
use crate::attempt_table::{
    attempt_fault, is_held, left_stream, log_state, logs_pruned, makes_room, stream_fault,
    with_attempt, is_log_of_build, AttemptInfo, Logbook, RecordInfo, StepInfo, StreamInfo,
};
#[allow(unused_imports)]
use crate::generation_table::{
    already_counts, counts_for, generations_sound, invalidated, is_retained, reactivated, recorded,
    GenerationRow,
};
#[allow(unused_imports)]
use crate::ids::{BuildsetId, CommandId, QueueItemId, RepositoryId};
#[allow(unused_imports)]
use crate::intent_table::{
    can_prepare_approval, completed_promotion, has_open, is_latest, is_occupied, last_of_kind,
    last_open, moved_on, prepared_for, prepared_info, promotions_completed, FromStates, IntentFilter,
    IntentInfo,
};
#[allow(unused_imports)]
use crate::item_table::{finished, stored, ItemRow};
#[allow(unused_imports)]
use crate::model::{PassCertificate, QueueItem, Timestamp, ValidationGeneration};
#[allow(unused_imports)]
use crate::promotion_table::{
    is_last_promotion, promoted_too, promotes, promotions_sound, without_item, PromotionInfo,
};
#[allow(unused_imports)]
use crate::repository_ops::promotion_of;
#[allow(unused_imports)]
use crate::runner::LogStream;
#[allow(unused_imports)]
use crate::seed_table::{
    can_prune, can_record, has_seed, pruned, publication_fault, published, same_seed, seed_at,
    seed_of, seeds_sound, SeedFault, SeedInfo,
};
#[allow(unused_imports)]
use crate::seqs::lemma_filter_members;
#[allow(unused_imports)]
use crate::store::{fits_sqlite, IntentState};
#[allow(unused_imports)]
use crate::volume_table::{
    has_volume, is_of, released, reserved_but, reserved_on, volume_row, with_reservation,
    ReservationFault, ReservationInfo, ReservationRow, VolumeTable,
};
use vstd::prelude::*;

verus! {

/// An operation is under way from when it was prepared until it was completed, canceled or
/// found to need attention; one that needs attention is still to be looked at, one that is
/// over is not.
pub proof fn law_operations_are_under_way_until_they_end(state: IntentState)
    ensures
        state.open_state() <==> state == IntentState::Prepared || state
            == IntentState::ExternalApplied,
        state.recoverable_state() <==> state != IntentState::Completed && state
            != IntentState::Canceled,
        state.open_state() ==> state.recoverable_state(),
        forall|from: FromStates| #[trigger] from.has(state) ==> state.recoverable_state(),
{
}

/// What is prepared is under way, has not been seen to do anything, and belongs to the
/// command and repository that it was prepared for.
pub proof fn law_prepared_operations_are_under_way(
    infos: Seq<IntentInfo>,
    repository: RepositoryId,
    kind: Seq<char>,
    command: CommandId,
    expected: Seq<char>,
)
    ensures
        ({
            let info = prepared_info(repository, kind, command, expected);
            &&& info.state.open_state()
            &&& info.observed is None
            &&& info.repository_id == repository && info.kind == kind && info.command_id
                == command && info.expected == expected
            &&& kind == "promotion"@ || kind == "push"@ ==> is_occupied(
                infos.push(info),
                repository,
                kind,
            )
        }),
{
    let info = prepared_info(repository, kind, command, expected);
    let after = infos.push(info);
    assert(after[infos.len() as int] == info);
}

/// Two promotions of one repository, or two pushes, are never under way together; other
/// repositories, other kinds and what is over stand in nobody's way.
pub proof fn law_only_the_same_kind_stands_in_the_way(
    infos: Seq<IntentInfo>,
    repository: RepositoryId,
    kind: Seq<char>,
)
    ensures
        kind != "promotion"@ && kind != "push"@ ==> !is_occupied(infos, repository, kind),
        (forall|i: int|
            0 <= i < infos.len() ==> (#[trigger] infos[i]).repository_id != repository
                || infos[i].kind != kind || !infos[i].state.open_state()) ==> !is_occupied(
            infos,
            repository,
            kind,
        ),
        (kind == "promotion"@ || kind == "push"@) && (exists|i: int|
            0 <= i < infos.len() && (#[trigger] infos[i]).repository_id == repository
                && infos[i].kind == kind && infos[i].state.open_state()) ==> is_occupied(
            infos,
            repository,
            kind,
        ),
{
}

/// Moving operations on moves those of the command, of the repository and of the kind that
/// were asked for, in the states that were asked for, and says what was observed; every
/// other operation stays as it was.
pub proof fn law_only_what_was_asked_for_moves_on(
    infos: Seq<IntentInfo>,
    filter: IntentFilter,
    to: IntentState,
    observed: Seq<char>,
    i: int,
)
    requires
        0 <= i < infos.len(),
    ensures
        ({
            let before = infos[i];
            let after = moved_on(infos, filter, to, observed)[i];
            let asked = before.command_id == filter.command && (filter.repository matches Some(
                repository,
            ) ==> before.repository_id == repository) && (filter.kind matches Some(kind)
                ==> before.kind == kind) && filter.from.has(before.state);
            &&& asked ==> after.state == to && after.observed == Some(observed)
            &&& !asked ==> after == before
            &&& after.expected == before.expected && after.command_id == before.command_id
            &&& after.kind == before.kind && after.repository_id == before.repository_id
        }),
        moved_on(infos, filter, to, observed).len() == infos.len(),
{
}

/// Completing the promotions of a repository completes those that are under way, and
/// touches neither other repositories nor other operations.
pub proof fn law_promotions_are_completed(
    infos: Seq<IntentInfo>,
    repository: RepositoryId,
    observed: Seq<char>,
    i: int,
)
    requires
        0 <= i < infos.len(),
    ensures
        ({
            let before = infos[i];
            let after = promotions_completed(infos, repository, observed)[i];
            &&& before.repository_id == repository && before.kind == "promotion"@
                && before.state.open_state() ==> completed_promotion(after, repository)
                && after.observed == Some(observed)
            &&& before.repository_id != repository || before.kind != "promotion"@
                || !before.state.open_state() ==> after == before
        }),
{
}

/// An approval can be asked for again only if it was the same request and was canceled;
/// otherwise its command has to be new.
pub proof fn law_approvals_are_not_repeated(
    infos: Seq<IntentInfo>,
    command: CommandId,
    digest: Seq<char>,
    i: int,
)
    requires
        is_latest(infos, command, i),
    ensures
        can_prepare_approval(infos, command, digest) <==> prepared_for(infos[i], digest)
            && infos[i].state == IntentState::Canceled,
{
    assert(infos[i].command_id == command);
    if can_prepare_approval(infos, command, digest) {
        let j = choose|j: int| #[trigger]
            is_latest(infos, command, j) && prepared_for(infos[j], digest) && infos[j].state
                == IntentState::Canceled;
        assert(is_latest(infos, command, j));
        if i < j {
            assert(infos[j].command_id != command);
        } else if j < i {
            assert(infos[i].command_id != command);
        }
    }
}

/// Room is granted exactly if the command has an operation under way and the volume has, over
/// its critical threshold and what others have reserved, as much as is asked for; what the
/// command itself had before does not count against it.
pub proof fn law_room_is_granted_while_there_is_some(
    table: VolumeTable,
    command: CommandId,
    volume: Seq<char>,
    allowance: u64,
    has_intent: bool,
)
    ensures
        ({
            let row = volume_row(table.volumes@, volume);
            let others = reserved_but(
                table.reservations@,
                volume,
                Some(command),
                table.reservations@.len(),
            );
            let fault = table.fault(command, volume, allowance, has_intent);
            &&& fault is None ==> has_intent && has_volume(table.volumes@, volume)
                && row.critical_threshold + others + allowance <= row.observed_free
            &&& has_intent && has_volume(table.volumes@, volume) && fits_sqlite(allowance) && others
                >= 0 && row.critical_threshold >= 0 && row.observed_free <= i64::MAX
                && row.critical_threshold + others + allowance <= row.observed_free ==> fault
                is None
            &&& !has_intent && fits_sqlite(allowance) ==> fault == Some(
                ReservationFault::NoIntent,
            )
            &&& fault matches Some(ReservationFault::Shortage { free, required }) ==> free
                == row.observed_free && required == row.critical_threshold + others + allowance
                && free < required
        }),
{
}

/// Every reservation that counts on a volume counts in full, once, and none that was
/// released or is on another volume does.
pub proof fn law_reservations_add_up(
    rows: Seq<ReservationRow>,
    volume: Seq<char>,
    but: Option<CommandId>,
    n: nat,
)
    ensures
        ({
            let row = rows[n as int];
            let before = reserved_but(rows, volume, but, n);
            let after = reserved_but(rows, volume, but, n + 1);
            &&& row.active && row.volume_id@ == volume && Some(row.command_id) != but ==> after
                == before + row.allowance
            &&& !row.active || row.volume_id@ != volume || Some(row.command_id) == but ==> after
                == before
        }),
        reserved_but(rows, volume, but, 0) == 0,
{
}

/// A reservation counts with what was last granted; no other one changes.
pub proof fn law_the_last_grant_counts(
    infos: Seq<ReservationInfo>,
    command: CommandId,
    volume: Seq<char>,
    allowance: i64,
    i: int,
)
    ensures
        ({
            let after = with_reservation(infos, command, volume, allowance);
            &&& exists|k: int|
                0 <= k < after.len() && (#[trigger] after[k]).command_id == command
                    && after[k].volume == volume && after[k].allowance == allowance
                    && after[k].active
            &&& after.len() >= infos.len()
            &&& 0 <= i < infos.len() && !(infos[i].command_id == command && infos[i].volume
                == volume) ==> after[i] == infos[i]
            &&& 0 <= i < infos.len() && infos[i].command_id == command && infos[i].volume
                == volume ==> after[i].allowance == allowance && after[i].active
        }),
{
    let after = with_reservation(infos, command, volume, allowance);
    if exists|k: int| 0 <= k < infos.len() && is_of(#[trigger] infos[k], command, volume) {
        let k = choose|k: int| 0 <= k < infos.len() && is_of(#[trigger] infos[k], command, volume);
        assert(after[k].command_id == command && after[k].active);
    } else {
        assert(after[infos.len() as int].command_id == command);
        if 0 <= i < infos.len() {
            assert(!is_of(infos[i], command, volume));
        }
    }
}

/// A release takes back what its command has and nothing else.
pub proof fn law_releases_concern_one_command(
    rows: Seq<ReservationRow>,
    command: CommandId,
    i: int,
)
    requires
        0 <= i < rows.len(),
    ensures
        rows[i].command_id == command ==> !released(rows, command)[i].active,
        rows[i].command_id != command ==> released(rows, command)[i] == rows[i],
        released(rows, command)[i].allowance == rows[i].allowance,
{
}

/// A seed that is published is there, and publishing it again changes nothing; no seed is
/// lost by it.
pub proof fn law_published_seeds_are_there(infos: Seq<SeedInfo>, seed: SeedInfo, i: int)
    ensures
        has_seed(published(infos, seed), seed.id),
        published(published(infos, seed), seed) == published(infos, seed),
        0 <= i < infos.len() ==> published(infos, seed)[i] == infos[i],
        published(infos, seed).len() <= infos.len() + 1,
{
    if !has_seed(infos, seed.id) {
        assert(seed_at(infos.push(seed), infos.len() as int, seed.id));
    }
}

/// A new seed may be published unless it clashes with one that is there; one that is there
/// may be published again only as it is.
pub proof fn law_seeds_are_not_replaced(infos: Seq<SeedInfo>, seed: SeedInfo, i: int)
    requires
        fits_sqlite(seed.generation),
        fits_sqlite(seed.logical_size),
    ensures
        !has_seed(infos, seed.id) && 0 <= i < infos.len() && infos[i].repository_id
            == seed.repository_id && infos[i].profile == seed.profile && infos[i].generation
            == seed.generation ==> publication_fault(infos, seed) is Some,
        infos.len() == 0 ==> publication_fault(infos, seed) is None,
        has_seed(infos, seed.id) && seed_of(infos, seed.id).path != seed.path
            ==> publication_fault(infos, seed) is Some,
        has_seed(infos, seed.id) && seed_of(infos, seed.id).state != seed.state
            ==> publication_fault(infos, seed) is Some,
{
    if !has_seed(infos, seed.id) && 0 <= i < infos.len() && infos[i].repository_id
        == seed.repository_id && infos[i].profile == seed.profile && infos[i].generation
        == seed.generation {
        assert(crate::seed_table::seeds_clash(infos[i], seed));
        assert(!can_record(infos, seed));
    }
    if infos.len() == 0 {
        assert(!has_seed(infos, seed.id));
    }
}

/// Pruning a seed says so of that seed, and changes nothing else of it and no other one.
pub proof fn law_pruning_concerns_one_seed(infos: Seq<SeedInfo>, id: Seq<char>, i: int)
    requires
        0 <= i < infos.len(),
    ensures
        infos[i].id == id ==> pruned(infos, id)[i] == (SeedInfo { state: "pruned"@, ..infos[i] }),
        infos[i].id != id ==> pruned(infos, id)[i] == infos[i],
        pruned(infos, id).len() == infos.len(),
{
}

/// A promotion is recorded under its item, in place of an earlier one of the same item; those
/// of all other items stay.
pub proof fn law_promotions_are_recorded_once(
    infos: Seq<PromotionInfo>,
    info: PromotionInfo,
    i: int,
)
    requires
        promotions_sound(infos),
    ensures
        promoted_too(infos, info).contains(info),
        0 <= i < infos.len() && infos[i].item_id != info.item_id ==> promoted_too(
            infos,
            info,
        ).contains(infos[i]),
        promotions_sound(promoted_too(infos, info)),
{
    let left = without_item(infos, info.item_id);
    let all = promoted_too(infos, info);
    assert(all[left.len() as int] == info);
    if exists|k: int| promotes(infos, k, info.item_id) {
        let at = choose|k: int| promotes(infos, k, info.item_id);
        if 0 <= i < infos.len() && infos[i].item_id != info.item_id {
            let to = if i < at { i } else { i - 1 };
            assert(all[to] == infos[i]);
        }
        assert forall|a: int, b: int| 0 <= a < b < all.len() implies (#[trigger] all[a]).item_id
            != (#[trigger] all[b]).item_id by {
            let was = if a < at { a } else { a + 1 };
            assert(all[a] == infos[was]);
            if b < left.len() {
                let then = if b < at { b } else { b + 1 };
                assert(all[b] == infos[then]);
            } else {
                assert(infos[at].item_id == info.item_id);
            }
        }
    } else {
        if 0 <= i < infos.len() {
            assert(all[i] == infos[i]);
        }
        assert forall|a: int, b: int| 0 <= a < b < all.len() implies (#[trigger] all[a]).item_id
            != (#[trigger] all[b]).item_id by {
            assert(all[a] == infos[a]);
            if b < left.len() {
                assert(all[b] == infos[b]);
            } else {
                assert(!promotes(infos, a, info.item_id));
            }
        }
    }
}

/// What is recorded of a promotion is the commit that was tested, for the source of the item
/// that was promoted, with the certificate that allowed it.
pub proof fn law_tested_commits_are_promoted(
    item: QueueItem,
    certificate: PassCertificate,
    old_master: Seq<u8>,
    sequence: u64,
)
    ensures
        ({
            let info = promotion_of(item, certificate, old_master, sequence);
            &&& info.promoted == certificate.tested_oid@.bytes
            &&& info.source == item.source_oid@.bytes
            &&& info.item_id == item.id
            &&& info.certificate_id == certificate.id
            &&& info.old_master == old_master
        }),
{
}

/// What is answered for a source is the promotion with the latest event.
pub proof fn law_later_promotions_answer(
    infos: Seq<PromotionInfo>,
    source: Seq<u8>,
    i: int,
    j: int,
)
    requires
        is_last_promotion(infos, source, i),
        0 <= j < infos.len(),
        infos[j].source == source,
    ensures
        infos[i].source == source,
        infos[j].event_sequence <= infos[i].event_sequence,
        is_last_promotion(infos, source, j) ==> infos[j].event_sequence
            == infos[i].event_sequence,
{
}

/// An attempt leaves its two streams as they were sealed, neither of them pruned; an empty
/// stream has no piece to read.
pub proof fn law_attempts_leave_their_streams(
    book: Logbook,
    buildset: BuildsetId,
    record: RecordInfo,
)
    ensures
        ({
            let after = with_attempt(book, buildset, record);
            let n = book.streams.len() as int;
            &&& after.streams.len() == n + 2
            &&& after.streams.take(n) == book.streams
            &&& after.streams[n].stream == LogStream::Stdout && after.streams[n].retained_end
                == record.stdout_end
            &&& after.streams[n + 1].stream == LogStream::Stderr && after.streams[n
                + 1].retained_end == record.stderr_end
            &&& forall|k: int|
                n <= k < n + 2 ==> (#[trigger] after.streams[k]).attempt_id == record.attempt_id
                    && after.streams[k].hash == record.log_hash && !after.streams[k].pruned && (
                after.streams[k].chunk is Some <==> after.streams[k].retained_end > 0)
            &&& after.attempts.last().attempt_id == record.attempt_id
            &&& after.attempts.last().result_class == record.result_class
            &&& after.attempts.last().retry_number == record.retry_number
            &&& after.attempts.last().step_id == record.step_id
            &&& after.steps.last().step_id == record.step_id && after.steps.last().buildset_id
                == buildset && after.steps.last().name == record.name
        }),
{
    let after = with_attempt(book, buildset, record);
    assert(after.streams.take(book.streams.len() as int) =~= book.streams);
}

/// Recording an attempt loses no attempt but one of the same number, and no step but one
/// that has the same number or the same name in the same build.
pub proof fn law_other_attempts_stay(
    book: Logbook,
    buildset: BuildsetId,
    record: RecordInfo,
    i: int,
    j: int,
)
    requires
        0 <= i < book.attempts.len(),
        0 <= j < book.steps.len(),
    ensures
        book.attempts[i].attempt_id != record.attempt_id ==> with_attempt(
            book,
            buildset,
            record,
        ).attempts.contains(book.attempts[i]),
        book.steps[j].step_id != record.step_id && (book.steps[j].buildset_id != buildset
            || book.steps[j].name != record.name) ==> with_attempt(
            book,
            buildset,
            record,
        ).steps.contains(book.steps[j]),
{
    let other = |attempt: AttemptInfo| attempt.attempt_id != record.attempt_id;
    let stays = |step: StepInfo| !makes_room(step, record.step_id, buildset, record.name);
    let after = with_attempt(book, buildset, record);
    let attempts = book.attempts.filter(other);
    let steps = book.steps.filter(stays);
    lemma_filter_members(book.attempts, other);
    lemma_filter_members(book.steps, stays);
    if other(book.attempts[i]) {
        let k = choose|k: int| 0 <= k < attempts.len() && attempts[k] == book.attempts[i];
        assert(after.attempts[k] == book.attempts[i]);
    }
    if stays(book.steps[j]) {
        let k = choose|k: int| 0 <= k < steps.len() && steps[k] == book.steps[j];
        assert(after.steps[k] == book.steps[j]);
    }
}

/// Pruning the logs of a build touches no log of another.
pub proof fn law_other_logs_stay(book: Logbook, buildset: BuildsetId, s: int)
    requires
        0 <= s < book.streams.len(),
    ensures
        is_log_of_build(book, book.streams[s], buildset) ==> logs_pruned(
            book,
            buildset,
        ).streams[s].pruned,
        !is_log_of_build(book, book.streams[s], buildset) ==> logs_pruned(
            book,
            buildset,
        ).streams[s] == book.streams[s],
        logs_pruned(book, buildset).attempts == book.attempts,
        logs_pruned(book, buildset).steps == book.steps,
        logs_pruned(book, buildset).streams[s].hash == book.streams[s].hash,
{
}

/// An artifact that is retained runs out of time when its time has come, not before; one
/// that was pruned is not kept.
pub proof fn law_artifacts_run_out_in_time(info: ArtifactInfo, now: Timestamp)
    ensures
        info.retention_state == "retained"@ ==> (is_expired(info, now) <==> now.unix_nanos
            >= info.expires_at.unix_nanos),
        is_expired(info, now) ==> is_kept(info),
        info.retention_state == "pruned"@ ==> !is_kept(info) && !is_expired(info, now),
{
    reveal_strlit("retained");
    reveal_strlit("pinned");
    reveal_strlit("pruned");
    assert("retained"@.len() == 8 && "pinned"@.len() == 6 && "pruned"@.len() == 6);
    assert("pinned"@[1] == 'i' && "pruned"@[1] == 'r');
}

/// What is expired now is expired from now on.
pub proof fn law_time_does_not_run_back(info: ArtifactInfo, now: Timestamp, later: Timestamp)
    requires
        is_expired(info, now),
        now.unix_nanos <= later.unix_nanos,
    ensures
        is_expired(info, later),
{
}

/// An artifact that changes its state changes nothing else, and no other one changes; one
/// that is in another state than was expected does not change.
pub proof fn law_changes_concern_one_artifact(
    infos: Seq<ArtifactInfo>,
    artifact: Seq<char>,
    expected: Seq<Seq<char>>,
    state: Seq<char>,
    i: int,
)
    requires
        0 <= i < infos.len(),
    ensures
        ({
            let after = changed(infos, artifact, expected, state);
            &&& infos[i].artifact_id == artifact && expected.contains(infos[i].retention_state)
                ==> after[i] == (ArtifactInfo { retention_state: state, ..infos[i] })
                && can_change(infos, artifact, expected)
            &&& infos[i].artifact_id != artifact || !expected.contains(infos[i].retention_state)
                ==> after[i] == infos[i]
        }),
{
}

/// An artifact is taken up if it is new and in a state that there is, and what was there
/// stays; the room of those that are retained adds up, and pinned ones do not count.
pub proof fn law_new_artifacts_are_taken_up(
    infos: Seq<ArtifactInfo>,
    offered: Seq<ArtifactInfo>,
    n: nat,
)
    requires
        n < offered.len(),
    ensures
        ({
            let before = taken_up(infos, offered, n);
            let after = taken_up(infos, offered, n + 1);
            let new = offered[n as int];
            &&& is_taken_up(before, new) ==> after == before.push(new)
            &&& !is_taken_up(before, new) ==> after == before
            &&& is_taken_up(before, new) ==> new.retention_state == "retained"@
                || new.retention_state == "pinned"@ || new.retention_state == "pruned"@
        }),
        n < infos.len() ==> retained_bytes(infos, n + 1) == retained_bytes(infos, n) + if infos[n as int].retention_state
            == "retained"@ {
            infos[n as int].size as nat
        } else {
            0
        },
{
}

/// A validation that is made to count again counts, what counted for its item before does
/// not, and what counts for other items is untouched.
pub proof fn law_reactivated_validations_count(
    rows: Seq<GenerationRow>,
    restored: ValidationGeneration,
    i: int,
)
    requires
        generations_sound(rows),
        is_retained(rows, restored),
        0 <= i < rows.len(),
    ensures
        already_counts(reactivated(rows, restored), restored),
        rows[i].generation.id != restored.id && counts_for(rows[i], restored.item_id)
            ==> !reactivated(rows, restored)[i].current,
        rows[i].generation.item_id != restored.item_id ==> reactivated(rows, restored)[i]
            == rows[i],
        reactivated(rows, restored).len() == rows.len(),
{
    let after = reactivated(rows, restored);
    if !already_counts(rows, restored) {
        let k = choose|k: int|
            0 <= k < rows.len() && (#[trigger] rows[k]).generation.id == restored.id
                && rows[k].generation.item_id == restored.item_id;
        assert(after[k] == (GenerationRow { generation: restored, current: true }));
        assert(counts_for(after[k], restored.item_id));
    } else {
        let k = choose|k: int|
            0 <= k < rows.len() && counts_for(#[trigger] rows[k], restored.item_id)
                && rows[k].generation.id == restored.id;
        if rows[i].generation.id != restored.id && counts_for(rows[i], restored.item_id) {
            assert(i != k);
        }
    }
}

/// Recording a validation leaves what counts for other items as it is.
pub proof fn law_validations_of_others_stay(
    rows: Seq<GenerationRow>,
    generation: ValidationGeneration,
    i: int,
)
    requires
        0 <= i < rows.len(),
        rows[i].generation.item_id != generation.item_id || !rows[i].current,
    ensures
        recorded(rows, generation)[i] == rows[i],
        recorded(rows, generation).len() == rows.len() + 1,
{
}

/// Storing an item stores it in its own row, which is active exactly while the item is, and
/// touches no other; an item whose time is over is no longer active.
pub proof fn law_items_are_stored_in_their_rows(rows: Seq<ItemRow>, item: QueueItem, i: int)
    requires
        0 <= i < rows.len(),
    ensures
        rows[i].item.id == item.id ==> stored(rows, item)[i].item == item && stored(
            rows,
            item,
        )[i].active == !item.state.terminal() && stored(rows, item)[i].repository_id
            == rows[i].repository_id,
        rows[i].item.id != item.id ==> stored(rows, item)[i] == rows[i] && finished(
            rows,
            item,
        )[i] == rows[i],
        rows[i].item.id == item.id ==> finished(rows, item)[i].item == item && !finished(
            rows,
            item,
        )[i].active && finished(rows, item)[i].number == rows[i].number,
{
}

/// An attempt is refused for what it would break: a step that has attempts of its own and
/// would have to make room, or a number that cannot be kept; and for nothing else.
pub proof fn law_attempts_are_refused_for_cause(
    book: Logbook,
    buildset: BuildsetId,
    record: RecordInfo,
)
    ensures
        attempt_fault(book, buildset, record) is None <==> !is_held(
            book,
            record.step_id,
            buildset,
            record.name,
        ) && stream_fault(record.stdout_end, record.broker_sequence_end) is None && stream_fault(
            record.stderr_end,
            record.broker_sequence_end,
        ) is None,
        fits_sqlite(record.stdout_end) && fits_sqlite(record.broker_sequence_end) ==> stream_fault(
            record.stdout_end,
            record.broker_sequence_end,
        ) is None,
        !fits_sqlite(record.stdout_end) ==> stream_fault(
            record.stdout_end,
            record.broker_sequence_end,
        ) is Some,
        book.attempts.len() == 0 ==> !is_held(book, record.step_id, buildset, record.name),
{
}

/// Of several operations of a command the last one of a kind answers, and the last one under
/// way is the one that is moved.
pub proof fn law_the_last_operation_answers(
    infos: Seq<IntentInfo>,
    repository: RepositoryId,
    command: CommandId,
    kind: Seq<char>,
    i: int,
    j: int,
)
    requires
        0 <= j < infos.len(),
        infos[j].command_id == command,
    ensures
        last_of_kind(infos, command, kind, i) ==> infos[i].command_id == command && infos[i].kind
            == kind,
        last_of_kind(infos, command, kind, i) && infos[j].kind == kind ==> j <= i,
        last_open(infos, repository, command, i) ==> infos[i].command_id == command
            && infos[i].repository_id == repository && infos[i].state.open_state(),
        last_open(infos, repository, command, i) && infos[j].repository_id == repository
            && infos[j].state.open_state() ==> j <= i,
        has_open(infos, command) <==> exists|k: int|
            0 <= k < infos.len() && (#[trigger] infos[k]).command_id == command
                && infos[k].state.open_state(),
{
}

} // verus!
