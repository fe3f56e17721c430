//! The service is asked to do what the client asked, and the client is told what came of it.

#[allow(unused_imports)]
use crate::cli::{plan_of, CliCommand, CliPlan, SelectedRepository};
#[allow(unused_imports)]
use crate::document::{lemma_lookup_finds, lookup, Tree};
#[allow(unused_imports)]
use crate::ids::CommandId;
#[allow(unused_imports)]
use crate::ipc_command::IpcCommand;
#[allow(unused_imports)]
use crate::scan::{contains_part, occurs_at};
#[allow(unused_imports)]
use crate::service::{
    call_for, error_class, error_for, held_error, refusal_code, refusal_error, retry_details,
    CandidateRefusal, ServiceCall,
};
#[allow(unused_imports)]
use crate::state::CleanupPolicy;
#[allow(unused_imports)]
use crate::wire::oid_tree;
use vstd::prelude::*;

verus! {

/// The service does what a command asks for, and each thing that it does is asked for by one
/// command; only pausing and resuming share one, which says which of the two it is.
pub proof fn law_each_call_has_its_command(command: IpcCommand)
    ensures
        ({
            let call = call_for(command);
            &&& call is Snapshot <==> command is Snapshot
            &&& call is ItemStatus <==> command is ItemStatus
            &&& call is ItemDetailsById <==> command is ItemDetails
            &&& call is ItemWaitStatus <==> command is ItemWaitStatus
            &&& call is InitializeRepository <==> command is Initialize
            &&& call is Approve <==> command is Approve
            &&& call is SubmitCandidate <==> command is Candidate
            &&& call is AuthorizeCandidate <==> command is AuthorizeCandidate
            &&& call is Check <==> command is Check
            &&& call is DiagnoseFailure <==> command is Diagnose
            &&& call is Cancel <==> command is Cancel
            &&& call is Retry <==> command is Retry
            &&& call is ReorderQueue <==> command is Reorder
            &&& call is Pull <==> command is Pull
            &&& call is Push <==> command is Push
            &&& call is Reconcile <==> command is Reconcile
            &&& call is UpdateFeatureWorktree <==> command is Update
            &&& call is CreateWorktree <==> command is WorktreeCreate
            &&& call is RemoveWorktree <==> command is WorktreeRemove
            &&& call is UnregisterRepository <==> command is RemoveRepository
            &&& call is ApplyConfiguration <==> command is ApplyConfiguration
            &&& call is ValidateConfiguration <==> command is ValidateConfiguration
            &&& call is RegenerateConfiguration <==> command is RegenerateConfiguration
            &&& call is ResetSlot <==> command is ResetSlot
            &&& call is SnapshotCache <==> command is SnapshotCache
            &&& call is PurgeCache <==> command is PurgeCache
            &&& call is StorageStatus <==> command is StorageStatus
            &&& call is PruneStorage <==> command is StoragePrune
            &&& call is SetArtifactPinned <==> command is ArtifactPin
            &&& call is PruneArtifact <==> command is ArtifactPrune
            &&& call is Logs <==> command is Logs
            &&& call is Doctor <==> command is Doctor
            &&& call is ReloadEnvironment <==> command is ReloadEnvironment
            &&& (call matches ServiceCall::SetPaused { paused: true, .. }) <==> command is Pause
            &&& (call matches ServiceCall::SetPaused { paused: false, .. }) <==> command is Resume
        }),
{
}

/// The service is told all that the client said: the repository, the item, what is expected
/// of the queue, and under which identifier the command is carried out once.
pub proof fn law_calls_carry_what_was_asked(command: IpcCommand)
    ensures
        ({
            let call = call_for(command);
            &&& command matches IpcCommand::ItemStatus { repository_id, item_id } ==> (
            call matches ServiceCall::ItemStatus {
                repository_id: to_repository_id,
                item_id: to_item_id,
            } && to_repository_id == repository_id && to_item_id == item_id)
            &&& command matches IpcCommand::ItemDetails { repository_id, item_id } ==> (
            call matches ServiceCall::ItemDetailsById {
                repository_id: to_repository_id,
                item_id: to_item_id,
            } && to_repository_id == repository_id && to_item_id == item_id)
            &&& command matches IpcCommand::ItemWaitStatus { repository_id, item_id } ==> (
            call matches ServiceCall::ItemWaitStatus {
                repository_id: to_repository_id,
                item_id: to_item_id,
            } && to_repository_id == repository_id && to_item_id == item_id)
            &&& command matches IpcCommand::Initialize { path, run, bootstrap, detach_master } ==> (
            call matches ServiceCall::InitializeRepository {
                path: to_path,
                run: to_run,
                bootstrap: to_bootstrap,
                detach_master: to_detach_master,
            } && to_path == path && to_run == run && to_bootstrap == bootstrap
                && to_detach_master == detach_master)
            &&& command matches IpcCommand::Approve {
                repository_id,
                revision,
                worktree_path,
                purpose,
                retain_worktree,
                command_id,
            } ==> (
            call matches ServiceCall::Approve {
                repository_id: to_repository_id,
                revision: to_revision,
                worktree_path: to_worktree_path,
                purpose: to_purpose,
                cleanup: to_cleanup,
                command_id: to_command_id,
            } && to_repository_id == repository_id && to_revision == revision
                && to_worktree_path == worktree_path && to_purpose == purpose
                && (to_cleanup == CleanupPolicy::RetainWorktree <==> retain_worktree)
                && to_command_id == command_id)
            &&& command matches IpcCommand::Candidate {
                repository_id,
                revision,
                worktree_path,
                retain_worktree,
                command_id,
            } ==> (
            call matches ServiceCall::SubmitCandidate {
                repository_id: to_repository_id,
                revision: to_revision,
                worktree_path: to_worktree_path,
                cleanup: to_cleanup,
                command_id: to_command_id,
            } && to_repository_id == repository_id && to_revision == revision
                && to_worktree_path == worktree_path
                && (to_cleanup == CleanupPolicy::RetainWorktree <==> retain_worktree)
                && to_command_id == command_id)
            &&& command matches IpcCommand::AuthorizeCandidate {
                repository_id,
                item_id,
                expected_revision,
                command_id,
            } ==> (
            call matches ServiceCall::AuthorizeCandidate {
                repository_id: to_repository_id,
                item_id: to_item_id,
                expected_revision: to_expected_revision,
                command_id: to_command_id,
            } && to_repository_id == repository_id && to_item_id == item_id
                && to_expected_revision == expected_revision && to_command_id == command_id)
            &&& command matches IpcCommand::Check {
                repository_id,
                revision,
                worktree_path,
                command_id,
            } ==> (
            call matches ServiceCall::Check {
                repository_id: to_repository_id,
                revision: to_revision,
                worktree_path: to_worktree_path,
                command_id: to_command_id,
            } && to_repository_id == repository_id && to_revision == revision
                && to_worktree_path == worktree_path && to_command_id == command_id)
            &&& command matches IpcCommand::Diagnose {
                repository_id,
                item_id,
                replay,
                verify_repair,
                command_id,
            } ==> (
            call matches ServiceCall::DiagnoseFailure {
                repository_id: to_repository_id,
                item_id: to_item_id,
                replay: to_replay,
                verify_repair: to_verify_repair,
                command_id: to_command_id,
            } && to_repository_id == repository_id && to_item_id == item_id && to_replay == replay
                && to_verify_repair == verify_repair && to_command_id == command_id)
            &&& command matches IpcCommand::Cancel {
                repository_id,
                item_id,
                expected_revision,
                command_id,
            } ==> (
            call matches ServiceCall::Cancel {
                repository_id: to_repository_id,
                item_id: to_item_id,
                expected_revision: to_expected_revision,
                command_id: to_command_id,
            } && to_repository_id == repository_id && to_item_id == item_id
                && to_expected_revision == expected_revision && to_command_id == command_id)
            &&& command matches IpcCommand::Retry { repository_id, item_id, cold, command_id } ==> (
            call matches ServiceCall::Retry {
                repository_id: to_repository_id,
                item_id: to_item_id,
                cold: to_cold,
                command_id: to_command_id,
            } && to_repository_id == repository_id && to_item_id == item_id && to_cold == cold
                && to_command_id == command_id)
            &&& command matches IpcCommand::Reorder {
                repository_id,
                selected_ids,
                expected_revision,
                command_id,
            } ==> (
            call matches ServiceCall::ReorderQueue {
                repository_id: to_repository_id,
                selected_ids: to_selected_ids,
                expected_revision: to_expected_revision,
                command_id: to_command_id,
            } && to_repository_id == repository_id && to_selected_ids == selected_ids
                && to_expected_revision == expected_revision && to_command_id == command_id)
            &&& command matches IpcCommand::Pull { repository_id, command_id } ==> (
            call matches ServiceCall::Pull {
                repository_id: to_repository_id,
                command_id: to_command_id,
            } && to_repository_id == repository_id && to_command_id == command_id)
            &&& command matches IpcCommand::Push { repository_id, command_id } ==> (
            call matches ServiceCall::Push {
                repository_id: to_repository_id,
                command_id: to_command_id,
            } && to_repository_id == repository_id && to_command_id == command_id)
            &&& command matches IpcCommand::Reconcile {
                repository_id,
                expected_observed_master,
                expected_queue_revision,
                command_id,
            } ==> (
            call matches ServiceCall::Reconcile {
                repository_id: to_repository_id,
                expected_observed_master: to_expected_observed_master,
                expected_queue_revision: to_expected_queue_revision,
                command_id: to_command_id,
            } && to_repository_id == repository_id
                && to_expected_observed_master == expected_observed_master
                && to_expected_queue_revision == expected_queue_revision
                && to_command_id == command_id)
            &&& command matches IpcCommand::Update {
                repository_id,
                worktree_path,
                command_id,
            } ==> (
            call matches ServiceCall::UpdateFeatureWorktree {
                repository_id: to_repository_id,
                worktree_path: to_worktree_path,
                command_id: to_command_id,
            } && to_repository_id == repository_id && to_worktree_path == worktree_path
                && to_command_id == command_id)
            &&& command matches IpcCommand::WorktreeCreate {
                repository_id,
                branch,
                destination,
                command_id,
                ..
            } ==> (
            call matches ServiceCall::CreateWorktree {
                repository_id: to_repository_id,
                branch: to_branch,
                destination: to_destination,
                command_id: to_command_id,
            } && to_repository_id == repository_id && to_branch == branch
                && to_destination == destination && to_command_id == command_id)
            &&& command matches IpcCommand::WorktreeRemove { repository_id, path, command_id } ==> (
            call matches ServiceCall::RemoveWorktree {
                repository_id: to_repository_id,
                path: to_path,
                command_id: to_command_id,
            } && to_repository_id == repository_id && to_path == path
                && to_command_id == command_id)
            &&& command matches IpcCommand::RemoveRepository { repository_id, command_id } ==> (
            call matches ServiceCall::UnregisterRepository {
                repository_id: to_repository_id,
                command_id: to_command_id,
            } && to_repository_id == repository_id && to_command_id == command_id)
            &&& command matches IpcCommand::ApplyConfiguration { repository_id, command_id } ==> (
            call matches ServiceCall::ApplyConfiguration {
                repository_id: to_repository_id,
                command_id: to_command_id,
            } && to_repository_id == repository_id && to_command_id == command_id)
            &&& command matches IpcCommand::ValidateConfiguration { repository_id } ==> (
            call matches ServiceCall::ValidateConfiguration {
                repository_id: to_repository_id,
            } && to_repository_id == repository_id)
            &&& command matches IpcCommand::RegenerateConfiguration {
                repository_id,
                command_id,
            } ==> (
            call matches ServiceCall::RegenerateConfiguration {
                repository_id: to_repository_id,
                command_id: to_command_id,
            } && to_repository_id == repository_id && to_command_id == command_id)
            &&& command matches IpcCommand::ResetSlot { repository_id, slot_id, command_id } ==> (
            call matches ServiceCall::ResetSlot {
                repository_id: to_repository_id,
                slot_id: to_slot_id,
                command_id: to_command_id,
            } && to_repository_id == repository_id && to_slot_id == slot_id
                && to_command_id == command_id)
            &&& command matches IpcCommand::SnapshotCache { repository_id, command_id } ==> (
            call matches ServiceCall::SnapshotCache {
                repository_id: to_repository_id,
                command_id: to_command_id,
            } && to_repository_id == repository_id && to_command_id == command_id)
            &&& command matches IpcCommand::PurgeCache {
                repository_id,
                all_slots,
                command_id,
            } ==> (
            call matches ServiceCall::PurgeCache {
                repository_id: to_repository_id,
                all_slots: to_all_slots,
                command_id: to_command_id,
            } && to_repository_id == repository_id && to_all_slots == all_slots
                && to_command_id == command_id)
            &&& command matches IpcCommand::StoragePrune { force, command_id } ==> (
            call matches ServiceCall::PruneStorage {
                force: to_force,
                command_id: to_command_id,
            } && to_force == force && to_command_id == command_id)
            &&& command matches IpcCommand::ArtifactPin {
                repository_id,
                artifact_id,
                pinned,
                command_id,
            } ==> (
            call matches ServiceCall::SetArtifactPinned {
                repository_id: to_repository_id,
                artifact_id: to_artifact_id,
                pinned: to_pinned,
                command_id: to_command_id,
            } && to_repository_id == repository_id && to_artifact_id == artifact_id
                && to_pinned == pinned && to_command_id == command_id)
            &&& command matches IpcCommand::ArtifactPrune {
                repository_id,
                artifact_id,
                command_id,
            } ==> (
            call matches ServiceCall::PruneArtifact {
                repository_id: to_repository_id,
                artifact_id: to_artifact_id,
                command_id: to_command_id,
            } && to_repository_id == repository_id && to_artifact_id == artifact_id
                && to_command_id == command_id)
            &&& command matches IpcCommand::Logs {
                repository_id,
                item_id,
                buildset_id,
                step,
                start_sequence,
            } ==> (
            call matches ServiceCall::Logs {
                repository_id: to_repository_id,
                item_id: to_item_id,
                buildset_id: to_buildset_id,
                step: to_step,
                start_sequence: to_start_sequence,
                limit: to_limit,
            } && to_repository_id == repository_id && to_item_id == item_id
                && to_buildset_id == buildset_id && to_step == step
                && to_start_sequence == start_sequence && to_limit == 10_000)
            &&& command matches IpcCommand::Doctor { repository_id } ==> (
            call matches ServiceCall::Doctor {
                repository_id: to_repository_id,
            } && to_repository_id == repository_id)
            &&& command matches IpcCommand::Pause { repository_id, command_id } ==> (
            call matches ServiceCall::SetPaused {
                repository_id: to_repository_id,
                paused: to_paused,
                command_id: to_command_id,
            } && to_repository_id == repository_id && to_paused && to_command_id == command_id)
            &&& command matches IpcCommand::Resume { repository_id, command_id } ==> (
            call matches ServiceCall::SetPaused {
                repository_id: to_repository_id,
                paused: to_paused,
                command_id: to_command_id,
            } && to_repository_id == repository_id && !to_paused && to_command_id == command_id)
            &&& command matches IpcCommand::ReloadEnvironment { command_id } ==> (
            call matches ServiceCall::ReloadEnvironment {
                command_id: to_command_id,
            } && to_command_id == command_id)
        }),
{
}

/// From the line that the user types to the service, a pause pauses and a resumption
/// resumes the selected repository, and no other.
pub proof fn law_typing_reaches_the_service(
    command: CliCommand,
    selected: SelectedRepository,
    directory: String,
    command_id: CommandId,
)
    ensures
        command is Pause ==> (plan_of(
            command,
            selected,
            directory,
            command_id,
        ) matches CliPlan::Request(request) && call_for(request) == (ServiceCall::SetPaused {
            repository_id: selected.id,
            paused: true,
            command_id,
        })),
        command is Resume ==> (plan_of(
            command,
            selected,
            directory,
            command_id,
        ) matches CliPlan::Request(request) && call_for(request) == (ServiceCall::SetPaused {
            repository_id: selected.id,
            paused: false,
            command_id,
        })),
        command matches CliCommand::Cancel { id } ==> (plan_of(
            command,
            selected,
            directory,
            command_id,
        ) matches CliPlan::Request(request) && call_for(request) == (ServiceCall::Cancel {
            repository_id: selected.id,
            item_id: id,
            expected_revision: selected.queue_revision,
            command_id,
        })),
        command matches CliCommand::Promote { ids } ==> (plan_of(
            command,
            selected,
            directory,
            command_id,
        ) matches CliPlan::Request(request) && call_for(request) == (ServiceCall::ReorderQueue {
            repository_id: selected.id,
            selected_ids: ids,
            expected_revision: selected.queue_revision,
            command_id,
        })),
{
}

proof fn lemma_part_inside(before: Seq<char>, part: Seq<char>, after: Seq<char>)
    ensures
        contains_part(before + part + after, part),
{
    let whole = before + part + after;
    assert(whole.subrange(before.len() as int, (before.len() + part.len()) as int) =~= part);
    assert(occurs_at(whole, part, before.len() as int));
}

/// An error that speaks of a conflict of revisions is one, whatever else it says; an error
/// is of another kind only if it speaks of that.
pub proof fn law_errors_are_of_a_kind(
    message: Seq<char>,
    before: Seq<char>,
    after: Seq<char>,
)
    ensures
        error_class(before + "revision conflict"@ + after) == "revision-conflict"@,
        !contains_part(before + "configuration"@ + after, "revision conflict"@) ==> error_class(
            before + "configuration"@ + after,
        ) == "configuration-invalid"@,
        ({
            let plain = !contains_part(message, "revision conflict"@) && !contains_part(
                message,
                "configuration"@,
            );
            let missing = contains_part(message, "not registered"@) || contains_part(
                message,
                "not found"@,
            );
            let blocked = contains_part(message, "blocked"@) || contains_part(
                message,
                "unavailable"@,
            );
            &&& plain && missing ==> error_class(message) == "not-found"@
            &&& plain && !missing && blocked ==> error_class(message) == "repository-blocked"@
            &&& plain && !missing && !blocked ==> error_class(message) == "service-error"@
        }),
{
    lemma_part_inside(before, "revision conflict"@, after);
    lemma_part_inside(before, "configuration"@, after);
}

/// An error that is not written in full reaches the client with its message, and is not to
/// be tried again; one that is written in full is passed on as it is.
pub proof fn law_messages_are_passed_on(message: Seq<char>)
    ensures
        held_error(message) is None ==> error_for(message).message == message && error_for(
            message,
        ).code == error_class(message) && !error_for(message).retryable && error_for(
            message,
        ).details is None,
        held_error(message) matches Some(error) ==> error_for(message) == error,
{
}

/// A client whose candidate was refused is told what to rebase onto: the tip of the branch,
/// under its own name; and each kind of refusal has its own.
pub proof fn law_refusals_say_what_to_rebase_onto(refusal: CandidateRefusal, message: Seq<char>)
    ensures
        refusal_error(refusal, message).message == message,
        refusal_error(refusal, message).retryable,
        refusal matches CandidateRefusal::StaleQueuePrefix {
            source_parent_oid,
            release_oid,
            queue_revision,
            current_prefix_oid,
        } ==> refusal_code(refusal) == "stale-queue-prefix"@ && {
            let details = Tree::Table(retry_details(refusal));
            &&& details.field("release_oid"@) == Some(oid_tree(release_oid@))
            &&& details.field("source_parent_oid"@) == Some(oid_tree(source_parent_oid@))
            &&& details.field("current_prefix_oid"@) == Some(oid_tree(current_prefix_oid@))
            &&& details.field("queue_revision"@) == Some(Tree::Integer(queue_revision as int))
        },
        refusal matches CandidateRefusal::UnknownSourceAncestor {
            ancestor,
            release_oid,
            queue_revision,
            current_prefix_oid,
        } ==> refusal_code(refusal) == "unknown-source-ancestor"@ && {
            let details = Tree::Table(retry_details(refusal));
            &&& details.field("release_oid"@) == Some(oid_tree(release_oid@))
            &&& details.field("ancestor_oid"@) == Some(oid_tree(ancestor@))
            &&& details.field("current_prefix_oid"@) == Some(oid_tree(current_prefix_oid@))
            &&& details.field("queue_revision"@) == Some(Tree::Integer(queue_revision as int))
        },
        refusal matches CandidateRefusal::UnpromotedSourceAncestor { ancestor, release_oid }
            ==> refusal_code(refusal) == "unpromoted-source-ancestor"@ && {
            let details = Tree::Table(retry_details(refusal));
            &&& details.field("release_oid"@) == Some(oid_tree(release_oid@))
            &&& details.field("ancestor_oid"@) == Some(oid_tree(ancestor@))
        },
{
    reveal_strlit("source_parent_oid");
    reveal_strlit("ancestor_oid");
    reveal_strlit("release_oid");
    reveal_strlit("queue_revision");
    reveal_strlit("current_prefix_oid");
    reveal_strlit("retry");
    let entries = retry_details(refusal);
    if !(refusal is Other) {
        lemma_distinct_details(entries);
        lemma_lookup_finds(entries, 0);
        lemma_lookup_finds(entries, 1);
        if !(refusal is UnpromotedSourceAncestor) {
            lemma_lookup_finds(entries, 2);
            lemma_lookup_finds(entries, 3);
        }
    }
}

proof fn lemma_distinct_details(entries: Seq<(Seq<char>, Tree)>)
    requires
        forall|i: int, j: int|
            0 <= i < j < entries.len() ==> (#[trigger] entries[i]).0.len() != (
            #[trigger] entries[j]).0.len(),
    ensures
        crate::document::distinct_entries(entries),
{
}

} // verus!
