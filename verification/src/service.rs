//! What the app does with a command, and how it answers.

use crate::document::{Document, Fields};
#[allow(unused_imports)]
use crate::document::{distinct_entries, lemma_table_writable, lemma_writable_deeper, Tree};
use crate::ids::{BuildsetId, CommandId, QueueItemId, RepositoryId, SlotId};
use crate::ipc::{IpcResponse, StructuredError};
#[allow(unused_imports)]
use crate::ipc::{error_of, ErrorView, ResponseView};
use crate::ipc_command::IpcCommand;
use crate::oid::GitOid;
use crate::outside::{decode_text, json_document, json_value, parse_json, write_json};
#[allow(unused_imports)]
use crate::outside::json_parsed;
use crate::scan::{contains_str, strip_prefix};
#[allow(unused_imports)]
use crate::scan::{begins_with, contains_part};
use crate::state::CleanupPolicy;
use crate::wire::oid_document;
#[allow(unused_imports)]
use crate::wire::oid_tree;
use vstd::prelude::*;
#[allow(unused_imports)]
use vstd::utf8::{decode_utf8, decode_utf8_encode_utf8, encode_utf8, valid_utf8};

verus! {

/// How many frames of a log one answer holds at most.
pub const LOG_FRAME_LIMIT: usize = 10_000;

/// What stands before an error that is written in full.
pub const STRUCTURED_SERVICE_ERROR_PREFIX: &'static str = "tollgate-structured-error:";

/// What the service is asked to do.
#[derive(Clone, Debug, PartialEq, Eq)]
#[allow(inconsistent_fields)]
pub enum ServiceCall {
    Snapshot,
    ItemStatus { repository_id: RepositoryId, item_id: QueueItemId },
    ItemDetailsById { repository_id: Option<RepositoryId>, item_id: QueueItemId },
    ItemWaitStatus { repository_id: RepositoryId, item_id: QueueItemId },
    InitializeRepository { path: String, run: Option<String>, bootstrap: bool, detach_master: bool },
    Approve { repository_id: RepositoryId, revision: String, worktree_path: Option<String>, purpose: Option<String>, cleanup: CleanupPolicy, command_id: CommandId },
    SubmitCandidate { repository_id: RepositoryId, revision: String, worktree_path: Option<String>, cleanup: CleanupPolicy, command_id: CommandId },
    AuthorizeCandidate { repository_id: RepositoryId, item_id: QueueItemId, expected_revision: u64, command_id: CommandId },
    Check { repository_id: RepositoryId, revision: String, worktree_path: Option<String>, command_id: CommandId },
    DiagnoseFailure { repository_id: RepositoryId, item_id: QueueItemId, replay: bool, verify_repair: bool, command_id: CommandId },
    Cancel { repository_id: RepositoryId, item_id: QueueItemId, expected_revision: u64, command_id: CommandId },
    Retry { repository_id: RepositoryId, item_id: QueueItemId, cold: bool, command_id: CommandId },
    ReorderQueue { repository_id: RepositoryId, selected_ids: Vec<QueueItemId>, expected_revision: u64, command_id: CommandId },
    Pull { repository_id: RepositoryId, command_id: CommandId },
    Push { repository_id: RepositoryId, command_id: CommandId },
    Reconcile { repository_id: RepositoryId, expected_observed_master: Option<GitOid>, expected_queue_revision: Option<u64>, command_id: CommandId },
    UpdateFeatureWorktree { repository_id: RepositoryId, worktree_path: String, command_id: CommandId },
    CreateWorktree { repository_id: RepositoryId, branch: String, destination: Option<String>, command_id: CommandId },
    RemoveWorktree { repository_id: RepositoryId, path: String, command_id: CommandId },
    UnregisterRepository { repository_id: RepositoryId, command_id: CommandId },
    ApplyConfiguration { repository_id: RepositoryId, command_id: CommandId },
    ValidateConfiguration { repository_id: RepositoryId },
    RegenerateConfiguration { repository_id: RepositoryId, command_id: CommandId },
    ResetSlot { repository_id: RepositoryId, slot_id: SlotId, command_id: CommandId },
    SnapshotCache { repository_id: RepositoryId, command_id: CommandId },
    PurgeCache { repository_id: RepositoryId, all_slots: bool, command_id: CommandId },
    StorageStatus,
    PruneStorage { force: bool, command_id: CommandId },
    SetArtifactPinned { repository_id: RepositoryId, artifact_id: String, pinned: bool, command_id: CommandId },
    PruneArtifact { repository_id: RepositoryId, artifact_id: String, command_id: CommandId },
    Logs { repository_id: RepositoryId, item_id: QueueItemId, buildset_id: Option<BuildsetId>, step: Option<String>, start_sequence: u64, limit: usize },
    Doctor { repository_id: RepositoryId },
    SetPaused { repository_id: RepositoryId, paused: bool, command_id: CommandId },
    ReloadEnvironment { command_id: CommandId },
}

/// What becomes of a worktree once its commit has been promoted.
pub open spec fn cleanup_of(retain_worktree: bool) -> CleanupPolicy {
    if retain_worktree {
        CleanupPolicy::RetainWorktree
    } else {
        CleanupPolicy::Automatic
    }
}

fn cleanup_policy(retain_worktree: bool) -> (r: CleanupPolicy)
    ensures
        r == cleanup_of(retain_worktree),
{
    if retain_worktree {
        CleanupPolicy::RetainWorktree
    } else {
        CleanupPolicy::Automatic
    }
}

/// What the service is asked to do for a command.
pub open spec fn call_for(command: IpcCommand) -> ServiceCall {
    match command {
        IpcCommand::Snapshot => ServiceCall::Snapshot,
        IpcCommand::ItemStatus { repository_id, item_id } => ServiceCall::ItemStatus { repository_id, item_id },
        IpcCommand::ItemDetails { repository_id, item_id } => ServiceCall::ItemDetailsById { repository_id, item_id },
        IpcCommand::ItemWaitStatus { repository_id, item_id } => ServiceCall::ItemWaitStatus { repository_id, item_id },
        IpcCommand::Initialize { path, run, bootstrap, detach_master } => ServiceCall::InitializeRepository { path, run, bootstrap, detach_master },
        IpcCommand::Approve { repository_id, revision, worktree_path, purpose, retain_worktree, command_id } => ServiceCall::Approve { repository_id, revision, worktree_path, purpose, cleanup: cleanup_of(retain_worktree), command_id },
        IpcCommand::Candidate { repository_id, revision, worktree_path, retain_worktree, command_id } => ServiceCall::SubmitCandidate { repository_id, revision, worktree_path, cleanup: cleanup_of(retain_worktree), command_id },
        IpcCommand::AuthorizeCandidate { repository_id, item_id, expected_revision, command_id } => ServiceCall::AuthorizeCandidate { repository_id, item_id, expected_revision, command_id },
        IpcCommand::Check { repository_id, revision, worktree_path, command_id } => ServiceCall::Check { repository_id, revision, worktree_path, command_id },
        IpcCommand::Diagnose { repository_id, item_id, replay, verify_repair, command_id } => ServiceCall::DiagnoseFailure { repository_id, item_id, replay, verify_repair, command_id },
        IpcCommand::Cancel { repository_id, item_id, expected_revision, command_id } => ServiceCall::Cancel { repository_id, item_id, expected_revision, command_id },
        IpcCommand::Retry { repository_id, item_id, cold, command_id } => ServiceCall::Retry { repository_id, item_id, cold, command_id },
        IpcCommand::Reorder { repository_id, selected_ids, expected_revision, command_id } => ServiceCall::ReorderQueue { repository_id, selected_ids, expected_revision, command_id },
        IpcCommand::Pull { repository_id, command_id } => ServiceCall::Pull { repository_id, command_id },
        IpcCommand::Push { repository_id, command_id } => ServiceCall::Push { repository_id, command_id },
        IpcCommand::Reconcile { repository_id, expected_observed_master, expected_queue_revision, command_id } => ServiceCall::Reconcile { repository_id, expected_observed_master, expected_queue_revision, command_id },
        IpcCommand::Update { repository_id, worktree_path, command_id } => ServiceCall::UpdateFeatureWorktree { repository_id, worktree_path, command_id },
        IpcCommand::WorktreeCreate { repository_id, branch, destination, warm: _, command_id } => ServiceCall::CreateWorktree { repository_id, branch, destination, command_id },
        IpcCommand::WorktreeRemove { repository_id, path, command_id } => ServiceCall::RemoveWorktree { repository_id, path, command_id },
        IpcCommand::RemoveRepository { repository_id, command_id } => ServiceCall::UnregisterRepository { repository_id, command_id },
        IpcCommand::ApplyConfiguration { repository_id, command_id } => ServiceCall::ApplyConfiguration { repository_id, command_id },
        IpcCommand::ValidateConfiguration { repository_id } => ServiceCall::ValidateConfiguration { repository_id },
        IpcCommand::RegenerateConfiguration { repository_id, command_id } => ServiceCall::RegenerateConfiguration { repository_id, command_id },
        IpcCommand::ResetSlot { repository_id, slot_id, command_id } => ServiceCall::ResetSlot { repository_id, slot_id, command_id },
        IpcCommand::SnapshotCache { repository_id, command_id } => ServiceCall::SnapshotCache { repository_id, command_id },
        IpcCommand::PurgeCache { repository_id, all_slots, command_id } => ServiceCall::PurgeCache { repository_id, all_slots, command_id },
        IpcCommand::StorageStatus => ServiceCall::StorageStatus,
        IpcCommand::StoragePrune { force, command_id } => ServiceCall::PruneStorage { force, command_id },
        IpcCommand::ArtifactPin { repository_id, artifact_id, pinned, command_id } => ServiceCall::SetArtifactPinned { repository_id, artifact_id, pinned, command_id },
        IpcCommand::ArtifactPrune { repository_id, artifact_id, command_id } => ServiceCall::PruneArtifact { repository_id, artifact_id, command_id },
        IpcCommand::Logs { repository_id, item_id, buildset_id, step, start_sequence } => ServiceCall::Logs { repository_id, item_id, buildset_id, step, start_sequence, limit: LOG_FRAME_LIMIT },
        IpcCommand::Doctor { repository_id } => ServiceCall::Doctor { repository_id },
        IpcCommand::Pause { repository_id, command_id } => ServiceCall::SetPaused { repository_id, paused: true, command_id },
        IpcCommand::Resume { repository_id, command_id } => ServiceCall::SetPaused { repository_id, paused: false, command_id },
        IpcCommand::ReloadEnvironment { command_id } => ServiceCall::ReloadEnvironment { command_id },
    }
}

/// What the service is asked to do for a command.
pub fn route(command: IpcCommand) -> (r: ServiceCall)
    ensures
        r == call_for(command),
{
    match command {
        IpcCommand::Snapshot => ServiceCall::Snapshot,
        IpcCommand::ItemStatus { repository_id, item_id } => ServiceCall::ItemStatus { repository_id, item_id },
        IpcCommand::ItemDetails { repository_id, item_id } => ServiceCall::ItemDetailsById { repository_id, item_id },
        IpcCommand::ItemWaitStatus { repository_id, item_id } => ServiceCall::ItemWaitStatus { repository_id, item_id },
        IpcCommand::Initialize { path, run, bootstrap, detach_master } => ServiceCall::InitializeRepository { path, run, bootstrap, detach_master },
        IpcCommand::Approve { repository_id, revision, worktree_path, purpose, retain_worktree, command_id } => ServiceCall::Approve { repository_id, revision, worktree_path, purpose, cleanup: cleanup_policy(retain_worktree), command_id },
        IpcCommand::Candidate { repository_id, revision, worktree_path, retain_worktree, command_id } => ServiceCall::SubmitCandidate { repository_id, revision, worktree_path, cleanup: cleanup_policy(retain_worktree), command_id },
        IpcCommand::AuthorizeCandidate { repository_id, item_id, expected_revision, command_id } => ServiceCall::AuthorizeCandidate { repository_id, item_id, expected_revision, command_id },
        IpcCommand::Check { repository_id, revision, worktree_path, command_id } => ServiceCall::Check { repository_id, revision, worktree_path, command_id },
        IpcCommand::Diagnose { repository_id, item_id, replay, verify_repair, command_id } => ServiceCall::DiagnoseFailure { repository_id, item_id, replay, verify_repair, command_id },
        IpcCommand::Cancel { repository_id, item_id, expected_revision, command_id } => ServiceCall::Cancel { repository_id, item_id, expected_revision, command_id },
        IpcCommand::Retry { repository_id, item_id, cold, command_id } => ServiceCall::Retry { repository_id, item_id, cold, command_id },
        IpcCommand::Reorder { repository_id, selected_ids, expected_revision, command_id } => ServiceCall::ReorderQueue { repository_id, selected_ids, expected_revision, command_id },
        IpcCommand::Pull { repository_id, command_id } => ServiceCall::Pull { repository_id, command_id },
        IpcCommand::Push { repository_id, command_id } => ServiceCall::Push { repository_id, command_id },
        IpcCommand::Reconcile { repository_id, expected_observed_master, expected_queue_revision, command_id } => ServiceCall::Reconcile { repository_id, expected_observed_master, expected_queue_revision, command_id },
        IpcCommand::Update { repository_id, worktree_path, command_id } => ServiceCall::UpdateFeatureWorktree { repository_id, worktree_path, command_id },
        IpcCommand::WorktreeCreate { repository_id, branch, destination, warm: _, command_id } => ServiceCall::CreateWorktree { repository_id, branch, destination, command_id },
        IpcCommand::WorktreeRemove { repository_id, path, command_id } => ServiceCall::RemoveWorktree { repository_id, path, command_id },
        IpcCommand::RemoveRepository { repository_id, command_id } => ServiceCall::UnregisterRepository { repository_id, command_id },
        IpcCommand::ApplyConfiguration { repository_id, command_id } => ServiceCall::ApplyConfiguration { repository_id, command_id },
        IpcCommand::ValidateConfiguration { repository_id } => ServiceCall::ValidateConfiguration { repository_id },
        IpcCommand::RegenerateConfiguration { repository_id, command_id } => ServiceCall::RegenerateConfiguration { repository_id, command_id },
        IpcCommand::ResetSlot { repository_id, slot_id, command_id } => ServiceCall::ResetSlot { repository_id, slot_id, command_id },
        IpcCommand::SnapshotCache { repository_id, command_id } => ServiceCall::SnapshotCache { repository_id, command_id },
        IpcCommand::PurgeCache { repository_id, all_slots, command_id } => ServiceCall::PurgeCache { repository_id, all_slots, command_id },
        IpcCommand::StorageStatus => ServiceCall::StorageStatus,
        IpcCommand::StoragePrune { force, command_id } => ServiceCall::PruneStorage { force, command_id },
        IpcCommand::ArtifactPin { repository_id, artifact_id, pinned, command_id } => ServiceCall::SetArtifactPinned { repository_id, artifact_id, pinned, command_id },
        IpcCommand::ArtifactPrune { repository_id, artifact_id, command_id } => ServiceCall::PruneArtifact { repository_id, artifact_id, command_id },
        IpcCommand::Logs { repository_id, item_id, buildset_id, step, start_sequence } => ServiceCall::Logs { repository_id, item_id, buildset_id, step, start_sequence, limit: LOG_FRAME_LIMIT },
        IpcCommand::Doctor { repository_id } => ServiceCall::Doctor { repository_id },
        IpcCommand::Pause { repository_id, command_id } => ServiceCall::SetPaused { repository_id, paused: true, command_id },
        IpcCommand::Resume { repository_id, command_id } => ServiceCall::SetPaused { repository_id, paused: false, command_id },
        IpcCommand::ReloadEnvironment { command_id } => ServiceCall::ReloadEnvironment { command_id },
    }
}

/// The kind of an error, by what it says.
pub open spec fn error_class(message: Seq<char>) -> Seq<char> {
    if contains_part(message, "revision conflict"@) {
        "revision-conflict"@
    } else if contains_part(message, "configuration"@) {
        "configuration-invalid"@
    } else if contains_part(message, "not registered"@) || contains_part(message, "not found"@) {
        "not-found"@
    } else if contains_part(message, "blocked"@) || contains_part(message, "unavailable"@) {
        "repository-blocked"@
    } else {
        "service-error"@
    }
}

/// The kind of an error, by what it says.
pub fn classify_service_error(message: &str) -> (r: &'static str)
    ensures
        r@ == error_class(message@),
{
    if contains_str(message, "revision conflict") {
        "revision-conflict"
    } else if contains_str(message, "configuration") {
        "configuration-invalid"
    } else if contains_str(message, "not registered") || contains_str(message, "not found") {
        "not-found"
    } else if contains_str(message, "blocked") || contains_str(message, "unavailable") {
        "repository-blocked"
    } else {
        "service-error"
    }
}

/// The error that a message holds in full, if it holds one.
pub open spec fn held_error(message: Seq<char>) -> Option<ErrorView> {
    if !begins_with(message, STRUCTURED_SERVICE_ERROR_PREFIX@) {
        None
    } else {
        match json_parsed(encode_utf8(message.skip(STRUCTURED_SERVICE_ERROR_PREFIX@.len() as int))) {
            Some(tree) => error_of(tree),
            None => None,
        }
    }
}

/// The error that a message stands for.
pub open spec fn error_for(message: Seq<char>) -> ErrorView {
    match held_error(message) {
        Some(error) => error,
        None => ErrorView {
            code: error_class(message),
            message,
            retryable: false,
            details: None,
        },
    }
}

fn read_held_error(message: &str) -> (r: Option<StructuredError>)
    ensures
        match r {
            Some(error) => held_error(message@) == Some(error@),
            None => held_error(message@) is None,
        },
{
    let encoded = match strip_prefix(message, STRUCTURED_SERVICE_ERROR_PREFIX) {
        Some(encoded) => encoded,
        None => {
            return None;
        },
    };
    match parse_json(encoded.as_str().as_bytes()) {
        Ok(value) => StructuredError::read(&json_document(value)),
        Err(_) => None,
    }
}

/// Answers a command by how the service carried it out.
pub fn respond(outcome: Result<Document, String>) -> (r: IpcResponse)
    ensures
        match outcome {
            Ok(value) => r@ == (ResponseView { ok: true, result: Some(value@), error: None }),
            Err(message) => r@ == (ResponseView {
                ok: false,
                result: None,
                error: Some(error_for(message@)),
            }),
        },
{
    match outcome {
        Ok(value) => IpcResponse { ok: true, result: Some(value), error: None },
        Err(message) => {
            let error = match read_held_error(message.as_str()) {
                Some(error) => error,
                None => {
                    let code = classify_service_error(message.as_str()).to_owned();
                    StructuredError { code, message, retryable: false, details: None }
                },
            };
            IpcResponse { ok: false, result: None, error: Some(error) }
        },
    }
}

/// Why a candidate was not taken.
#[derive(Clone, Debug, PartialEq, Eq)]
#[allow(inconsistent_fields)]
pub enum CandidateRefusal {
    StaleQueuePrefix {
        source_parent_oid: GitOid,
        release_oid: GitOid,
        queue_revision: u64,
        current_prefix_oid: GitOid,
    },
    UnknownSourceAncestor {
        ancestor: GitOid,
        release_oid: GitOid,
        queue_revision: u64,
        current_prefix_oid: GitOid,
    },
    UnpromotedSourceAncestor { ancestor: GitOid, release_oid: GitOid },
    Other,
}

impl CandidateRefusal {
    /// The identifiers are well formed.
    pub open spec fn wf(self) -> bool {
        match self {
            CandidateRefusal::StaleQueuePrefix {
                source_parent_oid,
                release_oid,
                queue_revision,
                current_prefix_oid,
            } => source_parent_oid.wf() && release_oid.wf() && current_prefix_oid.wf(),
            CandidateRefusal::UnknownSourceAncestor {
                ancestor,
                release_oid,
                queue_revision,
                current_prefix_oid,
            } => ancestor.wf() && release_oid.wf() && current_prefix_oid.wf(),
            CandidateRefusal::UnpromotedSourceAncestor { ancestor, release_oid } => ancestor.wf()
                && release_oid.wf(),
            CandidateRefusal::Other => true,
        }
    }
}

/// What a client is to know to try again.
pub open spec fn retry_details(refusal: CandidateRefusal) -> Seq<(Seq<char>, Tree)> {
    match refusal {
        CandidateRefusal::StaleQueuePrefix {
            source_parent_oid,
            release_oid,
            queue_revision,
            current_prefix_oid,
        } => seq![
            ("source_parent_oid"@, oid_tree(source_parent_oid@)),
            ("release_oid"@, oid_tree(release_oid@)),
            ("queue_revision"@, Tree::Integer(queue_revision as int)),
            ("current_prefix_oid"@, oid_tree(current_prefix_oid@)),
            (
                "retry"@,
                Tree::Text(
                    "Rebase the single task commit onto release_oid only, never current_prefix_oid; resolve and regenerate, then resubmit."@,
                ),
            ),
        ],
        CandidateRefusal::UnknownSourceAncestor {
            ancestor,
            release_oid,
            queue_revision,
            current_prefix_oid,
        } => seq![
            ("ancestor_oid"@, oid_tree(ancestor@)),
            ("release_oid"@, oid_tree(release_oid@)),
            ("queue_revision"@, Tree::Integer(queue_revision as int)),
            ("current_prefix_oid"@, oid_tree(current_prefix_oid@)),
            (
                "retry"@,
                Tree::Text(
                    "Rebase the single task commit onto release_oid only, never current_prefix_oid, then resubmit."@,
                ),
            ),
        ],
        CandidateRefusal::UnpromotedSourceAncestor { ancestor, release_oid } => seq![
            ("ancestor_oid"@, oid_tree(ancestor@)),
            ("release_oid"@, oid_tree(release_oid@)),
            (
                "retry"@,
                Tree::Text(
                    "Rebase the single task commit onto release_oid only, then resubmit."@,
                ),
            ),
        ],
        CandidateRefusal::Other => seq![],
    }
}

/// The kind of a refusal.
pub open spec fn refusal_code(refusal: CandidateRefusal) -> Seq<char> {
    match refusal {
        CandidateRefusal::StaleQueuePrefix { .. } => "stale-queue-prefix"@,
        CandidateRefusal::UnknownSourceAncestor { .. } => "unknown-source-ancestor"@,
        CandidateRefusal::UnpromotedSourceAncestor { .. } => "unpromoted-source-ancestor"@,
        CandidateRefusal::Other => "service-error"@,
    }
}

/// What a client is told of a refusal.
pub open spec fn refusal_error(refusal: CandidateRefusal, message: Seq<char>) -> ErrorView {
    ErrorView {
        code: refusal_code(refusal),
        message,
        retryable: true,
        details: Some(Tree::Table(retry_details(refusal))),
    }
}

proof fn lemma_detail_names()
    ensures
        "source_parent_oid"@ != "ancestor_oid"@,
        "source_parent_oid"@ != "release_oid"@,
        "source_parent_oid"@ != "queue_revision"@,
        "source_parent_oid"@ != "current_prefix_oid"@,
        "source_parent_oid"@ != "retry"@,
        "ancestor_oid"@ != "release_oid"@,
        "ancestor_oid"@ != "queue_revision"@,
        "ancestor_oid"@ != "current_prefix_oid"@,
        "ancestor_oid"@ != "retry"@,
        "release_oid"@ != "queue_revision"@,
        "release_oid"@ != "current_prefix_oid"@,
        "release_oid"@ != "retry"@,
        "queue_revision"@ != "current_prefix_oid"@,
        "queue_revision"@ != "retry"@,
        "current_prefix_oid"@ != "retry"@,
{
    reveal_strlit("source_parent_oid");
    reveal_strlit("ancestor_oid");
    reveal_strlit("release_oid");
    reveal_strlit("queue_revision");
    reveal_strlit("current_prefix_oid");
    reveal_strlit("retry");
    assert("source_parent_oid"@.len() != "ancestor_oid"@.len());
    assert("source_parent_oid"@.len() != "release_oid"@.len());
    assert("source_parent_oid"@.len() != "queue_revision"@.len());
    assert("source_parent_oid"@.len() != "current_prefix_oid"@.len());
    assert("source_parent_oid"@.len() != "retry"@.len());
    assert("ancestor_oid"@.len() != "release_oid"@.len());
    assert("ancestor_oid"@.len() != "queue_revision"@.len());
    assert("ancestor_oid"@.len() != "current_prefix_oid"@.len());
    assert("ancestor_oid"@.len() != "retry"@.len());
    assert("release_oid"@.len() != "queue_revision"@.len());
    assert("release_oid"@.len() != "current_prefix_oid"@.len());
    assert("release_oid"@.len() != "retry"@.len());
    assert("queue_revision"@.len() != "current_prefix_oid"@.len());
    assert("queue_revision"@.len() != "retry"@.len());
    assert("current_prefix_oid"@.len() != "retry"@.len());
}

fn stale_details(
    source_parent_oid: &GitOid,
    release_oid: &GitOid,
    queue_revision: u64,
    current_prefix_oid: &GitOid,
    Ghost(refusal): Ghost<CandidateRefusal>,
) -> (r: Document)
    requires
        refusal.wf(),
        refusal matches CandidateRefusal::StaleQueuePrefix {
            source_parent_oid: a,
            release_oid: b,
            queue_revision: c,
            current_prefix_oid: d,
        } && a@ == source_parent_oid@ && b@ == release_oid@ && c == queue_revision && d@
            == current_prefix_oid@,
    ensures
        r@ == Tree::Table(retry_details(refusal)),
        r@.writable(8),
{
    let mut fields = Fields::new();
    fields.put("source_parent_oid", oid_document(source_parent_oid));
    fields.put("release_oid", oid_document(release_oid));
    fields.put("queue_revision", Document::Integer(queue_revision as i128));
    fields.put("current_prefix_oid", oid_document(current_prefix_oid));
    fields.put(
        "retry",
        Document::Text(
            "Rebase the single task commit onto release_oid only, never current_prefix_oid; resolve and regenerate, then resubmit.".to_owned(),
        ),
    );
    proof {
        let entries = fields@;
        assert(entries =~= retry_details(refusal));
        lemma_detail_names();
        assert(entries[0].0 == "source_parent_oid"@);
        assert(entries[1].0 == "release_oid"@);
        assert(entries[2].0 == "queue_revision"@);
        assert(entries[3].0 == "current_prefix_oid"@);
        assert(entries[4].0 == "retry"@);
        assert(distinct_entries(entries));
        lemma_writable_deeper(entries[0].1, 2, 7);
        lemma_writable_deeper(entries[1].1, 2, 7);
        lemma_writable_deeper(entries[3].1, 2, 7);
        lemma_table_writable(entries, 7);
    }
    fields.build()
}

fn unknown_details(
    ancestor: &GitOid,
    release_oid: &GitOid,
    queue_revision: u64,
    current_prefix_oid: &GitOid,
    Ghost(refusal): Ghost<CandidateRefusal>,
) -> (r: Document)
    requires
        refusal.wf(),
        refusal matches CandidateRefusal::UnknownSourceAncestor {
            ancestor: a,
            release_oid: b,
            queue_revision: c,
            current_prefix_oid: d,
        } && a@ == ancestor@ && b@ == release_oid@ && c == queue_revision && d@
            == current_prefix_oid@,
    ensures
        r@ == Tree::Table(retry_details(refusal)),
        r@.writable(8),
{
    let mut fields = Fields::new();
    fields.put("ancestor_oid", oid_document(ancestor));
    fields.put("release_oid", oid_document(release_oid));
    fields.put("queue_revision", Document::Integer(queue_revision as i128));
    fields.put("current_prefix_oid", oid_document(current_prefix_oid));
    fields.put(
        "retry",
        Document::Text(
            "Rebase the single task commit onto release_oid only, never current_prefix_oid, then resubmit.".to_owned(),
        ),
    );
    proof {
        let entries = fields@;
        assert(entries =~= retry_details(refusal));
        lemma_detail_names();
        assert(entries[0].0 == "ancestor_oid"@);
        assert(entries[1].0 == "release_oid"@);
        assert(entries[2].0 == "queue_revision"@);
        assert(entries[3].0 == "current_prefix_oid"@);
        assert(entries[4].0 == "retry"@);
        assert(distinct_entries(entries));
        lemma_writable_deeper(entries[0].1, 2, 7);
        lemma_writable_deeper(entries[1].1, 2, 7);
        lemma_writable_deeper(entries[3].1, 2, 7);
        lemma_table_writable(entries, 7);
    }
    fields.build()
}

fn unpromoted_details(
    ancestor: &GitOid,
    release_oid: &GitOid,
    Ghost(refusal): Ghost<CandidateRefusal>,
) -> (r: Document)
    requires
        refusal.wf(),
        refusal matches CandidateRefusal::UnpromotedSourceAncestor {
            ancestor: a,
            release_oid: b,
        } && a@ == ancestor@ && b@ == release_oid@,
    ensures
        r@ == Tree::Table(retry_details(refusal)),
        r@.writable(8),
{
    let mut fields = Fields::new();
    fields.put("ancestor_oid", oid_document(ancestor));
    fields.put("release_oid", oid_document(release_oid));
    fields.put(
        "retry",
        Document::Text(
            "Rebase the single task commit onto release_oid only, then resubmit.".to_owned(),
        ),
    );
    proof {
        let entries = fields@;
        assert(entries =~= retry_details(refusal));
        lemma_detail_names();
        assert(entries[0].0 == "ancestor_oid"@);
        assert(entries[1].0 == "release_oid"@);
        assert(entries[2].0 == "retry"@);
        assert(distinct_entries(entries));
        lemma_writable_deeper(entries[0].1, 2, 7);
        lemma_writable_deeper(entries[1].1, 2, 7);
        lemma_table_writable(entries, 7);
    }
    fields.build()
}

fn structured(code: &str, message: &str, details: Document) -> (r: String)
    requires
        details@.writable(8),
        details@ is Table,
    ensures
        begins_with(r@, STRUCTURED_SERVICE_ERROR_PREFIX@),
        held_error(r@) == Some(
            ErrorView { code: code@, message: message@, retryable: true, details: Some(details@) },
        ),
{
    let error = StructuredError {
        code: code.to_owned(),
        message: message.to_owned(),
        retryable: true,
        details: Some(details),
    };
    let document = error.to_document();
    proof {
        lemma_writable_deeper(details@, 8, 125);
        error@.lemma_reads();
        lemma_writable_deeper(document@, 126, 127);
    }
    let bytes = write_json(&json_value(&document));
    let encoded = match decode_text(bytes.as_slice()) {
        Ok(encoded) => encoded,
        Err(_) => {
            assert(false);
            String::new()
        },
    };
    let r = STRUCTURED_SERVICE_ERROR_PREFIX.to_owned().concat(encoded.as_str());
    proof {
        let prefix = STRUCTURED_SERVICE_ERROR_PREFIX@;
        assert(r@.take(prefix.len() as int) =~= prefix);
        assert(r@.skip(prefix.len() as int) =~= encoded@);
        decode_utf8_encode_utf8(bytes@);
    }
    r
}

/// What the service says of a candidate that was not taken: a refusal after which a
/// client can try again is written in full, any other by its message alone.
pub fn encode_candidate_submission_error(refusal: &CandidateRefusal, message: &str) -> (r: String)
    requires
        refusal.wf(),
    ensures
        refusal is Other ==> r@ == message@,
        !(refusal is Other) ==> held_error(r@) == Some(refusal_error(*refusal, message@)),
{
    match refusal {
        CandidateRefusal::StaleQueuePrefix {
            source_parent_oid,
            release_oid,
            queue_revision,
            current_prefix_oid,
        } => {
            let details = stale_details(
                source_parent_oid,
                release_oid,
                *queue_revision,
                current_prefix_oid,
                Ghost(*refusal),
            );
            structured("stale-queue-prefix", message, details)
        },
        CandidateRefusal::UnknownSourceAncestor {
            ancestor,
            release_oid,
            queue_revision,
            current_prefix_oid,
        } => {
            let details = unknown_details(
                ancestor,
                release_oid,
                *queue_revision,
                current_prefix_oid,
                Ghost(*refusal),
            );
            structured("unknown-source-ancestor", message, details)
        },
        CandidateRefusal::UnpromotedSourceAncestor { ancestor, release_oid } => {
            let details = unpromoted_details(ancestor, release_oid, Ghost(*refusal));
            structured("unpromoted-source-ancestor", message, details)
        },
        CandidateRefusal::Other => message.to_owned(),
    }
}

/// A refusal after which a client can try again reaches it in full: its kind, its
/// message and its details. `encoded` is what the service said of it.
pub proof fn law_refusals_reach_the_client(
    refusal: CandidateRefusal,
    message: Seq<char>,
    encoded: Seq<char>,
)
    requires
        held_error(encoded) == Some(refusal_error(refusal, message)),
    ensures
        error_for(encoded).code == refusal_code(refusal),
        error_for(encoded).message == message,
        error_for(encoded).retryable,
        error_for(encoded).details == Some(Tree::Table(retry_details(refusal))),
{
}

} // verus!
