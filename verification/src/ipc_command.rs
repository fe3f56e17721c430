//! The commands that clients send over the socket, and their notation.

use crate::document::{Document, Fields};
#[allow(unused_imports)]
use crate::document::{
    distinct_entries, first_text, lemma_lookup_finds, lemma_lookup_misses, lemma_table_writable,
    lemma_writable_deeper, names_of, record, Tree,
};
use crate::ids::{BuildsetId, CommandId, QueueItemId, RepositoryId, SlotId};
use crate::oid::GitOid;
use crate::outside::{json_value, write_json};
#[allow(unused_imports)]
use crate::outside::{json_parsed, json_written};
use crate::text::str_equal;
use crate::wire::{
    id_document, ids_document, optional_id_document, optional_number_document,
    optional_oid_document, optional_text_document,
};
#[allow(unused_imports)]
use crate::wire::{
    id_tree, ids_tree, optional_id_tree, optional_number_tree, optional_oid_tree,
    optional_text_tree,
};
use vstd::prelude::*;

verus! {

/// What a client can ask of the app.
#[derive(Clone, Debug, PartialEq, Eq)]
#[allow(inconsistent_fields)]
pub enum IpcCommand {
    Snapshot,
    ItemStatus { repository_id: RepositoryId, item_id: QueueItemId },
    ItemDetails { repository_id: Option<RepositoryId>, item_id: QueueItemId },
    ItemWaitStatus { repository_id: RepositoryId, item_id: QueueItemId },
    Initialize { path: String, run: Option<String>, bootstrap: bool, detach_master: bool },
    Approve { repository_id: RepositoryId, revision: String, worktree_path: Option<String>, purpose: Option<String>, retain_worktree: bool, command_id: CommandId },
    Candidate { repository_id: RepositoryId, revision: String, worktree_path: Option<String>, retain_worktree: bool, command_id: CommandId },
    AuthorizeCandidate { repository_id: RepositoryId, item_id: QueueItemId, expected_revision: u64, command_id: CommandId },
    Check { repository_id: RepositoryId, revision: String, worktree_path: Option<String>, command_id: CommandId },
    Diagnose { repository_id: RepositoryId, item_id: QueueItemId, replay: bool, verify_repair: bool, command_id: CommandId },
    Cancel { repository_id: RepositoryId, item_id: QueueItemId, expected_revision: u64, command_id: CommandId },
    Retry { repository_id: RepositoryId, item_id: QueueItemId, cold: bool, command_id: CommandId },
    Reorder { repository_id: RepositoryId, selected_ids: Vec<QueueItemId>, expected_revision: u64, command_id: CommandId },
    Pull { repository_id: RepositoryId, command_id: CommandId },
    Push { repository_id: RepositoryId, command_id: CommandId },
    Reconcile { repository_id: RepositoryId, expected_observed_master: Option<GitOid>, expected_queue_revision: Option<u64>, command_id: CommandId },
    Update { repository_id: RepositoryId, worktree_path: String, command_id: CommandId },
    WorktreeCreate { repository_id: RepositoryId, branch: String, destination: Option<String>, warm: bool, command_id: CommandId },
    WorktreeRemove { repository_id: RepositoryId, path: String, command_id: CommandId },
    RemoveRepository { repository_id: RepositoryId, command_id: CommandId },
    ApplyConfiguration { repository_id: RepositoryId, command_id: CommandId },
    ValidateConfiguration { repository_id: RepositoryId },
    RegenerateConfiguration { repository_id: RepositoryId, command_id: CommandId },
    ResetSlot { repository_id: RepositoryId, slot_id: SlotId, command_id: CommandId },
    SnapshotCache { repository_id: RepositoryId, command_id: CommandId },
    PurgeCache { repository_id: RepositoryId, all_slots: bool, command_id: CommandId },
    StorageStatus,
    StoragePrune { force: bool, command_id: CommandId },
    ArtifactPin { repository_id: RepositoryId, artifact_id: String, pinned: bool, command_id: CommandId },
    ArtifactPrune { repository_id: RepositoryId, artifact_id: String, command_id: CommandId },
    Logs { repository_id: RepositoryId, item_id: QueueItemId, buildset_id: Option<BuildsetId>, step: Option<String>, start_sequence: u64 },
    Doctor { repository_id: RepositoryId },
    Pause { repository_id: RepositoryId, command_id: CommandId },
    Resume { repository_id: RepositoryId, command_id: CommandId },
    ReloadEnvironment { command_id: CommandId },
}

impl IpcCommand {
    /// The name of the command on the wire.
    pub open spec fn wire_name(self) -> Seq<char> {
        match self {
            IpcCommand::Snapshot => "snapshot"@,
            IpcCommand::ItemStatus { .. } => "item-status"@,
            IpcCommand::ItemDetails { .. } => "item-details"@,
            IpcCommand::ItemWaitStatus { .. } => "item-wait-status"@,
            IpcCommand::Initialize { .. } => "initialize"@,
            IpcCommand::Approve { .. } => "approve"@,
            IpcCommand::Candidate { .. } => "candidate"@,
            IpcCommand::AuthorizeCandidate { .. } => "authorize-candidate"@,
            IpcCommand::Check { .. } => "check"@,
            IpcCommand::Diagnose { .. } => "diagnose"@,
            IpcCommand::Cancel { .. } => "cancel"@,
            IpcCommand::Retry { .. } => "retry"@,
            IpcCommand::Reorder { .. } => "reorder"@,
            IpcCommand::Pull { .. } => "pull"@,
            IpcCommand::Push { .. } => "push"@,
            IpcCommand::Reconcile { .. } => "reconcile"@,
            IpcCommand::Update { .. } => "update"@,
            IpcCommand::WorktreeCreate { .. } => "worktree-create"@,
            IpcCommand::WorktreeRemove { .. } => "worktree-remove"@,
            IpcCommand::RemoveRepository { .. } => "remove-repository"@,
            IpcCommand::ApplyConfiguration { .. } => "apply-configuration"@,
            IpcCommand::ValidateConfiguration { .. } => "validate-configuration"@,
            IpcCommand::RegenerateConfiguration { .. } => "regenerate-configuration"@,
            IpcCommand::ResetSlot { .. } => "reset-slot"@,
            IpcCommand::SnapshotCache { .. } => "snapshot-cache"@,
            IpcCommand::PurgeCache { .. } => "purge-cache"@,
            IpcCommand::StorageStatus => "storage-status"@,
            IpcCommand::StoragePrune { .. } => "storage-prune"@,
            IpcCommand::ArtifactPin { .. } => "artifact-pin"@,
            IpcCommand::ArtifactPrune { .. } => "artifact-prune"@,
            IpcCommand::Logs { .. } => "logs"@,
            IpcCommand::Doctor { .. } => "doctor"@,
            IpcCommand::Pause { .. } => "pause"@,
            IpcCommand::Resume { .. } => "resume"@,
            IpcCommand::ReloadEnvironment { .. } => "reload-environment"@,
        }
    }

    /// What the command is written as: a table of its name, then its fields.
    pub open spec fn tree(self) -> Tree {
        match self {
            IpcCommand::Snapshot => Tree::Table(seq![("command"@, Tree::Text("snapshot"@))]),
            IpcCommand::ItemStatus { repository_id, item_id } => Tree::Table(item_status_entries(repository_id, item_id)),
            IpcCommand::ItemDetails { repository_id, item_id } => Tree::Table(item_details_entries(repository_id, item_id)),
            IpcCommand::ItemWaitStatus { repository_id, item_id } => Tree::Table(item_wait_status_entries(repository_id, item_id)),
            IpcCommand::Initialize { path, run, bootstrap, detach_master } => Tree::Table(initialize_entries(path, run, bootstrap, detach_master)),
            IpcCommand::Approve { repository_id, revision, worktree_path, purpose, retain_worktree, command_id } => Tree::Table(approve_entries(repository_id, revision, worktree_path, purpose, retain_worktree, command_id)),
            IpcCommand::Candidate { repository_id, revision, worktree_path, retain_worktree, command_id } => Tree::Table(candidate_entries(repository_id, revision, worktree_path, retain_worktree, command_id)),
            IpcCommand::AuthorizeCandidate { repository_id, item_id, expected_revision, command_id } => Tree::Table(authorize_candidate_entries(repository_id, item_id, expected_revision, command_id)),
            IpcCommand::Check { repository_id, revision, worktree_path, command_id } => Tree::Table(check_entries(repository_id, revision, worktree_path, command_id)),
            IpcCommand::Diagnose { repository_id, item_id, replay, verify_repair, command_id } => Tree::Table(diagnose_entries(repository_id, item_id, replay, verify_repair, command_id)),
            IpcCommand::Cancel { repository_id, item_id, expected_revision, command_id } => Tree::Table(cancel_entries(repository_id, item_id, expected_revision, command_id)),
            IpcCommand::Retry { repository_id, item_id, cold, command_id } => Tree::Table(retry_entries(repository_id, item_id, cold, command_id)),
            IpcCommand::Reorder { repository_id, selected_ids, expected_revision, command_id } => Tree::Table(reorder_entries(repository_id, selected_ids, expected_revision, command_id)),
            IpcCommand::Pull { repository_id, command_id } => Tree::Table(pull_entries(repository_id, command_id)),
            IpcCommand::Push { repository_id, command_id } => Tree::Table(push_entries(repository_id, command_id)),
            IpcCommand::Reconcile { repository_id, expected_observed_master, expected_queue_revision, command_id } => Tree::Table(reconcile_entries(repository_id, expected_observed_master, expected_queue_revision, command_id)),
            IpcCommand::Update { repository_id, worktree_path, command_id } => Tree::Table(update_entries(repository_id, worktree_path, command_id)),
            IpcCommand::WorktreeCreate { repository_id, branch, destination, warm, command_id } => Tree::Table(worktree_create_entries(repository_id, branch, destination, warm, command_id)),
            IpcCommand::WorktreeRemove { repository_id, path, command_id } => Tree::Table(worktree_remove_entries(repository_id, path, command_id)),
            IpcCommand::RemoveRepository { repository_id, command_id } => Tree::Table(remove_repository_entries(repository_id, command_id)),
            IpcCommand::ApplyConfiguration { repository_id, command_id } => Tree::Table(apply_configuration_entries(repository_id, command_id)),
            IpcCommand::ValidateConfiguration { repository_id } => Tree::Table(validate_configuration_entries(repository_id)),
            IpcCommand::RegenerateConfiguration { repository_id, command_id } => Tree::Table(regenerate_configuration_entries(repository_id, command_id)),
            IpcCommand::ResetSlot { repository_id, slot_id, command_id } => Tree::Table(reset_slot_entries(repository_id, slot_id, command_id)),
            IpcCommand::SnapshotCache { repository_id, command_id } => Tree::Table(snapshot_cache_entries(repository_id, command_id)),
            IpcCommand::PurgeCache { repository_id, all_slots, command_id } => Tree::Table(purge_cache_entries(repository_id, all_slots, command_id)),
            IpcCommand::StorageStatus => Tree::Table(seq![("command"@, Tree::Text("storage-status"@))]),
            IpcCommand::StoragePrune { force, command_id } => Tree::Table(storage_prune_entries(force, command_id)),
            IpcCommand::ArtifactPin { repository_id, artifact_id, pinned, command_id } => Tree::Table(artifact_pin_entries(repository_id, artifact_id, pinned, command_id)),
            IpcCommand::ArtifactPrune { repository_id, artifact_id, command_id } => Tree::Table(artifact_prune_entries(repository_id, artifact_id, command_id)),
            IpcCommand::Logs { repository_id, item_id, buildset_id, step, start_sequence } => Tree::Table(logs_entries(repository_id, item_id, buildset_id, step, start_sequence)),
            IpcCommand::Doctor { repository_id } => Tree::Table(doctor_entries(repository_id)),
            IpcCommand::Pause { repository_id, command_id } => Tree::Table(pause_entries(repository_id, command_id)),
            IpcCommand::Resume { repository_id, command_id } => Tree::Table(resume_entries(repository_id, command_id)),
            IpcCommand::ReloadEnvironment { command_id } => Tree::Table(reload_environment_entries(command_id)),
        }
    }

    /// Writes the command. What is written reads back as the command.
    pub fn to_document(&self) -> (r: Document)
        ensures
            r@ == self.tree(),
            r@.writable(8),
            command_reads(r@, *self),
    {
        match self {
            IpcCommand::Snapshot => write_snapshot(),
            IpcCommand::ItemStatus { repository_id, item_id } => write_item_status(repository_id, item_id),
            IpcCommand::ItemDetails { repository_id, item_id } => write_item_details(repository_id, item_id),
            IpcCommand::ItemWaitStatus { repository_id, item_id } => write_item_wait_status(repository_id, item_id),
            IpcCommand::Initialize { path, run, bootstrap, detach_master } => write_initialize(path, run, bootstrap, detach_master),
            IpcCommand::Approve { repository_id, revision, worktree_path, purpose, retain_worktree, command_id } => write_approve(repository_id, revision, worktree_path, purpose, retain_worktree, command_id),
            IpcCommand::Candidate { repository_id, revision, worktree_path, retain_worktree, command_id } => write_candidate(repository_id, revision, worktree_path, retain_worktree, command_id),
            IpcCommand::AuthorizeCandidate { repository_id, item_id, expected_revision, command_id } => write_authorize_candidate(repository_id, item_id, expected_revision, command_id),
            IpcCommand::Check { repository_id, revision, worktree_path, command_id } => write_check(repository_id, revision, worktree_path, command_id),
            IpcCommand::Diagnose { repository_id, item_id, replay, verify_repair, command_id } => write_diagnose(repository_id, item_id, replay, verify_repair, command_id),
            IpcCommand::Cancel { repository_id, item_id, expected_revision, command_id } => write_cancel(repository_id, item_id, expected_revision, command_id),
            IpcCommand::Retry { repository_id, item_id, cold, command_id } => write_retry(repository_id, item_id, cold, command_id),
            IpcCommand::Reorder { repository_id, selected_ids, expected_revision, command_id } => write_reorder(repository_id, selected_ids, expected_revision, command_id),
            IpcCommand::Pull { repository_id, command_id } => write_pull(repository_id, command_id),
            IpcCommand::Push { repository_id, command_id } => write_push(repository_id, command_id),
            IpcCommand::Reconcile { repository_id, expected_observed_master, expected_queue_revision, command_id } => write_reconcile(repository_id, expected_observed_master, expected_queue_revision, command_id),
            IpcCommand::Update { repository_id, worktree_path, command_id } => write_update(repository_id, worktree_path, command_id),
            IpcCommand::WorktreeCreate { repository_id, branch, destination, warm, command_id } => write_worktree_create(repository_id, branch, destination, warm, command_id),
            IpcCommand::WorktreeRemove { repository_id, path, command_id } => write_worktree_remove(repository_id, path, command_id),
            IpcCommand::RemoveRepository { repository_id, command_id } => write_remove_repository(repository_id, command_id),
            IpcCommand::ApplyConfiguration { repository_id, command_id } => write_apply_configuration(repository_id, command_id),
            IpcCommand::ValidateConfiguration { repository_id } => write_validate_configuration(repository_id),
            IpcCommand::RegenerateConfiguration { repository_id, command_id } => write_regenerate_configuration(repository_id, command_id),
            IpcCommand::ResetSlot { repository_id, slot_id, command_id } => write_reset_slot(repository_id, slot_id, command_id),
            IpcCommand::SnapshotCache { repository_id, command_id } => write_snapshot_cache(repository_id, command_id),
            IpcCommand::PurgeCache { repository_id, all_slots, command_id } => write_purge_cache(repository_id, all_slots, command_id),
            IpcCommand::StorageStatus => write_storage_status(),
            IpcCommand::StoragePrune { force, command_id } => write_storage_prune(force, command_id),
            IpcCommand::ArtifactPin { repository_id, artifact_id, pinned, command_id } => write_artifact_pin(repository_id, artifact_id, pinned, command_id),
            IpcCommand::ArtifactPrune { repository_id, artifact_id, command_id } => write_artifact_prune(repository_id, artifact_id, command_id),
            IpcCommand::Logs { repository_id, item_id, buildset_id, step, start_sequence } => write_logs(repository_id, item_id, buildset_id, step, start_sequence),
            IpcCommand::Doctor { repository_id } => write_doctor(repository_id),
            IpcCommand::Pause { repository_id, command_id } => write_pause(repository_id, command_id),
            IpcCommand::Resume { repository_id, command_id } => write_resume(repository_id, command_id),
            IpcCommand::ReloadEnvironment { command_id } => write_reload_environment(command_id),
        }
    }

    /// Writes the command as JSON.
    pub fn to_json(&self) -> (r: Vec<u8>)
        ensures
            r@ == json_written(self.tree()),
            json_parsed(r@) == Some(self.tree()),
            command_reads(self.tree(), *self),
    {
        let document = self.to_document();
        proof {
            lemma_writable_deeper(document@, 8, 127);
        }
        write_json(&json_value(&document))
    }

    /// Reads a command. Fields that nobody knows are passed over.
    pub fn read(document: &Document) -> (r: Option<IpcCommand>)
        ensures
            r is Some <==> command_readable(document@),
            r matches Some(command) ==> command_reads(document@, command),
    {
        let table = read_command_record(document);
        let document = match &table {
            Some(table) => table,
            None => document,
        };
        let name = match document.text_field("command", None) {
            Some(name) => name,
            None => {
                return None;
            },
        };
        if str_equal(name.as_str(), "snapshot") {
            return Some(IpcCommand::Snapshot);
        }
        if str_equal(name.as_str(), "item-status") {
            return read_item_status(document);
        }
        if str_equal(name.as_str(), "item-details") {
            return read_item_details(document);
        }
        if str_equal(name.as_str(), "item-wait-status") {
            return read_item_wait_status(document);
        }
        if str_equal(name.as_str(), "initialize") {
            return read_initialize(document);
        }
        if str_equal(name.as_str(), "approve") {
            return read_approve(document);
        }
        if str_equal(name.as_str(), "candidate") {
            return read_candidate(document);
        }
        if str_equal(name.as_str(), "authorize-candidate") {
            return read_authorize_candidate(document);
        }
        if str_equal(name.as_str(), "check") {
            return read_check(document);
        }
        if str_equal(name.as_str(), "diagnose") {
            return read_diagnose(document);
        }
        if str_equal(name.as_str(), "cancel") {
            return read_cancel(document);
        }
        if str_equal(name.as_str(), "retry") {
            return read_retry(document);
        }
        if str_equal(name.as_str(), "reorder") {
            return read_reorder(document);
        }
        if str_equal(name.as_str(), "pull") {
            return read_pull(document);
        }
        if str_equal(name.as_str(), "push") {
            return read_push(document);
        }
        if str_equal(name.as_str(), "reconcile") {
            return read_reconcile(document);
        }
        if str_equal(name.as_str(), "update") {
            return read_update(document);
        }
        if str_equal(name.as_str(), "worktree-create") {
            return read_worktree_create(document);
        }
        if str_equal(name.as_str(), "worktree-remove") {
            return read_worktree_remove(document);
        }
        if str_equal(name.as_str(), "remove-repository") {
            return read_remove_repository(document);
        }
        if str_equal(name.as_str(), "apply-configuration") {
            return read_apply_configuration(document);
        }
        if str_equal(name.as_str(), "validate-configuration") {
            return read_validate_configuration(document);
        }
        if str_equal(name.as_str(), "regenerate-configuration") {
            return read_regenerate_configuration(document);
        }
        if str_equal(name.as_str(), "reset-slot") {
            return read_reset_slot(document);
        }
        if str_equal(name.as_str(), "snapshot-cache") {
            return read_snapshot_cache(document);
        }
        if str_equal(name.as_str(), "purge-cache") {
            return read_purge_cache(document);
        }
        if str_equal(name.as_str(), "storage-status") {
            return Some(IpcCommand::StorageStatus);
        }
        if str_equal(name.as_str(), "storage-prune") {
            return read_storage_prune(document);
        }
        if str_equal(name.as_str(), "artifact-pin") {
            return read_artifact_pin(document);
        }
        if str_equal(name.as_str(), "artifact-prune") {
            return read_artifact_prune(document);
        }
        if str_equal(name.as_str(), "logs") {
            return read_logs(document);
        }
        if str_equal(name.as_str(), "doctor") {
            return read_doctor(document);
        }
        if str_equal(name.as_str(), "pause") {
            return read_pause(document);
        }
        if str_equal(name.as_str(), "resume") {
            return read_resume(document);
        }
        if str_equal(name.as_str(), "reload-environment") {
            return read_reload_environment(document);
        }
        None
    }
}

/// The fields of a command that begins with its name, in order, and how many of them may not
/// be left out.
pub open spec fn command_order(tag: Seq<char>) -> (Seq<Seq<char>>, nat) {
    if tag == "snapshot"@ {
        (seq!["command"@], 1)
    } else if tag == "item-status"@ {
        (seq!["command"@, "repository_id"@, "item_id"@], 3)
    } else if tag == "item-details"@ {
        (seq!["command"@, "repository_id"@, "item_id"@], 3)
    } else if tag == "item-wait-status"@ {
        (seq!["command"@, "repository_id"@, "item_id"@], 3)
    } else if tag == "initialize"@ {
        (seq!["command"@, "path"@, "run"@, "bootstrap"@, "detach_master"@], 3)
    } else if tag == "approve"@ {
        (seq![
            "command"@,
            "repository_id"@,
            "revision"@,
            "worktree_path"@,
            "purpose"@,
            "retain_worktree"@,
            "command_id"@,
        ], 7)
    } else if tag == "candidate"@ {
        (seq![
            "command"@,
            "repository_id"@,
            "revision"@,
            "worktree_path"@,
            "retain_worktree"@,
            "command_id"@,
        ], 6)
    } else if tag == "authorize-candidate"@ {
        (seq!["command"@, "repository_id"@, "item_id"@, "expected_revision"@, "command_id"@], 5)
    } else if tag == "check"@ {
        (seq!["command"@, "repository_id"@, "revision"@, "worktree_path"@, "command_id"@], 5)
    } else if tag == "diagnose"@ {
        (seq![
            "command"@,
            "repository_id"@,
            "item_id"@,
            "replay"@,
            "verify_repair"@,
            "command_id"@,
        ], 6)
    } else if tag == "cancel"@ {
        (seq!["command"@, "repository_id"@, "item_id"@, "expected_revision"@, "command_id"@], 5)
    } else if tag == "retry"@ {
        (seq!["command"@, "repository_id"@, "item_id"@, "cold"@, "command_id"@], 5)
    } else if tag == "reorder"@ {
        (seq![
            "command"@,
            "repository_id"@,
            "selected_ids"@,
            "expected_revision"@,
            "command_id"@,
        ], 5)
    } else if tag == "pull"@ {
        (seq!["command"@, "repository_id"@, "command_id"@], 3)
    } else if tag == "push"@ {
        (seq!["command"@, "repository_id"@, "command_id"@], 3)
    } else if tag == "reconcile"@ {
        (seq![
            "command"@,
            "repository_id"@,
            "expected_observed_master"@,
            "expected_queue_revision"@,
            "command_id"@,
        ], 5)
    } else if tag == "update"@ {
        (seq!["command"@, "repository_id"@, "worktree_path"@, "command_id"@], 4)
    } else if tag == "worktree-create"@ {
        (seq!["command"@, "repository_id"@, "branch"@, "destination"@, "warm"@, "command_id"@], 6)
    } else if tag == "worktree-remove"@ {
        (seq!["command"@, "repository_id"@, "path"@, "command_id"@], 4)
    } else if tag == "remove-repository"@ {
        (seq!["command"@, "repository_id"@, "command_id"@], 3)
    } else if tag == "apply-configuration"@ {
        (seq!["command"@, "repository_id"@, "command_id"@], 3)
    } else if tag == "validate-configuration"@ {
        (seq!["command"@, "repository_id"@], 2)
    } else if tag == "regenerate-configuration"@ {
        (seq!["command"@, "repository_id"@, "command_id"@], 3)
    } else if tag == "reset-slot"@ {
        (seq!["command"@, "repository_id"@, "slot_id"@, "command_id"@], 4)
    } else if tag == "snapshot-cache"@ {
        (seq!["command"@, "repository_id"@, "command_id"@], 3)
    } else if tag == "purge-cache"@ {
        (seq!["command"@, "repository_id"@, "all_slots"@, "command_id"@], 4)
    } else if tag == "storage-status"@ {
        (seq!["command"@], 1)
    } else if tag == "storage-prune"@ {
        (seq!["command"@, "force"@, "command_id"@], 3)
    } else if tag == "artifact-pin"@ {
        (seq!["command"@, "repository_id"@, "artifact_id"@, "pinned"@, "command_id"@], 5)
    } else if tag == "artifact-prune"@ {
        (seq!["command"@, "repository_id"@, "artifact_id"@, "command_id"@], 4)
    } else if tag == "logs"@ {
        (seq![
            "command"@,
            "repository_id"@,
            "item_id"@,
            "buildset_id"@,
            "step"@,
            "start_sequence"@,
        ], 6)
    } else if tag == "doctor"@ {
        (seq!["command"@, "repository_id"@], 2)
    } else if tag == "pause"@ {
        (seq!["command"@, "repository_id"@, "command_id"@], 3)
    } else if tag == "resume"@ {
        (seq!["command"@, "repository_id"@, "command_id"@], 3)
    } else if tag == "reload-environment"@ {
        (seq!["command"@, "command_id"@], 2)
    } else {
        (seq![], 0)
    }
}

/// A command, which may be written as a list of its name and its fields.
pub open spec fn command_record(t: Tree) -> Tree {
    match first_text(t) {
        Some(tag) => record(t, command_order(tag).0, command_order(tag).1, true),
        None => t,
    }
}

fn command_names(tag: &str) -> (r: (Vec<&'static str>, usize))
    ensures
        names_of(r.0@) == command_order(tag@).0,
        r.1 == command_order(tag@).1,
{
    if str_equal(tag, "snapshot") {
        let names: Vec<&'static str> = vec!["command"];
        assert(names_of(names@) =~= command_order(tag@).0);
        return (names, 1);
    }
    if str_equal(tag, "item-status") {
        let names: Vec<&'static str> = vec!["command", "repository_id", "item_id"];
        assert(names_of(names@) =~= command_order(tag@).0);
        return (names, 3);
    }
    if str_equal(tag, "item-details") {
        let names: Vec<&'static str> = vec!["command", "repository_id", "item_id"];
        assert(names_of(names@) =~= command_order(tag@).0);
        return (names, 3);
    }
    if str_equal(tag, "item-wait-status") {
        let names: Vec<&'static str> = vec!["command", "repository_id", "item_id"];
        assert(names_of(names@) =~= command_order(tag@).0);
        return (names, 3);
    }
    if str_equal(tag, "initialize") {
        let names: Vec<&'static str> = vec!["command", "path", "run", "bootstrap", "detach_master"];
        assert(names_of(names@) =~= command_order(tag@).0);
        return (names, 3);
    }
    if str_equal(tag, "approve") {
        let names: Vec<&'static str> = vec![
            "command",
            "repository_id",
            "revision",
            "worktree_path",
            "purpose",
            "retain_worktree",
            "command_id",
        ];
        assert(names_of(names@) =~= command_order(tag@).0);
        return (names, 7);
    }
    if str_equal(tag, "candidate") {
        let names: Vec<&'static str> = vec![
            "command",
            "repository_id",
            "revision",
            "worktree_path",
            "retain_worktree",
            "command_id",
        ];
        assert(names_of(names@) =~= command_order(tag@).0);
        return (names, 6);
    }
    if str_equal(tag, "authorize-candidate") {
        let names: Vec<&'static str> = vec![
            "command",
            "repository_id",
            "item_id",
            "expected_revision",
            "command_id",
        ];
        assert(names_of(names@) =~= command_order(tag@).0);
        return (names, 5);
    }
    if str_equal(tag, "check") {
        let names: Vec<&'static str> = vec![
            "command",
            "repository_id",
            "revision",
            "worktree_path",
            "command_id",
        ];
        assert(names_of(names@) =~= command_order(tag@).0);
        return (names, 5);
    }
    if str_equal(tag, "diagnose") {
        let names: Vec<&'static str> = vec![
            "command",
            "repository_id",
            "item_id",
            "replay",
            "verify_repair",
            "command_id",
        ];
        assert(names_of(names@) =~= command_order(tag@).0);
        return (names, 6);
    }
    if str_equal(tag, "cancel") {
        let names: Vec<&'static str> = vec![
            "command",
            "repository_id",
            "item_id",
            "expected_revision",
            "command_id",
        ];
        assert(names_of(names@) =~= command_order(tag@).0);
        return (names, 5);
    }
    if str_equal(tag, "retry") {
        let names: Vec<&'static str> = vec![
            "command",
            "repository_id",
            "item_id",
            "cold",
            "command_id",
        ];
        assert(names_of(names@) =~= command_order(tag@).0);
        return (names, 5);
    }
    if str_equal(tag, "reorder") {
        let names: Vec<&'static str> = vec![
            "command",
            "repository_id",
            "selected_ids",
            "expected_revision",
            "command_id",
        ];
        assert(names_of(names@) =~= command_order(tag@).0);
        return (names, 5);
    }
    if str_equal(tag, "pull") {
        let names: Vec<&'static str> = vec!["command", "repository_id", "command_id"];
        assert(names_of(names@) =~= command_order(tag@).0);
        return (names, 3);
    }
    if str_equal(tag, "push") {
        let names: Vec<&'static str> = vec!["command", "repository_id", "command_id"];
        assert(names_of(names@) =~= command_order(tag@).0);
        return (names, 3);
    }
    if str_equal(tag, "reconcile") {
        let names: Vec<&'static str> = vec![
            "command",
            "repository_id",
            "expected_observed_master",
            "expected_queue_revision",
            "command_id",
        ];
        assert(names_of(names@) =~= command_order(tag@).0);
        return (names, 5);
    }
    if str_equal(tag, "update") {
        let names: Vec<&'static str> = vec![
            "command",
            "repository_id",
            "worktree_path",
            "command_id",
        ];
        assert(names_of(names@) =~= command_order(tag@).0);
        return (names, 4);
    }
    if str_equal(tag, "worktree-create") {
        let names: Vec<&'static str> = vec![
            "command",
            "repository_id",
            "branch",
            "destination",
            "warm",
            "command_id",
        ];
        assert(names_of(names@) =~= command_order(tag@).0);
        return (names, 6);
    }
    if str_equal(tag, "worktree-remove") {
        let names: Vec<&'static str> = vec!["command", "repository_id", "path", "command_id"];
        assert(names_of(names@) =~= command_order(tag@).0);
        return (names, 4);
    }
    if str_equal(tag, "remove-repository") {
        let names: Vec<&'static str> = vec!["command", "repository_id", "command_id"];
        assert(names_of(names@) =~= command_order(tag@).0);
        return (names, 3);
    }
    if str_equal(tag, "apply-configuration") {
        let names: Vec<&'static str> = vec!["command", "repository_id", "command_id"];
        assert(names_of(names@) =~= command_order(tag@).0);
        return (names, 3);
    }
    if str_equal(tag, "validate-configuration") {
        let names: Vec<&'static str> = vec!["command", "repository_id"];
        assert(names_of(names@) =~= command_order(tag@).0);
        return (names, 2);
    }
    if str_equal(tag, "regenerate-configuration") {
        let names: Vec<&'static str> = vec!["command", "repository_id", "command_id"];
        assert(names_of(names@) =~= command_order(tag@).0);
        return (names, 3);
    }
    if str_equal(tag, "reset-slot") {
        let names: Vec<&'static str> = vec!["command", "repository_id", "slot_id", "command_id"];
        assert(names_of(names@) =~= command_order(tag@).0);
        return (names, 4);
    }
    if str_equal(tag, "snapshot-cache") {
        let names: Vec<&'static str> = vec!["command", "repository_id", "command_id"];
        assert(names_of(names@) =~= command_order(tag@).0);
        return (names, 3);
    }
    if str_equal(tag, "purge-cache") {
        let names: Vec<&'static str> = vec!["command", "repository_id", "all_slots", "command_id"];
        assert(names_of(names@) =~= command_order(tag@).0);
        return (names, 4);
    }
    if str_equal(tag, "storage-status") {
        let names: Vec<&'static str> = vec!["command"];
        assert(names_of(names@) =~= command_order(tag@).0);
        return (names, 1);
    }
    if str_equal(tag, "storage-prune") {
        let names: Vec<&'static str> = vec!["command", "force", "command_id"];
        assert(names_of(names@) =~= command_order(tag@).0);
        return (names, 3);
    }
    if str_equal(tag, "artifact-pin") {
        let names: Vec<&'static str> = vec![
            "command",
            "repository_id",
            "artifact_id",
            "pinned",
            "command_id",
        ];
        assert(names_of(names@) =~= command_order(tag@).0);
        return (names, 5);
    }
    if str_equal(tag, "artifact-prune") {
        let names: Vec<&'static str> = vec![
            "command",
            "repository_id",
            "artifact_id",
            "command_id",
        ];
        assert(names_of(names@) =~= command_order(tag@).0);
        return (names, 4);
    }
    if str_equal(tag, "logs") {
        let names: Vec<&'static str> = vec![
            "command",
            "repository_id",
            "item_id",
            "buildset_id",
            "step",
            "start_sequence",
        ];
        assert(names_of(names@) =~= command_order(tag@).0);
        return (names, 6);
    }
    if str_equal(tag, "doctor") {
        let names: Vec<&'static str> = vec!["command", "repository_id"];
        assert(names_of(names@) =~= command_order(tag@).0);
        return (names, 2);
    }
    if str_equal(tag, "pause") {
        let names: Vec<&'static str> = vec!["command", "repository_id", "command_id"];
        assert(names_of(names@) =~= command_order(tag@).0);
        return (names, 3);
    }
    if str_equal(tag, "resume") {
        let names: Vec<&'static str> = vec!["command", "repository_id", "command_id"];
        assert(names_of(names@) =~= command_order(tag@).0);
        return (names, 3);
    }
    if str_equal(tag, "reload-environment") {
        let names: Vec<&'static str> = vec!["command", "command_id"];
        assert(names_of(names@) =~= command_order(tag@).0);
        return (names, 2);
    }
    let names: Vec<&'static str> = Vec::new();
    assert(names_of(names@) =~= Seq::<Seq<char>>::empty());
    (names, 0)
}

fn read_command_record(document: &Document) -> (r: Option<Document>)
    ensures
        match r {
            Some(table) => table@ == command_record(document@),
            None => document@ == command_record(document@),
        },
{
    match document.read_first_text() {
        Some(tag) => {
            let (names, needed) = command_names(tag.as_str());
            document.as_record(names.as_slice(), needed, true)
        },
        None => None,
    }
}

/// The document can be read as a command.
pub open spec fn command_readable(t: Tree) -> bool {
    let t = command_record(t);
    match t.text_field("command"@, None) {
        None => false,
        Some(name) => {
            if name == "snapshot"@ {
                true
            } else if name == "item-status"@ {
                item_status_readable(t)
            } else if name == "item-details"@ {
                item_details_readable(t)
            } else if name == "item-wait-status"@ {
                item_wait_status_readable(t)
            } else if name == "initialize"@ {
                initialize_readable(t)
            } else if name == "approve"@ {
                approve_readable(t)
            } else if name == "candidate"@ {
                candidate_readable(t)
            } else if name == "authorize-candidate"@ {
                authorize_candidate_readable(t)
            } else if name == "check"@ {
                check_readable(t)
            } else if name == "diagnose"@ {
                diagnose_readable(t)
            } else if name == "cancel"@ {
                cancel_readable(t)
            } else if name == "retry"@ {
                retry_readable(t)
            } else if name == "reorder"@ {
                reorder_readable(t)
            } else if name == "pull"@ {
                pull_readable(t)
            } else if name == "push"@ {
                push_readable(t)
            } else if name == "reconcile"@ {
                reconcile_readable(t)
            } else if name == "update"@ {
                update_readable(t)
            } else if name == "worktree-create"@ {
                worktree_create_readable(t)
            } else if name == "worktree-remove"@ {
                worktree_remove_readable(t)
            } else if name == "remove-repository"@ {
                remove_repository_readable(t)
            } else if name == "apply-configuration"@ {
                apply_configuration_readable(t)
            } else if name == "validate-configuration"@ {
                validate_configuration_readable(t)
            } else if name == "regenerate-configuration"@ {
                regenerate_configuration_readable(t)
            } else if name == "reset-slot"@ {
                reset_slot_readable(t)
            } else if name == "snapshot-cache"@ {
                snapshot_cache_readable(t)
            } else if name == "purge-cache"@ {
                purge_cache_readable(t)
            } else if name == "storage-status"@ {
                true
            } else if name == "storage-prune"@ {
                storage_prune_readable(t)
            } else if name == "artifact-pin"@ {
                artifact_pin_readable(t)
            } else if name == "artifact-prune"@ {
                artifact_prune_readable(t)
            } else if name == "logs"@ {
                logs_readable(t)
            } else if name == "doctor"@ {
                doctor_readable(t)
            } else if name == "pause"@ {
                pause_readable(t)
            } else if name == "resume"@ {
                resume_readable(t)
            } else if name == "reload-environment"@ {
                reload_environment_readable(t)
            } else {
                false
            }
        },
    }
}

/// Read as a command, the document gives this one.
pub open spec fn command_reads(t: Tree, command: IpcCommand) -> bool {
    let t = command_record(t);
    &&& t.text_field("command"@, None) == Some(command.wire_name())
    &&& match command {
        IpcCommand::Snapshot => true,
        IpcCommand::ItemStatus { repository_id, item_id } => {
            &&& t.id_field("repository_id"@) == Some(repository_id.0)
            &&& t.id_field("item_id"@) == Some(item_id.0)
        },
        IpcCommand::ItemDetails { repository_id, item_id } => {
            &&& t.optional_id("repository_id"@) == Some(match repository_id { Some(id) => Some(id.0), None => None })
            &&& t.id_field("item_id"@) == Some(item_id.0)
        },
        IpcCommand::ItemWaitStatus { repository_id, item_id } => {
            &&& t.id_field("repository_id"@) == Some(repository_id.0)
            &&& t.id_field("item_id"@) == Some(item_id.0)
        },
        IpcCommand::Initialize { path, run, bootstrap, detach_master } => {
            &&& t.text_field("path"@, None) == Some(path@)
            &&& t.optional_text("run"@) == Some(match run { Some(text) => Some(text@), None => None })
            &&& t.bool_field("bootstrap"@, Some(true)) == Some(bootstrap)
            &&& t.bool_field("detach_master"@, Some(false)) == Some(detach_master)
        },
        IpcCommand::Approve { repository_id, revision, worktree_path, purpose, retain_worktree, command_id } => {
            &&& t.id_field("repository_id"@) == Some(repository_id.0)
            &&& t.text_field("revision"@, None) == Some(revision@)
            &&& t.optional_text("worktree_path"@) == Some(match worktree_path { Some(text) => Some(text@), None => None })
            &&& t.optional_text("purpose"@) == Some(match purpose { Some(text) => Some(text@), None => None })
            &&& t.bool_field("retain_worktree"@, Some(false)) == Some(retain_worktree)
            &&& t.id_field("command_id"@) == Some(command_id.0)
        },
        IpcCommand::Candidate { repository_id, revision, worktree_path, retain_worktree, command_id } => {
            &&& t.id_field("repository_id"@) == Some(repository_id.0)
            &&& t.text_field("revision"@, None) == Some(revision@)
            &&& t.optional_text("worktree_path"@) == Some(match worktree_path { Some(text) => Some(text@), None => None })
            &&& t.bool_field("retain_worktree"@, Some(false)) == Some(retain_worktree)
            &&& t.id_field("command_id"@) == Some(command_id.0)
        },
        IpcCommand::AuthorizeCandidate { repository_id, item_id, expected_revision, command_id } => {
            &&& t.id_field("repository_id"@) == Some(repository_id.0)
            &&& t.id_field("item_id"@) == Some(item_id.0)
            &&& t.number_field("expected_revision"@, None::<nat>, u64::MAX as nat) == Some(expected_revision as nat)
            &&& t.id_field("command_id"@) == Some(command_id.0)
        },
        IpcCommand::Check { repository_id, revision, worktree_path, command_id } => {
            &&& t.id_field("repository_id"@) == Some(repository_id.0)
            &&& t.text_field("revision"@, None) == Some(revision@)
            &&& t.optional_text("worktree_path"@) == Some(match worktree_path { Some(text) => Some(text@), None => None })
            &&& t.id_field("command_id"@) == Some(command_id.0)
        },
        IpcCommand::Diagnose { repository_id, item_id, replay, verify_repair, command_id } => {
            &&& t.id_field("repository_id"@) == Some(repository_id.0)
            &&& t.id_field("item_id"@) == Some(item_id.0)
            &&& t.bool_field("replay"@, Some(false)) == Some(replay)
            &&& t.bool_field("verify_repair"@, Some(false)) == Some(verify_repair)
            &&& t.id_field("command_id"@) == Some(command_id.0)
        },
        IpcCommand::Cancel { repository_id, item_id, expected_revision, command_id } => {
            &&& t.id_field("repository_id"@) == Some(repository_id.0)
            &&& t.id_field("item_id"@) == Some(item_id.0)
            &&& t.number_field("expected_revision"@, None::<nat>, u64::MAX as nat) == Some(expected_revision as nat)
            &&& t.id_field("command_id"@) == Some(command_id.0)
        },
        IpcCommand::Retry { repository_id, item_id, cold, command_id } => {
            &&& t.id_field("repository_id"@) == Some(repository_id.0)
            &&& t.id_field("item_id"@) == Some(item_id.0)
            &&& t.bool_field("cold"@, None) == Some(cold)
            &&& t.id_field("command_id"@) == Some(command_id.0)
        },
        IpcCommand::Reorder { repository_id, selected_ids, expected_revision, command_id } => {
            &&& t.id_field("repository_id"@) == Some(repository_id.0)
            &&& t.ids_field("selected_ids"@) == Some(selected_ids@.map_values(|id: QueueItemId| id.0))
            &&& t.number_field("expected_revision"@, None::<nat>, u64::MAX as nat) == Some(expected_revision as nat)
            &&& t.id_field("command_id"@) == Some(command_id.0)
        },
        IpcCommand::Pull { repository_id, command_id } => {
            &&& t.id_field("repository_id"@) == Some(repository_id.0)
            &&& t.id_field("command_id"@) == Some(command_id.0)
        },
        IpcCommand::Push { repository_id, command_id } => {
            &&& t.id_field("repository_id"@) == Some(repository_id.0)
            &&& t.id_field("command_id"@) == Some(command_id.0)
        },
        IpcCommand::Reconcile { repository_id, expected_observed_master, expected_queue_revision, command_id } => {
            &&& t.id_field("repository_id"@) == Some(repository_id.0)
            &&& t.optional_oid("expected_observed_master"@) == Some(match expected_observed_master { Some(oid) => Some(oid@), None => None })
            &&& t.optional_number("expected_queue_revision"@, u64::MAX as nat) == Some(match expected_queue_revision { Some(number) => Some(number as nat), None => None })
            &&& t.id_field("command_id"@) == Some(command_id.0)
        },
        IpcCommand::Update { repository_id, worktree_path, command_id } => {
            &&& t.id_field("repository_id"@) == Some(repository_id.0)
            &&& t.text_field("worktree_path"@, None) == Some(worktree_path@)
            &&& t.id_field("command_id"@) == Some(command_id.0)
        },
        IpcCommand::WorktreeCreate { repository_id, branch, destination, warm, command_id } => {
            &&& t.id_field("repository_id"@) == Some(repository_id.0)
            &&& t.text_field("branch"@, None) == Some(branch@)
            &&& t.optional_text("destination"@) == Some(match destination { Some(text) => Some(text@), None => None })
            &&& t.bool_field("warm"@, Some(false)) == Some(warm)
            &&& t.id_field("command_id"@) == Some(command_id.0)
        },
        IpcCommand::WorktreeRemove { repository_id, path, command_id } => {
            &&& t.id_field("repository_id"@) == Some(repository_id.0)
            &&& t.text_field("path"@, None) == Some(path@)
            &&& t.id_field("command_id"@) == Some(command_id.0)
        },
        IpcCommand::RemoveRepository { repository_id, command_id } => {
            &&& t.id_field("repository_id"@) == Some(repository_id.0)
            &&& t.id_field("command_id"@) == Some(command_id.0)
        },
        IpcCommand::ApplyConfiguration { repository_id, command_id } => {
            &&& t.id_field("repository_id"@) == Some(repository_id.0)
            &&& t.id_field("command_id"@) == Some(command_id.0)
        },
        IpcCommand::ValidateConfiguration { repository_id } => {
            &&& t.id_field("repository_id"@) == Some(repository_id.0)
        },
        IpcCommand::RegenerateConfiguration { repository_id, command_id } => {
            &&& t.id_field("repository_id"@) == Some(repository_id.0)
            &&& t.id_field("command_id"@) == Some(command_id.0)
        },
        IpcCommand::ResetSlot { repository_id, slot_id, command_id } => {
            &&& t.id_field("repository_id"@) == Some(repository_id.0)
            &&& t.id_field("slot_id"@) == Some(slot_id.0)
            &&& t.id_field("command_id"@) == Some(command_id.0)
        },
        IpcCommand::SnapshotCache { repository_id, command_id } => {
            &&& t.id_field("repository_id"@) == Some(repository_id.0)
            &&& t.id_field("command_id"@) == Some(command_id.0)
        },
        IpcCommand::PurgeCache { repository_id, all_slots, command_id } => {
            &&& t.id_field("repository_id"@) == Some(repository_id.0)
            &&& t.bool_field("all_slots"@, None) == Some(all_slots)
            &&& t.id_field("command_id"@) == Some(command_id.0)
        },
        IpcCommand::StorageStatus => true,
        IpcCommand::StoragePrune { force, command_id } => {
            &&& t.bool_field("force"@, Some(false)) == Some(force)
            &&& t.id_field("command_id"@) == Some(command_id.0)
        },
        IpcCommand::ArtifactPin { repository_id, artifact_id, pinned, command_id } => {
            &&& t.id_field("repository_id"@) == Some(repository_id.0)
            &&& t.text_field("artifact_id"@, None) == Some(artifact_id@)
            &&& t.bool_field("pinned"@, None) == Some(pinned)
            &&& t.id_field("command_id"@) == Some(command_id.0)
        },
        IpcCommand::ArtifactPrune { repository_id, artifact_id, command_id } => {
            &&& t.id_field("repository_id"@) == Some(repository_id.0)
            &&& t.text_field("artifact_id"@, None) == Some(artifact_id@)
            &&& t.id_field("command_id"@) == Some(command_id.0)
        },
        IpcCommand::Logs { repository_id, item_id, buildset_id, step, start_sequence } => {
            &&& t.id_field("repository_id"@) == Some(repository_id.0)
            &&& t.id_field("item_id"@) == Some(item_id.0)
            &&& t.optional_id("buildset_id"@) == Some(match buildset_id { Some(id) => Some(id.0), None => None })
            &&& t.optional_text("step"@) == Some(match step { Some(text) => Some(text@), None => None })
            &&& t.number_field("start_sequence"@, None::<nat>, u64::MAX as nat) == Some(start_sequence as nat)
        },
        IpcCommand::Doctor { repository_id } => {
            &&& t.id_field("repository_id"@) == Some(repository_id.0)
        },
        IpcCommand::Pause { repository_id, command_id } => {
            &&& t.id_field("repository_id"@) == Some(repository_id.0)
            &&& t.id_field("command_id"@) == Some(command_id.0)
        },
        IpcCommand::Resume { repository_id, command_id } => {
            &&& t.id_field("repository_id"@) == Some(repository_id.0)
            &&& t.id_field("command_id"@) == Some(command_id.0)
        },
        IpcCommand::ReloadEnvironment { command_id } => {
            &&& t.id_field("command_id"@) == Some(command_id.0)
        },
    }
}

/// The document holds the fields of the command.
pub open spec fn item_status_readable(t: Tree) -> bool {
    &&& t.id_field("repository_id"@) is Some
    &&& t.id_field("item_id"@) is Some
}

fn read_item_status(document: &Document) -> (r: Option<IpcCommand>)
    requires
        document@.text_field("command"@, None) == Some("item-status"@),
    ensures
        r is Some <==> item_status_readable(document@),
        r matches Some(command) ==> command_reads(document@, command),
{
    let repository_id = match document.id_field("repository_id") {
        Some(value) => RepositoryId(value),
        None => {
            return None;
        },
    };
    let item_id = match document.id_field("item_id") {
        Some(value) => QueueItemId(value),
        None => {
            return None;
        },
    };
    Some(IpcCommand::ItemStatus { repository_id, item_id })
}

/// The document holds the fields of the command.
pub open spec fn item_details_readable(t: Tree) -> bool {
    &&& t.optional_id("repository_id"@) is Some
    &&& t.id_field("item_id"@) is Some
}

fn read_item_details(document: &Document) -> (r: Option<IpcCommand>)
    requires
        document@.text_field("command"@, None) == Some("item-details"@),
    ensures
        r is Some <==> item_details_readable(document@),
        r matches Some(command) ==> command_reads(document@, command),
{
    let repository_id = match document.optional_id("repository_id") {
        Some(value) => match value {
            Some(id) => Some(RepositoryId(id)),
            None => None,
        },
        None => {
            return None;
        },
    };
    let item_id = match document.id_field("item_id") {
        Some(value) => QueueItemId(value),
        None => {
            return None;
        },
    };
    Some(IpcCommand::ItemDetails { repository_id, item_id })
}

/// The document holds the fields of the command.
pub open spec fn item_wait_status_readable(t: Tree) -> bool {
    &&& t.id_field("repository_id"@) is Some
    &&& t.id_field("item_id"@) is Some
}

fn read_item_wait_status(document: &Document) -> (r: Option<IpcCommand>)
    requires
        document@.text_field("command"@, None) == Some("item-wait-status"@),
    ensures
        r is Some <==> item_wait_status_readable(document@),
        r matches Some(command) ==> command_reads(document@, command),
{
    let repository_id = match document.id_field("repository_id") {
        Some(value) => RepositoryId(value),
        None => {
            return None;
        },
    };
    let item_id = match document.id_field("item_id") {
        Some(value) => QueueItemId(value),
        None => {
            return None;
        },
    };
    Some(IpcCommand::ItemWaitStatus { repository_id, item_id })
}

/// The document holds the fields of the command.
pub open spec fn initialize_readable(t: Tree) -> bool {
    &&& t.text_field("path"@, None) is Some
    &&& t.optional_text("run"@) is Some
    &&& t.bool_field("bootstrap"@, Some(true)) is Some
    &&& t.bool_field("detach_master"@, Some(false)) is Some
}

fn read_initialize(document: &Document) -> (r: Option<IpcCommand>)
    requires
        document@.text_field("command"@, None) == Some("initialize"@),
    ensures
        r is Some <==> initialize_readable(document@),
        r matches Some(command) ==> command_reads(document@, command),
{
    let path = match document.text_field("path", None) {
        Some(value) => value,
        None => {
            return None;
        },
    };
    let run = match document.optional_text("run") {
        Some(value) => value,
        None => {
            return None;
        },
    };
    let bootstrap = match document.bool_field("bootstrap", Some(true)) {
        Some(value) => value,
        None => {
            return None;
        },
    };
    let detach_master = match document.bool_field("detach_master", Some(false)) {
        Some(value) => value,
        None => {
            return None;
        },
    };
    Some(IpcCommand::Initialize { path, run, bootstrap, detach_master })
}

/// The document holds the fields of the command.
pub open spec fn approve_readable(t: Tree) -> bool {
    &&& t.id_field("repository_id"@) is Some
    &&& t.text_field("revision"@, None) is Some
    &&& t.optional_text("worktree_path"@) is Some
    &&& t.optional_text("purpose"@) is Some
    &&& t.bool_field("retain_worktree"@, Some(false)) is Some
    &&& t.id_field("command_id"@) is Some
}

fn read_approve(document: &Document) -> (r: Option<IpcCommand>)
    requires
        document@.text_field("command"@, None) == Some("approve"@),
    ensures
        r is Some <==> approve_readable(document@),
        r matches Some(command) ==> command_reads(document@, command),
{
    let repository_id = match document.id_field("repository_id") {
        Some(value) => RepositoryId(value),
        None => {
            return None;
        },
    };
    let revision = match document.text_field("revision", None) {
        Some(value) => value,
        None => {
            return None;
        },
    };
    let worktree_path = match document.optional_text("worktree_path") {
        Some(value) => value,
        None => {
            return None;
        },
    };
    let purpose = match document.optional_text("purpose") {
        Some(value) => value,
        None => {
            return None;
        },
    };
    let retain_worktree = match document.bool_field("retain_worktree", Some(false)) {
        Some(value) => value,
        None => {
            return None;
        },
    };
    let command_id = match document.id_field("command_id") {
        Some(value) => CommandId(value),
        None => {
            return None;
        },
    };
    Some(IpcCommand::Approve { repository_id, revision, worktree_path, purpose, retain_worktree, command_id })
}

/// The document holds the fields of the command.
pub open spec fn candidate_readable(t: Tree) -> bool {
    &&& t.id_field("repository_id"@) is Some
    &&& t.text_field("revision"@, None) is Some
    &&& t.optional_text("worktree_path"@) is Some
    &&& t.bool_field("retain_worktree"@, Some(false)) is Some
    &&& t.id_field("command_id"@) is Some
}

fn read_candidate(document: &Document) -> (r: Option<IpcCommand>)
    requires
        document@.text_field("command"@, None) == Some("candidate"@),
    ensures
        r is Some <==> candidate_readable(document@),
        r matches Some(command) ==> command_reads(document@, command),
{
    let repository_id = match document.id_field("repository_id") {
        Some(value) => RepositoryId(value),
        None => {
            return None;
        },
    };
    let revision = match document.text_field("revision", None) {
        Some(value) => value,
        None => {
            return None;
        },
    };
    let worktree_path = match document.optional_text("worktree_path") {
        Some(value) => value,
        None => {
            return None;
        },
    };
    let retain_worktree = match document.bool_field("retain_worktree", Some(false)) {
        Some(value) => value,
        None => {
            return None;
        },
    };
    let command_id = match document.id_field("command_id") {
        Some(value) => CommandId(value),
        None => {
            return None;
        },
    };
    Some(IpcCommand::Candidate { repository_id, revision, worktree_path, retain_worktree, command_id })
}

/// The document holds the fields of the command.
pub open spec fn authorize_candidate_readable(t: Tree) -> bool {
    &&& t.id_field("repository_id"@) is Some
    &&& t.id_field("item_id"@) is Some
    &&& t.number_field("expected_revision"@, None::<nat>, u64::MAX as nat) is Some
    &&& t.id_field("command_id"@) is Some
}

fn read_authorize_candidate(document: &Document) -> (r: Option<IpcCommand>)
    requires
        document@.text_field("command"@, None) == Some("authorize-candidate"@),
    ensures
        r is Some <==> authorize_candidate_readable(document@),
        r matches Some(command) ==> command_reads(document@, command),
{
    let repository_id = match document.id_field("repository_id") {
        Some(value) => RepositoryId(value),
        None => {
            return None;
        },
    };
    let item_id = match document.id_field("item_id") {
        Some(value) => QueueItemId(value),
        None => {
            return None;
        },
    };
    let expected_revision: u64 = match document.number_field("expected_revision", None, u64::MAX) {
        Some(value) => value,
        None => {
            return None;
        },
    };
    let command_id = match document.id_field("command_id") {
        Some(value) => CommandId(value),
        None => {
            return None;
        },
    };
    Some(IpcCommand::AuthorizeCandidate { repository_id, item_id, expected_revision, command_id })
}

/// The document holds the fields of the command.
pub open spec fn check_readable(t: Tree) -> bool {
    &&& t.id_field("repository_id"@) is Some
    &&& t.text_field("revision"@, None) is Some
    &&& t.optional_text("worktree_path"@) is Some
    &&& t.id_field("command_id"@) is Some
}

fn read_check(document: &Document) -> (r: Option<IpcCommand>)
    requires
        document@.text_field("command"@, None) == Some("check"@),
    ensures
        r is Some <==> check_readable(document@),
        r matches Some(command) ==> command_reads(document@, command),
{
    let repository_id = match document.id_field("repository_id") {
        Some(value) => RepositoryId(value),
        None => {
            return None;
        },
    };
    let revision = match document.text_field("revision", None) {
        Some(value) => value,
        None => {
            return None;
        },
    };
    let worktree_path = match document.optional_text("worktree_path") {
        Some(value) => value,
        None => {
            return None;
        },
    };
    let command_id = match document.id_field("command_id") {
        Some(value) => CommandId(value),
        None => {
            return None;
        },
    };
    Some(IpcCommand::Check { repository_id, revision, worktree_path, command_id })
}

/// The document holds the fields of the command.
pub open spec fn diagnose_readable(t: Tree) -> bool {
    &&& t.id_field("repository_id"@) is Some
    &&& t.id_field("item_id"@) is Some
    &&& t.bool_field("replay"@, Some(false)) is Some
    &&& t.bool_field("verify_repair"@, Some(false)) is Some
    &&& t.id_field("command_id"@) is Some
}

fn read_diagnose(document: &Document) -> (r: Option<IpcCommand>)
    requires
        document@.text_field("command"@, None) == Some("diagnose"@),
    ensures
        r is Some <==> diagnose_readable(document@),
        r matches Some(command) ==> command_reads(document@, command),
{
    let repository_id = match document.id_field("repository_id") {
        Some(value) => RepositoryId(value),
        None => {
            return None;
        },
    };
    let item_id = match document.id_field("item_id") {
        Some(value) => QueueItemId(value),
        None => {
            return None;
        },
    };
    let replay = match document.bool_field("replay", Some(false)) {
        Some(value) => value,
        None => {
            return None;
        },
    };
    let verify_repair = match document.bool_field("verify_repair", Some(false)) {
        Some(value) => value,
        None => {
            return None;
        },
    };
    let command_id = match document.id_field("command_id") {
        Some(value) => CommandId(value),
        None => {
            return None;
        },
    };
    Some(IpcCommand::Diagnose { repository_id, item_id, replay, verify_repair, command_id })
}

/// The document holds the fields of the command.
pub open spec fn cancel_readable(t: Tree) -> bool {
    &&& t.id_field("repository_id"@) is Some
    &&& t.id_field("item_id"@) is Some
    &&& t.number_field("expected_revision"@, None::<nat>, u64::MAX as nat) is Some
    &&& t.id_field("command_id"@) is Some
}

fn read_cancel(document: &Document) -> (r: Option<IpcCommand>)
    requires
        document@.text_field("command"@, None) == Some("cancel"@),
    ensures
        r is Some <==> cancel_readable(document@),
        r matches Some(command) ==> command_reads(document@, command),
{
    let repository_id = match document.id_field("repository_id") {
        Some(value) => RepositoryId(value),
        None => {
            return None;
        },
    };
    let item_id = match document.id_field("item_id") {
        Some(value) => QueueItemId(value),
        None => {
            return None;
        },
    };
    let expected_revision: u64 = match document.number_field("expected_revision", None, u64::MAX) {
        Some(value) => value,
        None => {
            return None;
        },
    };
    let command_id = match document.id_field("command_id") {
        Some(value) => CommandId(value),
        None => {
            return None;
        },
    };
    Some(IpcCommand::Cancel { repository_id, item_id, expected_revision, command_id })
}

/// The document holds the fields of the command.
pub open spec fn retry_readable(t: Tree) -> bool {
    &&& t.id_field("repository_id"@) is Some
    &&& t.id_field("item_id"@) is Some
    &&& t.bool_field("cold"@, None) is Some
    &&& t.id_field("command_id"@) is Some
}

fn read_retry(document: &Document) -> (r: Option<IpcCommand>)
    requires
        document@.text_field("command"@, None) == Some("retry"@),
    ensures
        r is Some <==> retry_readable(document@),
        r matches Some(command) ==> command_reads(document@, command),
{
    let repository_id = match document.id_field("repository_id") {
        Some(value) => RepositoryId(value),
        None => {
            return None;
        },
    };
    let item_id = match document.id_field("item_id") {
        Some(value) => QueueItemId(value),
        None => {
            return None;
        },
    };
    let cold = match document.bool_field("cold", None) {
        Some(value) => value,
        None => {
            return None;
        },
    };
    let command_id = match document.id_field("command_id") {
        Some(value) => CommandId(value),
        None => {
            return None;
        },
    };
    Some(IpcCommand::Retry { repository_id, item_id, cold, command_id })
}

/// The document holds the fields of the command.
pub open spec fn reorder_readable(t: Tree) -> bool {
    &&& t.id_field("repository_id"@) is Some
    &&& t.ids_field("selected_ids"@) is Some
    &&& t.number_field("expected_revision"@, None::<nat>, u64::MAX as nat) is Some
    &&& t.id_field("command_id"@) is Some
}

fn read_reorder(document: &Document) -> (r: Option<IpcCommand>)
    requires
        document@.text_field("command"@, None) == Some("reorder"@),
    ensures
        r is Some <==> reorder_readable(document@),
        r matches Some(command) ==> command_reads(document@, command),
{
    let repository_id = match document.id_field("repository_id") {
        Some(value) => RepositoryId(value),
        None => {
            return None;
        },
    };
    let selected_ids = match document.ids_field("selected_ids") {
        Some(value) => value,
        None => {
            return None;
        },
    };
    let expected_revision: u64 = match document.number_field("expected_revision", None, u64::MAX) {
        Some(value) => value,
        None => {
            return None;
        },
    };
    let command_id = match document.id_field("command_id") {
        Some(value) => CommandId(value),
        None => {
            return None;
        },
    };
    Some(IpcCommand::Reorder { repository_id, selected_ids, expected_revision, command_id })
}

/// The document holds the fields of the command.
pub open spec fn pull_readable(t: Tree) -> bool {
    &&& t.id_field("repository_id"@) is Some
    &&& t.id_field("command_id"@) is Some
}

fn read_pull(document: &Document) -> (r: Option<IpcCommand>)
    requires
        document@.text_field("command"@, None) == Some("pull"@),
    ensures
        r is Some <==> pull_readable(document@),
        r matches Some(command) ==> command_reads(document@, command),
{
    let repository_id = match document.id_field("repository_id") {
        Some(value) => RepositoryId(value),
        None => {
            return None;
        },
    };
    let command_id = match document.id_field("command_id") {
        Some(value) => CommandId(value),
        None => {
            return None;
        },
    };
    Some(IpcCommand::Pull { repository_id, command_id })
}

/// The document holds the fields of the command.
pub open spec fn push_readable(t: Tree) -> bool {
    &&& t.id_field("repository_id"@) is Some
    &&& t.id_field("command_id"@) is Some
}

fn read_push(document: &Document) -> (r: Option<IpcCommand>)
    requires
        document@.text_field("command"@, None) == Some("push"@),
    ensures
        r is Some <==> push_readable(document@),
        r matches Some(command) ==> command_reads(document@, command),
{
    let repository_id = match document.id_field("repository_id") {
        Some(value) => RepositoryId(value),
        None => {
            return None;
        },
    };
    let command_id = match document.id_field("command_id") {
        Some(value) => CommandId(value),
        None => {
            return None;
        },
    };
    Some(IpcCommand::Push { repository_id, command_id })
}

/// The document holds the fields of the command.
pub open spec fn reconcile_readable(t: Tree) -> bool {
    &&& t.id_field("repository_id"@) is Some
    &&& t.optional_oid("expected_observed_master"@) is Some
    &&& t.optional_number("expected_queue_revision"@, u64::MAX as nat) is Some
    &&& t.id_field("command_id"@) is Some
}

fn read_reconcile(document: &Document) -> (r: Option<IpcCommand>)
    requires
        document@.text_field("command"@, None) == Some("reconcile"@),
    ensures
        r is Some <==> reconcile_readable(document@),
        r matches Some(command) ==> command_reads(document@, command),
{
    let repository_id = match document.id_field("repository_id") {
        Some(value) => RepositoryId(value),
        None => {
            return None;
        },
    };
    let expected_observed_master = match document.optional_oid("expected_observed_master") {
        Some(value) => value,
        None => {
            return None;
        },
    };
    let expected_queue_revision = match document.optional_number("expected_queue_revision", u64::MAX) {
        Some(value) => value,
        None => {
            return None;
        },
    };
    let command_id = match document.id_field("command_id") {
        Some(value) => CommandId(value),
        None => {
            return None;
        },
    };
    Some(IpcCommand::Reconcile { repository_id, expected_observed_master, expected_queue_revision, command_id })
}

/// The document holds the fields of the command.
pub open spec fn update_readable(t: Tree) -> bool {
    &&& t.id_field("repository_id"@) is Some
    &&& t.text_field("worktree_path"@, None) is Some
    &&& t.id_field("command_id"@) is Some
}

fn read_update(document: &Document) -> (r: Option<IpcCommand>)
    requires
        document@.text_field("command"@, None) == Some("update"@),
    ensures
        r is Some <==> update_readable(document@),
        r matches Some(command) ==> command_reads(document@, command),
{
    let repository_id = match document.id_field("repository_id") {
        Some(value) => RepositoryId(value),
        None => {
            return None;
        },
    };
    let worktree_path = match document.text_field("worktree_path", None) {
        Some(value) => value,
        None => {
            return None;
        },
    };
    let command_id = match document.id_field("command_id") {
        Some(value) => CommandId(value),
        None => {
            return None;
        },
    };
    Some(IpcCommand::Update { repository_id, worktree_path, command_id })
}

/// The document holds the fields of the command.
pub open spec fn worktree_create_readable(t: Tree) -> bool {
    &&& t.id_field("repository_id"@) is Some
    &&& t.text_field("branch"@, None) is Some
    &&& t.optional_text("destination"@) is Some
    &&& t.bool_field("warm"@, Some(false)) is Some
    &&& t.id_field("command_id"@) is Some
}

fn read_worktree_create(document: &Document) -> (r: Option<IpcCommand>)
    requires
        document@.text_field("command"@, None) == Some("worktree-create"@),
    ensures
        r is Some <==> worktree_create_readable(document@),
        r matches Some(command) ==> command_reads(document@, command),
{
    let repository_id = match document.id_field("repository_id") {
        Some(value) => RepositoryId(value),
        None => {
            return None;
        },
    };
    let branch = match document.text_field("branch", None) {
        Some(value) => value,
        None => {
            return None;
        },
    };
    let destination = match document.optional_text("destination") {
        Some(value) => value,
        None => {
            return None;
        },
    };
    let warm = match document.bool_field("warm", Some(false)) {
        Some(value) => value,
        None => {
            return None;
        },
    };
    let command_id = match document.id_field("command_id") {
        Some(value) => CommandId(value),
        None => {
            return None;
        },
    };
    Some(IpcCommand::WorktreeCreate { repository_id, branch, destination, warm, command_id })
}

/// The document holds the fields of the command.
pub open spec fn worktree_remove_readable(t: Tree) -> bool {
    &&& t.id_field("repository_id"@) is Some
    &&& t.text_field("path"@, None) is Some
    &&& t.id_field("command_id"@) is Some
}

fn read_worktree_remove(document: &Document) -> (r: Option<IpcCommand>)
    requires
        document@.text_field("command"@, None) == Some("worktree-remove"@),
    ensures
        r is Some <==> worktree_remove_readable(document@),
        r matches Some(command) ==> command_reads(document@, command),
{
    let repository_id = match document.id_field("repository_id") {
        Some(value) => RepositoryId(value),
        None => {
            return None;
        },
    };
    let path = match document.text_field("path", None) {
        Some(value) => value,
        None => {
            return None;
        },
    };
    let command_id = match document.id_field("command_id") {
        Some(value) => CommandId(value),
        None => {
            return None;
        },
    };
    Some(IpcCommand::WorktreeRemove { repository_id, path, command_id })
}

/// The document holds the fields of the command.
pub open spec fn remove_repository_readable(t: Tree) -> bool {
    &&& t.id_field("repository_id"@) is Some
    &&& t.id_field("command_id"@) is Some
}

fn read_remove_repository(document: &Document) -> (r: Option<IpcCommand>)
    requires
        document@.text_field("command"@, None) == Some("remove-repository"@),
    ensures
        r is Some <==> remove_repository_readable(document@),
        r matches Some(command) ==> command_reads(document@, command),
{
    let repository_id = match document.id_field("repository_id") {
        Some(value) => RepositoryId(value),
        None => {
            return None;
        },
    };
    let command_id = match document.id_field("command_id") {
        Some(value) => CommandId(value),
        None => {
            return None;
        },
    };
    Some(IpcCommand::RemoveRepository { repository_id, command_id })
}

/// The document holds the fields of the command.
pub open spec fn apply_configuration_readable(t: Tree) -> bool {
    &&& t.id_field("repository_id"@) is Some
    &&& t.id_field("command_id"@) is Some
}

fn read_apply_configuration(document: &Document) -> (r: Option<IpcCommand>)
    requires
        document@.text_field("command"@, None) == Some("apply-configuration"@),
    ensures
        r is Some <==> apply_configuration_readable(document@),
        r matches Some(command) ==> command_reads(document@, command),
{
    let repository_id = match document.id_field("repository_id") {
        Some(value) => RepositoryId(value),
        None => {
            return None;
        },
    };
    let command_id = match document.id_field("command_id") {
        Some(value) => CommandId(value),
        None => {
            return None;
        },
    };
    Some(IpcCommand::ApplyConfiguration { repository_id, command_id })
}

/// The document holds the fields of the command.
pub open spec fn validate_configuration_readable(t: Tree) -> bool {
    &&& t.id_field("repository_id"@) is Some
}

fn read_validate_configuration(document: &Document) -> (r: Option<IpcCommand>)
    requires
        document@.text_field("command"@, None) == Some("validate-configuration"@),
    ensures
        r is Some <==> validate_configuration_readable(document@),
        r matches Some(command) ==> command_reads(document@, command),
{
    let repository_id = match document.id_field("repository_id") {
        Some(value) => RepositoryId(value),
        None => {
            return None;
        },
    };
    Some(IpcCommand::ValidateConfiguration { repository_id })
}

/// The document holds the fields of the command.
pub open spec fn regenerate_configuration_readable(t: Tree) -> bool {
    &&& t.id_field("repository_id"@) is Some
    &&& t.id_field("command_id"@) is Some
}

fn read_regenerate_configuration(document: &Document) -> (r: Option<IpcCommand>)
    requires
        document@.text_field("command"@, None) == Some("regenerate-configuration"@),
    ensures
        r is Some <==> regenerate_configuration_readable(document@),
        r matches Some(command) ==> command_reads(document@, command),
{
    let repository_id = match document.id_field("repository_id") {
        Some(value) => RepositoryId(value),
        None => {
            return None;
        },
    };
    let command_id = match document.id_field("command_id") {
        Some(value) => CommandId(value),
        None => {
            return None;
        },
    };
    Some(IpcCommand::RegenerateConfiguration { repository_id, command_id })
}

/// The document holds the fields of the command.
pub open spec fn reset_slot_readable(t: Tree) -> bool {
    &&& t.id_field("repository_id"@) is Some
    &&& t.id_field("slot_id"@) is Some
    &&& t.id_field("command_id"@) is Some
}

fn read_reset_slot(document: &Document) -> (r: Option<IpcCommand>)
    requires
        document@.text_field("command"@, None) == Some("reset-slot"@),
    ensures
        r is Some <==> reset_slot_readable(document@),
        r matches Some(command) ==> command_reads(document@, command),
{
    let repository_id = match document.id_field("repository_id") {
        Some(value) => RepositoryId(value),
        None => {
            return None;
        },
    };
    let slot_id = match document.id_field("slot_id") {
        Some(value) => SlotId(value),
        None => {
            return None;
        },
    };
    let command_id = match document.id_field("command_id") {
        Some(value) => CommandId(value),
        None => {
            return None;
        },
    };
    Some(IpcCommand::ResetSlot { repository_id, slot_id, command_id })
}

/// The document holds the fields of the command.
pub open spec fn snapshot_cache_readable(t: Tree) -> bool {
    &&& t.id_field("repository_id"@) is Some
    &&& t.id_field("command_id"@) is Some
}

fn read_snapshot_cache(document: &Document) -> (r: Option<IpcCommand>)
    requires
        document@.text_field("command"@, None) == Some("snapshot-cache"@),
    ensures
        r is Some <==> snapshot_cache_readable(document@),
        r matches Some(command) ==> command_reads(document@, command),
{
    let repository_id = match document.id_field("repository_id") {
        Some(value) => RepositoryId(value),
        None => {
            return None;
        },
    };
    let command_id = match document.id_field("command_id") {
        Some(value) => CommandId(value),
        None => {
            return None;
        },
    };
    Some(IpcCommand::SnapshotCache { repository_id, command_id })
}

/// The document holds the fields of the command.
pub open spec fn purge_cache_readable(t: Tree) -> bool {
    &&& t.id_field("repository_id"@) is Some
    &&& t.bool_field("all_slots"@, None) is Some
    &&& t.id_field("command_id"@) is Some
}

fn read_purge_cache(document: &Document) -> (r: Option<IpcCommand>)
    requires
        document@.text_field("command"@, None) == Some("purge-cache"@),
    ensures
        r is Some <==> purge_cache_readable(document@),
        r matches Some(command) ==> command_reads(document@, command),
{
    let repository_id = match document.id_field("repository_id") {
        Some(value) => RepositoryId(value),
        None => {
            return None;
        },
    };
    let all_slots = match document.bool_field("all_slots", None) {
        Some(value) => value,
        None => {
            return None;
        },
    };
    let command_id = match document.id_field("command_id") {
        Some(value) => CommandId(value),
        None => {
            return None;
        },
    };
    Some(IpcCommand::PurgeCache { repository_id, all_slots, command_id })
}

/// The document holds the fields of the command.
pub open spec fn storage_prune_readable(t: Tree) -> bool {
    &&& t.bool_field("force"@, Some(false)) is Some
    &&& t.id_field("command_id"@) is Some
}

fn read_storage_prune(document: &Document) -> (r: Option<IpcCommand>)
    requires
        document@.text_field("command"@, None) == Some("storage-prune"@),
    ensures
        r is Some <==> storage_prune_readable(document@),
        r matches Some(command) ==> command_reads(document@, command),
{
    let force = match document.bool_field("force", Some(false)) {
        Some(value) => value,
        None => {
            return None;
        },
    };
    let command_id = match document.id_field("command_id") {
        Some(value) => CommandId(value),
        None => {
            return None;
        },
    };
    Some(IpcCommand::StoragePrune { force, command_id })
}

/// The document holds the fields of the command.
pub open spec fn artifact_pin_readable(t: Tree) -> bool {
    &&& t.id_field("repository_id"@) is Some
    &&& t.text_field("artifact_id"@, None) is Some
    &&& t.bool_field("pinned"@, None) is Some
    &&& t.id_field("command_id"@) is Some
}

fn read_artifact_pin(document: &Document) -> (r: Option<IpcCommand>)
    requires
        document@.text_field("command"@, None) == Some("artifact-pin"@),
    ensures
        r is Some <==> artifact_pin_readable(document@),
        r matches Some(command) ==> command_reads(document@, command),
{
    let repository_id = match document.id_field("repository_id") {
        Some(value) => RepositoryId(value),
        None => {
            return None;
        },
    };
    let artifact_id = match document.text_field("artifact_id", None) {
        Some(value) => value,
        None => {
            return None;
        },
    };
    let pinned = match document.bool_field("pinned", None) {
        Some(value) => value,
        None => {
            return None;
        },
    };
    let command_id = match document.id_field("command_id") {
        Some(value) => CommandId(value),
        None => {
            return None;
        },
    };
    Some(IpcCommand::ArtifactPin { repository_id, artifact_id, pinned, command_id })
}

/// The document holds the fields of the command.
pub open spec fn artifact_prune_readable(t: Tree) -> bool {
    &&& t.id_field("repository_id"@) is Some
    &&& t.text_field("artifact_id"@, None) is Some
    &&& t.id_field("command_id"@) is Some
}

fn read_artifact_prune(document: &Document) -> (r: Option<IpcCommand>)
    requires
        document@.text_field("command"@, None) == Some("artifact-prune"@),
    ensures
        r is Some <==> artifact_prune_readable(document@),
        r matches Some(command) ==> command_reads(document@, command),
{
    let repository_id = match document.id_field("repository_id") {
        Some(value) => RepositoryId(value),
        None => {
            return None;
        },
    };
    let artifact_id = match document.text_field("artifact_id", None) {
        Some(value) => value,
        None => {
            return None;
        },
    };
    let command_id = match document.id_field("command_id") {
        Some(value) => CommandId(value),
        None => {
            return None;
        },
    };
    Some(IpcCommand::ArtifactPrune { repository_id, artifact_id, command_id })
}

/// The document holds the fields of the command.
pub open spec fn logs_readable(t: Tree) -> bool {
    &&& t.id_field("repository_id"@) is Some
    &&& t.id_field("item_id"@) is Some
    &&& t.optional_id("buildset_id"@) is Some
    &&& t.optional_text("step"@) is Some
    &&& t.number_field("start_sequence"@, None::<nat>, u64::MAX as nat) is Some
}

fn read_logs(document: &Document) -> (r: Option<IpcCommand>)
    requires
        document@.text_field("command"@, None) == Some("logs"@),
    ensures
        r is Some <==> logs_readable(document@),
        r matches Some(command) ==> command_reads(document@, command),
{
    let repository_id = match document.id_field("repository_id") {
        Some(value) => RepositoryId(value),
        None => {
            return None;
        },
    };
    let item_id = match document.id_field("item_id") {
        Some(value) => QueueItemId(value),
        None => {
            return None;
        },
    };
    let buildset_id = match document.optional_id("buildset_id") {
        Some(value) => match value {
            Some(id) => Some(BuildsetId(id)),
            None => None,
        },
        None => {
            return None;
        },
    };
    let step = match document.optional_text("step") {
        Some(value) => value,
        None => {
            return None;
        },
    };
    let start_sequence: u64 = match document.number_field("start_sequence", None, u64::MAX) {
        Some(value) => value,
        None => {
            return None;
        },
    };
    Some(IpcCommand::Logs { repository_id, item_id, buildset_id, step, start_sequence })
}

/// The document holds the fields of the command.
pub open spec fn doctor_readable(t: Tree) -> bool {
    &&& t.id_field("repository_id"@) is Some
}

fn read_doctor(document: &Document) -> (r: Option<IpcCommand>)
    requires
        document@.text_field("command"@, None) == Some("doctor"@),
    ensures
        r is Some <==> doctor_readable(document@),
        r matches Some(command) ==> command_reads(document@, command),
{
    let repository_id = match document.id_field("repository_id") {
        Some(value) => RepositoryId(value),
        None => {
            return None;
        },
    };
    Some(IpcCommand::Doctor { repository_id })
}

/// The document holds the fields of the command.
pub open spec fn pause_readable(t: Tree) -> bool {
    &&& t.id_field("repository_id"@) is Some
    &&& t.id_field("command_id"@) is Some
}

fn read_pause(document: &Document) -> (r: Option<IpcCommand>)
    requires
        document@.text_field("command"@, None) == Some("pause"@),
    ensures
        r is Some <==> pause_readable(document@),
        r matches Some(command) ==> command_reads(document@, command),
{
    let repository_id = match document.id_field("repository_id") {
        Some(value) => RepositoryId(value),
        None => {
            return None;
        },
    };
    let command_id = match document.id_field("command_id") {
        Some(value) => CommandId(value),
        None => {
            return None;
        },
    };
    Some(IpcCommand::Pause { repository_id, command_id })
}

/// The document holds the fields of the command.
pub open spec fn resume_readable(t: Tree) -> bool {
    &&& t.id_field("repository_id"@) is Some
    &&& t.id_field("command_id"@) is Some
}

fn read_resume(document: &Document) -> (r: Option<IpcCommand>)
    requires
        document@.text_field("command"@, None) == Some("resume"@),
    ensures
        r is Some <==> resume_readable(document@),
        r matches Some(command) ==> command_reads(document@, command),
{
    let repository_id = match document.id_field("repository_id") {
        Some(value) => RepositoryId(value),
        None => {
            return None;
        },
    };
    let command_id = match document.id_field("command_id") {
        Some(value) => CommandId(value),
        None => {
            return None;
        },
    };
    Some(IpcCommand::Resume { repository_id, command_id })
}

/// The document holds the fields of the command.
pub open spec fn reload_environment_readable(t: Tree) -> bool {
    &&& t.id_field("command_id"@) is Some
}

fn read_reload_environment(document: &Document) -> (r: Option<IpcCommand>)
    requires
        document@.text_field("command"@, None) == Some("reload-environment"@),
    ensures
        r is Some <==> reload_environment_readable(document@),
        r matches Some(command) ==> command_reads(document@, command),
{
    let command_id = match document.id_field("command_id") {
        Some(value) => CommandId(value),
        None => {
            return None;
        },
    };
    Some(IpcCommand::ReloadEnvironment { command_id })
}

/// The names of fields that occur together are different.
proof fn lemma_field_names()
    ensures
        "all_slots"@ != "command"@,
        "all_slots"@ != "command_id"@,
        "all_slots"@ != "repository_id"@,
        "artifact_id"@ != "command"@,
        "artifact_id"@ != "command_id"@,
        "artifact_id"@ != "pinned"@,
        "artifact_id"@ != "repository_id"@,
        "bootstrap"@ != "command"@,
        "bootstrap"@ != "detach_master"@,
        "bootstrap"@ != "path"@,
        "bootstrap"@ != "run"@,
        "branch"@ != "command"@,
        "branch"@ != "command_id"@,
        "branch"@ != "destination"@,
        "branch"@ != "repository_id"@,
        "branch"@ != "warm"@,
        "buildset_id"@ != "command"@,
        "buildset_id"@ != "item_id"@,
        "buildset_id"@ != "repository_id"@,
        "buildset_id"@ != "start_sequence"@,
        "buildset_id"@ != "step"@,
        "cold"@ != "command"@,
        "cold"@ != "command_id"@,
        "cold"@ != "item_id"@,
        "cold"@ != "repository_id"@,
        "command"@ != "command_id"@,
        "command"@ != "destination"@,
        "command"@ != "detach_master"@,
        "command"@ != "expected_observed_master"@,
        "command"@ != "expected_queue_revision"@,
        "command"@ != "expected_revision"@,
        "command"@ != "force"@,
        "command"@ != "item_id"@,
        "command"@ != "path"@,
        "command"@ != "pinned"@,
        "command"@ != "purpose"@,
        "command"@ != "replay"@,
        "command"@ != "repository_id"@,
        "command"@ != "retain_worktree"@,
        "command"@ != "revision"@,
        "command"@ != "run"@,
        "command"@ != "selected_ids"@,
        "command"@ != "slot_id"@,
        "command"@ != "start_sequence"@,
        "command"@ != "step"@,
        "command"@ != "verify_repair"@,
        "command"@ != "warm"@,
        "command"@ != "worktree_path"@,
        "command_id"@ != "destination"@,
        "command_id"@ != "expected_observed_master"@,
        "command_id"@ != "expected_queue_revision"@,
        "command_id"@ != "expected_revision"@,
        "command_id"@ != "force"@,
        "command_id"@ != "item_id"@,
        "command_id"@ != "path"@,
        "command_id"@ != "pinned"@,
        "command_id"@ != "purpose"@,
        "command_id"@ != "replay"@,
        "command_id"@ != "repository_id"@,
        "command_id"@ != "retain_worktree"@,
        "command_id"@ != "revision"@,
        "command_id"@ != "selected_ids"@,
        "command_id"@ != "slot_id"@,
        "command_id"@ != "verify_repair"@,
        "command_id"@ != "warm"@,
        "command_id"@ != "worktree_path"@,
        "destination"@ != "repository_id"@,
        "destination"@ != "warm"@,
        "detach_master"@ != "path"@,
        "detach_master"@ != "run"@,
        "expected_observed_master"@ != "expected_queue_revision"@,
        "expected_observed_master"@ != "repository_id"@,
        "expected_queue_revision"@ != "repository_id"@,
        "expected_revision"@ != "item_id"@,
        "expected_revision"@ != "repository_id"@,
        "expected_revision"@ != "selected_ids"@,
        "item_id"@ != "replay"@,
        "item_id"@ != "repository_id"@,
        "item_id"@ != "start_sequence"@,
        "item_id"@ != "step"@,
        "item_id"@ != "verify_repair"@,
        "path"@ != "repository_id"@,
        "path"@ != "run"@,
        "pinned"@ != "repository_id"@,
        "purpose"@ != "repository_id"@,
        "purpose"@ != "retain_worktree"@,
        "purpose"@ != "revision"@,
        "purpose"@ != "worktree_path"@,
        "replay"@ != "repository_id"@,
        "replay"@ != "verify_repair"@,
        "repository_id"@ != "retain_worktree"@,
        "repository_id"@ != "revision"@,
        "repository_id"@ != "selected_ids"@,
        "repository_id"@ != "slot_id"@,
        "repository_id"@ != "start_sequence"@,
        "repository_id"@ != "step"@,
        "repository_id"@ != "verify_repair"@,
        "repository_id"@ != "warm"@,
        "repository_id"@ != "worktree_path"@,
        "retain_worktree"@ != "revision"@,
        "retain_worktree"@ != "worktree_path"@,
        "revision"@ != "worktree_path"@,
        "start_sequence"@ != "step"@,
{
    reveal_strlit("all_slots");
    reveal_strlit("artifact_id");
    reveal_strlit("bootstrap");
    reveal_strlit("branch");
    reveal_strlit("buildset_id");
    reveal_strlit("cold");
    reveal_strlit("command");
    reveal_strlit("command_id");
    reveal_strlit("destination");
    reveal_strlit("detach_master");
    reveal_strlit("expected_observed_master");
    reveal_strlit("expected_queue_revision");
    reveal_strlit("expected_revision");
    reveal_strlit("force");
    reveal_strlit("item_id");
    reveal_strlit("path");
    reveal_strlit("pinned");
    reveal_strlit("purpose");
    reveal_strlit("replay");
    reveal_strlit("repository_id");
    reveal_strlit("retain_worktree");
    reveal_strlit("revision");
    reveal_strlit("run");
    reveal_strlit("selected_ids");
    reveal_strlit("slot_id");
    reveal_strlit("start_sequence");
    reveal_strlit("step");
    reveal_strlit("verify_repair");
    reveal_strlit("warm");
    reveal_strlit("worktree_path");
    assert("all_slots"@.len() != "command"@.len());
    assert("all_slots"@.len() != "command_id"@.len());
    assert("all_slots"@.len() != "repository_id"@.len());
    assert("artifact_id"@.len() != "command"@.len());
    assert("artifact_id"@.len() != "command_id"@.len());
    assert("artifact_id"@.len() != "pinned"@.len());
    assert("artifact_id"@.len() != "repository_id"@.len());
    assert("bootstrap"@.len() != "command"@.len());
    assert("bootstrap"@.len() != "detach_master"@.len());
    assert("bootstrap"@.len() != "path"@.len());
    assert("bootstrap"@.len() != "run"@.len());
    assert("branch"@.len() != "command"@.len());
    assert("branch"@.len() != "command_id"@.len());
    assert("branch"@.len() != "destination"@.len());
    assert("branch"@.len() != "repository_id"@.len());
    assert("branch"@.len() != "warm"@.len());
    assert("buildset_id"@.len() != "command"@.len());
    assert("buildset_id"@.len() != "item_id"@.len());
    assert("buildset_id"@.len() != "repository_id"@.len());
    assert("buildset_id"@.len() != "start_sequence"@.len());
    assert("buildset_id"@.len() != "step"@.len());
    assert("cold"@.len() != "command"@.len());
    assert("cold"@.len() != "command_id"@.len());
    assert("cold"@.len() != "item_id"@.len());
    assert("cold"@.len() != "repository_id"@.len());
    assert("command"@.len() != "command_id"@.len());
    assert("command"@.len() != "destination"@.len());
    assert("command"@.len() != "detach_master"@.len());
    assert("command"@.len() != "expected_observed_master"@.len());
    assert("command"@.len() != "expected_queue_revision"@.len());
    assert("command"@.len() != "expected_revision"@.len());
    assert("command"@.len() != "force"@.len());
    assert("command"@[0] != "item_id"@[0]);
    assert("command"@.len() != "path"@.len());
    assert("command"@.len() != "pinned"@.len());
    assert("command"@[0] != "purpose"@[0]);
    assert("command"@.len() != "replay"@.len());
    assert("command"@.len() != "repository_id"@.len());
    assert("command"@.len() != "retain_worktree"@.len());
    assert("command"@.len() != "revision"@.len());
    assert("command"@.len() != "run"@.len());
    assert("command"@.len() != "selected_ids"@.len());
    assert("command"@[0] != "slot_id"@[0]);
    assert("command"@.len() != "start_sequence"@.len());
    assert("command"@.len() != "step"@.len());
    assert("command"@.len() != "verify_repair"@.len());
    assert("command"@.len() != "warm"@.len());
    assert("command"@.len() != "worktree_path"@.len());
    assert("command_id"@.len() != "destination"@.len());
    assert("command_id"@.len() != "expected_observed_master"@.len());
    assert("command_id"@.len() != "expected_queue_revision"@.len());
    assert("command_id"@.len() != "expected_revision"@.len());
    assert("command_id"@.len() != "force"@.len());
    assert("command_id"@.len() != "item_id"@.len());
    assert("command_id"@.len() != "path"@.len());
    assert("command_id"@.len() != "pinned"@.len());
    assert("command_id"@.len() != "purpose"@.len());
    assert("command_id"@.len() != "replay"@.len());
    assert("command_id"@.len() != "repository_id"@.len());
    assert("command_id"@.len() != "retain_worktree"@.len());
    assert("command_id"@.len() != "revision"@.len());
    assert("command_id"@.len() != "selected_ids"@.len());
    assert("command_id"@.len() != "slot_id"@.len());
    assert("command_id"@.len() != "verify_repair"@.len());
    assert("command_id"@.len() != "warm"@.len());
    assert("command_id"@.len() != "worktree_path"@.len());
    assert("destination"@.len() != "repository_id"@.len());
    assert("destination"@.len() != "warm"@.len());
    assert("detach_master"@.len() != "path"@.len());
    assert("detach_master"@.len() != "run"@.len());
    assert("expected_observed_master"@.len() != "expected_queue_revision"@.len());
    assert("expected_observed_master"@.len() != "repository_id"@.len());
    assert("expected_queue_revision"@.len() != "repository_id"@.len());
    assert("expected_revision"@.len() != "item_id"@.len());
    assert("expected_revision"@.len() != "repository_id"@.len());
    assert("expected_revision"@.len() != "selected_ids"@.len());
    assert("item_id"@.len() != "replay"@.len());
    assert("item_id"@.len() != "repository_id"@.len());
    assert("item_id"@.len() != "start_sequence"@.len());
    assert("item_id"@.len() != "step"@.len());
    assert("item_id"@.len() != "verify_repair"@.len());
    assert("path"@.len() != "repository_id"@.len());
    assert("path"@.len() != "run"@.len());
    assert("pinned"@.len() != "repository_id"@.len());
    assert("purpose"@.len() != "repository_id"@.len());
    assert("purpose"@.len() != "retain_worktree"@.len());
    assert("purpose"@.len() != "revision"@.len());
    assert("purpose"@.len() != "worktree_path"@.len());
    assert("replay"@.len() != "repository_id"@.len());
    assert("replay"@.len() != "verify_repair"@.len());
    assert("repository_id"@.len() != "retain_worktree"@.len());
    assert("repository_id"@.len() != "revision"@.len());
    assert("repository_id"@.len() != "selected_ids"@.len());
    assert("repository_id"@.len() != "slot_id"@.len());
    assert("repository_id"@.len() != "start_sequence"@.len());
    assert("repository_id"@.len() != "step"@.len());
    assert("repository_id"@[0] != "verify_repair"@[0]);
    assert("repository_id"@.len() != "warm"@.len());
    assert("repository_id"@[0] != "worktree_path"@[0]);
    assert("retain_worktree"@.len() != "revision"@.len());
    assert("retain_worktree"@.len() != "worktree_path"@.len());
    assert("revision"@.len() != "worktree_path"@.len());
    assert("start_sequence"@.len() != "step"@.len());
}

fn write_snapshot() -> (r: Document)
    ensures
        r@ == Tree::Table(seq![("command"@, Tree::Text("snapshot"@))]),
        r@.writable(8),
        command_reads(r@, IpcCommand::Snapshot),
{
    let mut fields = Fields::new();
    fields.put("command", Document::Text("snapshot".to_owned()));
    proof {
        let entries = fields@;
        assert(entries =~= seq![("command"@, Tree::Text("snapshot"@))]);
        lemma_field_names();
        assert(entries[0].0 == "command"@);
        assert(distinct_entries(entries));
        lemma_lookup_finds(entries, 0);
        assert(entries[0].1.writable(7));
        lemma_table_writable(entries, 7);
    }
    fields.build()
}

pub open spec fn item_status_entries(repository_id: RepositoryId, item_id: QueueItemId) -> Seq<
    (Seq<char>, Tree),
> {
    seq![
        ("command"@, Tree::Text("item-status"@)),
        ("repository_id"@, id_tree(repository_id.0)),
        ("item_id"@, id_tree(item_id.0)),
    ]
}

fn write_item_status(repository_id: &RepositoryId, item_id: &QueueItemId) -> (r: Document)
    ensures
        r@ == Tree::Table(item_status_entries(*repository_id, *item_id)),
        r@.writable(8),
        command_reads(r@, (IpcCommand::ItemStatus { repository_id: *repository_id, item_id: *item_id })),
{
    let mut fields = Fields::new();
    fields.put("command", Document::Text("item-status".to_owned()));
    let repository_id_value = id_document(repository_id.0);
    fields.put("repository_id", repository_id_value);
    let item_id_value = id_document(item_id.0);
    fields.put("item_id", item_id_value);
    proof {
        let entries = fields@;
        assert(entries =~= item_status_entries(*repository_id, *item_id));
        lemma_field_names();
        assert(entries[0].0 == "command"@);
        assert(entries[1].0 == "repository_id"@);
        assert(entries[2].0 == "item_id"@);
        assert(distinct_entries(entries));
        lemma_lookup_finds(entries, 0);
        lemma_lookup_finds(entries, 1);
        lemma_lookup_finds(entries, 2);
        assert(entries[0].1.writable(7));
        assert(entries[1].1.writable(7));
        assert(entries[2].1.writable(7));
        lemma_table_writable(entries, 7);
    }
    fields.build()
}

pub open spec fn item_details_entries(repository_id: Option<RepositoryId>, item_id: QueueItemId) -> Seq<
    (Seq<char>, Tree),
> {
    if repository_id is Some {
        seq![("command"@, Tree::Text("item-details"@)), ("repository_id"@, id_tree((repository_id->Some_0).0)), ("item_id"@, id_tree(item_id.0))]
    } else {
        seq![("command"@, Tree::Text("item-details"@)), ("item_id"@, id_tree(item_id.0))]
    }
}

fn write_item_details(repository_id: &Option<RepositoryId>, item_id: &QueueItemId) -> (r: Document)
    ensures
        r@ == Tree::Table(item_details_entries(*repository_id, *item_id)),
        r@.writable(8),
        command_reads(r@, (IpcCommand::ItemDetails { repository_id: *repository_id, item_id: *item_id })),
{
    let mut fields = Fields::new();
    fields.put("command", Document::Text("item-details".to_owned()));
    if let Some(id) = repository_id {
        fields.put("repository_id", id_document(id.0));
    }
    let item_id_value = id_document(item_id.0);
    fields.put("item_id", item_id_value);
    proof {
        let entries = fields@;
        assert(entries =~= item_details_entries(*repository_id, *item_id));
        lemma_field_names();
        lemma_lookup_finds(entries, 0);
        if repository_id is Some {
            lemma_lookup_finds(entries, 1);
            lemma_lookup_finds(entries, 2);
        } else {
            lemma_lookup_finds(entries, 1);
            lemma_lookup_misses(entries, "repository_id"@);
        }
        assert(distinct_entries(entries));
        if repository_id is Some {
            assert(entries[1].1.writable(7));
            assert(entries[2].1.writable(7));
        } else {
            assert(entries[1].1.writable(7));
        }
        assert(entries[0].1.writable(7));
        lemma_table_writable(entries, 7);
    }
    fields.build()
}

pub open spec fn item_wait_status_entries(repository_id: RepositoryId, item_id: QueueItemId) -> Seq<
    (Seq<char>, Tree),
> {
    seq![
        ("command"@, Tree::Text("item-wait-status"@)),
        ("repository_id"@, id_tree(repository_id.0)),
        ("item_id"@, id_tree(item_id.0)),
    ]
}

fn write_item_wait_status(repository_id: &RepositoryId, item_id: &QueueItemId) -> (r: Document)
    ensures
        r@ == Tree::Table(item_wait_status_entries(*repository_id, *item_id)),
        r@.writable(8),
        command_reads(r@, (IpcCommand::ItemWaitStatus { repository_id: *repository_id, item_id: *item_id })),
{
    let mut fields = Fields::new();
    fields.put("command", Document::Text("item-wait-status".to_owned()));
    let repository_id_value = id_document(repository_id.0);
    fields.put("repository_id", repository_id_value);
    let item_id_value = id_document(item_id.0);
    fields.put("item_id", item_id_value);
    proof {
        let entries = fields@;
        assert(entries =~= item_wait_status_entries(*repository_id, *item_id));
        lemma_field_names();
        assert(entries[0].0 == "command"@);
        assert(entries[1].0 == "repository_id"@);
        assert(entries[2].0 == "item_id"@);
        assert(distinct_entries(entries));
        lemma_lookup_finds(entries, 0);
        lemma_lookup_finds(entries, 1);
        lemma_lookup_finds(entries, 2);
        assert(entries[0].1.writable(7));
        assert(entries[1].1.writable(7));
        assert(entries[2].1.writable(7));
        lemma_table_writable(entries, 7);
    }
    fields.build()
}

pub open spec fn initialize_entries(path: String, run: Option<String>, bootstrap: bool, detach_master: bool) -> Seq<
    (Seq<char>, Tree),
> {
    seq![
        ("command"@, Tree::Text("initialize"@)),
        ("path"@, Tree::Text(path@)),
        ("run"@, optional_text_tree(match run { Some(text) => Some(text@), None => None })),
        ("bootstrap"@, Tree::Bool(bootstrap)),
        ("detach_master"@, Tree::Bool(detach_master)),
    ]
}

fn write_initialize(path: &String, run: &Option<String>, bootstrap: &bool, detach_master: &bool) -> (r: Document)
    ensures
        r@ == Tree::Table(initialize_entries(*path, *run, *bootstrap, *detach_master)),
        r@.writable(8),
        command_reads(r@, (IpcCommand::Initialize { path: *path, run: *run, bootstrap: *bootstrap, detach_master: *detach_master })),
{
    let mut fields = Fields::new();
    fields.put("command", Document::Text("initialize".to_owned()));
    let path_value = Document::Text(path.as_str().to_owned());
    fields.put("path", path_value);
    let run_value = optional_text_document(run);
    fields.put("run", run_value);
    let bootstrap_value = Document::Bool(*bootstrap);
    fields.put("bootstrap", bootstrap_value);
    let detach_master_value = Document::Bool(*detach_master);
    fields.put("detach_master", detach_master_value);
    proof {
        let entries = fields@;
        assert(entries =~= initialize_entries(*path, *run, *bootstrap, *detach_master));
        lemma_field_names();
        assert(entries[0].0 == "command"@);
        assert(entries[1].0 == "path"@);
        assert(entries[2].0 == "run"@);
        assert(entries[3].0 == "bootstrap"@);
        assert(entries[4].0 == "detach_master"@);
        assert(distinct_entries(entries));
        lemma_lookup_finds(entries, 0);
        lemma_lookup_finds(entries, 1);
        lemma_lookup_finds(entries, 2);
        lemma_lookup_finds(entries, 3);
        lemma_lookup_finds(entries, 4);
        assert(entries[0].1.writable(7));
        assert(entries[1].1.writable(7));
        assert(entries[2].1.writable(7));
        assert(entries[3].1.writable(7));
        assert(entries[4].1.writable(7));
        lemma_table_writable(entries, 7);
    }
    fields.build()
}

pub open spec fn approve_entries(repository_id: RepositoryId, revision: String, worktree_path: Option<String>, purpose: Option<String>, retain_worktree: bool, command_id: CommandId) -> Seq<
    (Seq<char>, Tree),
> {
    seq![
        ("command"@, Tree::Text("approve"@)),
        ("repository_id"@, id_tree(repository_id.0)),
        ("revision"@, Tree::Text(revision@)),
        ("worktree_path"@, optional_text_tree(match worktree_path { Some(text) => Some(text@), None => None })),
        ("purpose"@, optional_text_tree(match purpose { Some(text) => Some(text@), None => None })),
        ("retain_worktree"@, Tree::Bool(retain_worktree)),
        ("command_id"@, id_tree(command_id.0)),
    ]
}

fn write_approve(repository_id: &RepositoryId, revision: &String, worktree_path: &Option<String>, purpose: &Option<String>, retain_worktree: &bool, command_id: &CommandId) -> (r: Document)
    ensures
        r@ == Tree::Table(approve_entries(*repository_id, *revision, *worktree_path, *purpose, *retain_worktree, *command_id)),
        r@.writable(8),
        command_reads(r@, (IpcCommand::Approve { repository_id: *repository_id, revision: *revision, worktree_path: *worktree_path, purpose: *purpose, retain_worktree: *retain_worktree, command_id: *command_id })),
{
    let mut fields = Fields::new();
    fields.put("command", Document::Text("approve".to_owned()));
    let repository_id_value = id_document(repository_id.0);
    fields.put("repository_id", repository_id_value);
    let revision_value = Document::Text(revision.as_str().to_owned());
    fields.put("revision", revision_value);
    let worktree_path_value = optional_text_document(worktree_path);
    fields.put("worktree_path", worktree_path_value);
    let purpose_value = optional_text_document(purpose);
    fields.put("purpose", purpose_value);
    let retain_worktree_value = Document::Bool(*retain_worktree);
    fields.put("retain_worktree", retain_worktree_value);
    let command_id_value = id_document(command_id.0);
    fields.put("command_id", command_id_value);
    proof {
        let entries = fields@;
        assert(entries =~= approve_entries(*repository_id, *revision, *worktree_path, *purpose, *retain_worktree, *command_id));
        lemma_field_names();
        assert(entries[0].0 == "command"@);
        assert(entries[1].0 == "repository_id"@);
        assert(entries[2].0 == "revision"@);
        assert(entries[3].0 == "worktree_path"@);
        assert(entries[4].0 == "purpose"@);
        assert(entries[5].0 == "retain_worktree"@);
        assert(entries[6].0 == "command_id"@);
        assert(distinct_entries(entries));
        lemma_lookup_finds(entries, 0);
        lemma_lookup_finds(entries, 1);
        lemma_lookup_finds(entries, 2);
        lemma_lookup_finds(entries, 3);
        lemma_lookup_finds(entries, 4);
        lemma_lookup_finds(entries, 5);
        lemma_lookup_finds(entries, 6);
        assert(entries[0].1.writable(7));
        assert(entries[1].1.writable(7));
        assert(entries[2].1.writable(7));
        assert(entries[3].1.writable(7));
        assert(entries[4].1.writable(7));
        assert(entries[5].1.writable(7));
        assert(entries[6].1.writable(7));
        lemma_table_writable(entries, 7);
    }
    fields.build()
}

pub open spec fn candidate_entries(repository_id: RepositoryId, revision: String, worktree_path: Option<String>, retain_worktree: bool, command_id: CommandId) -> Seq<
    (Seq<char>, Tree),
> {
    seq![
        ("command"@, Tree::Text("candidate"@)),
        ("repository_id"@, id_tree(repository_id.0)),
        ("revision"@, Tree::Text(revision@)),
        ("worktree_path"@, optional_text_tree(match worktree_path { Some(text) => Some(text@), None => None })),
        ("retain_worktree"@, Tree::Bool(retain_worktree)),
        ("command_id"@, id_tree(command_id.0)),
    ]
}

fn write_candidate(repository_id: &RepositoryId, revision: &String, worktree_path: &Option<String>, retain_worktree: &bool, command_id: &CommandId) -> (r: Document)
    ensures
        r@ == Tree::Table(candidate_entries(*repository_id, *revision, *worktree_path, *retain_worktree, *command_id)),
        r@.writable(8),
        command_reads(r@, (IpcCommand::Candidate { repository_id: *repository_id, revision: *revision, worktree_path: *worktree_path, retain_worktree: *retain_worktree, command_id: *command_id })),
{
    let mut fields = Fields::new();
    fields.put("command", Document::Text("candidate".to_owned()));
    let repository_id_value = id_document(repository_id.0);
    fields.put("repository_id", repository_id_value);
    let revision_value = Document::Text(revision.as_str().to_owned());
    fields.put("revision", revision_value);
    let worktree_path_value = optional_text_document(worktree_path);
    fields.put("worktree_path", worktree_path_value);
    let retain_worktree_value = Document::Bool(*retain_worktree);
    fields.put("retain_worktree", retain_worktree_value);
    let command_id_value = id_document(command_id.0);
    fields.put("command_id", command_id_value);
    proof {
        let entries = fields@;
        assert(entries =~= candidate_entries(*repository_id, *revision, *worktree_path, *retain_worktree, *command_id));
        lemma_field_names();
        assert(entries[0].0 == "command"@);
        assert(entries[1].0 == "repository_id"@);
        assert(entries[2].0 == "revision"@);
        assert(entries[3].0 == "worktree_path"@);
        assert(entries[4].0 == "retain_worktree"@);
        assert(entries[5].0 == "command_id"@);
        assert(distinct_entries(entries));
        lemma_lookup_finds(entries, 0);
        lemma_lookup_finds(entries, 1);
        lemma_lookup_finds(entries, 2);
        lemma_lookup_finds(entries, 3);
        lemma_lookup_finds(entries, 4);
        lemma_lookup_finds(entries, 5);
        assert(entries[0].1.writable(7));
        assert(entries[1].1.writable(7));
        assert(entries[2].1.writable(7));
        assert(entries[3].1.writable(7));
        assert(entries[4].1.writable(7));
        assert(entries[5].1.writable(7));
        lemma_table_writable(entries, 7);
    }
    fields.build()
}

pub open spec fn authorize_candidate_entries(repository_id: RepositoryId, item_id: QueueItemId, expected_revision: u64, command_id: CommandId) -> Seq<
    (Seq<char>, Tree),
> {
    seq![
        ("command"@, Tree::Text("authorize-candidate"@)),
        ("repository_id"@, id_tree(repository_id.0)),
        ("item_id"@, id_tree(item_id.0)),
        ("expected_revision"@, Tree::Integer(expected_revision as int)),
        ("command_id"@, id_tree(command_id.0)),
    ]
}

fn write_authorize_candidate(repository_id: &RepositoryId, item_id: &QueueItemId, expected_revision: &u64, command_id: &CommandId) -> (r: Document)
    ensures
        r@ == Tree::Table(authorize_candidate_entries(*repository_id, *item_id, *expected_revision, *command_id)),
        r@.writable(8),
        command_reads(r@, (IpcCommand::AuthorizeCandidate { repository_id: *repository_id, item_id: *item_id, expected_revision: *expected_revision, command_id: *command_id })),
{
    let mut fields = Fields::new();
    fields.put("command", Document::Text("authorize-candidate".to_owned()));
    let repository_id_value = id_document(repository_id.0);
    fields.put("repository_id", repository_id_value);
    let item_id_value = id_document(item_id.0);
    fields.put("item_id", item_id_value);
    let expected_revision_value = Document::Integer(*expected_revision as i128);
    fields.put("expected_revision", expected_revision_value);
    let command_id_value = id_document(command_id.0);
    fields.put("command_id", command_id_value);
    proof {
        let entries = fields@;
        assert(entries =~= authorize_candidate_entries(*repository_id, *item_id, *expected_revision, *command_id));
        lemma_field_names();
        assert(entries[0].0 == "command"@);
        assert(entries[1].0 == "repository_id"@);
        assert(entries[2].0 == "item_id"@);
        assert(entries[3].0 == "expected_revision"@);
        assert(entries[4].0 == "command_id"@);
        assert(distinct_entries(entries));
        lemma_lookup_finds(entries, 0);
        lemma_lookup_finds(entries, 1);
        lemma_lookup_finds(entries, 2);
        lemma_lookup_finds(entries, 3);
        lemma_lookup_finds(entries, 4);
        assert(entries[0].1.writable(7));
        assert(entries[1].1.writable(7));
        assert(entries[2].1.writable(7));
        assert(entries[3].1.writable(7));
        assert(entries[4].1.writable(7));
        lemma_table_writable(entries, 7);
    }
    fields.build()
}

pub open spec fn check_entries(repository_id: RepositoryId, revision: String, worktree_path: Option<String>, command_id: CommandId) -> Seq<
    (Seq<char>, Tree),
> {
    seq![
        ("command"@, Tree::Text("check"@)),
        ("repository_id"@, id_tree(repository_id.0)),
        ("revision"@, Tree::Text(revision@)),
        ("worktree_path"@, optional_text_tree(match worktree_path { Some(text) => Some(text@), None => None })),
        ("command_id"@, id_tree(command_id.0)),
    ]
}

fn write_check(repository_id: &RepositoryId, revision: &String, worktree_path: &Option<String>, command_id: &CommandId) -> (r: Document)
    ensures
        r@ == Tree::Table(check_entries(*repository_id, *revision, *worktree_path, *command_id)),
        r@.writable(8),
        command_reads(r@, (IpcCommand::Check { repository_id: *repository_id, revision: *revision, worktree_path: *worktree_path, command_id: *command_id })),
{
    let mut fields = Fields::new();
    fields.put("command", Document::Text("check".to_owned()));
    let repository_id_value = id_document(repository_id.0);
    fields.put("repository_id", repository_id_value);
    let revision_value = Document::Text(revision.as_str().to_owned());
    fields.put("revision", revision_value);
    let worktree_path_value = optional_text_document(worktree_path);
    fields.put("worktree_path", worktree_path_value);
    let command_id_value = id_document(command_id.0);
    fields.put("command_id", command_id_value);
    proof {
        let entries = fields@;
        assert(entries =~= check_entries(*repository_id, *revision, *worktree_path, *command_id));
        lemma_field_names();
        assert(entries[0].0 == "command"@);
        assert(entries[1].0 == "repository_id"@);
        assert(entries[2].0 == "revision"@);
        assert(entries[3].0 == "worktree_path"@);
        assert(entries[4].0 == "command_id"@);
        assert(distinct_entries(entries));
        lemma_lookup_finds(entries, 0);
        lemma_lookup_finds(entries, 1);
        lemma_lookup_finds(entries, 2);
        lemma_lookup_finds(entries, 3);
        lemma_lookup_finds(entries, 4);
        assert(entries[0].1.writable(7));
        assert(entries[1].1.writable(7));
        assert(entries[2].1.writable(7));
        assert(entries[3].1.writable(7));
        assert(entries[4].1.writable(7));
        lemma_table_writable(entries, 7);
    }
    fields.build()
}

pub open spec fn diagnose_entries(repository_id: RepositoryId, item_id: QueueItemId, replay: bool, verify_repair: bool, command_id: CommandId) -> Seq<
    (Seq<char>, Tree),
> {
    seq![
        ("command"@, Tree::Text("diagnose"@)),
        ("repository_id"@, id_tree(repository_id.0)),
        ("item_id"@, id_tree(item_id.0)),
        ("replay"@, Tree::Bool(replay)),
        ("verify_repair"@, Tree::Bool(verify_repair)),
        ("command_id"@, id_tree(command_id.0)),
    ]
}

fn write_diagnose(repository_id: &RepositoryId, item_id: &QueueItemId, replay: &bool, verify_repair: &bool, command_id: &CommandId) -> (r: Document)
    ensures
        r@ == Tree::Table(diagnose_entries(*repository_id, *item_id, *replay, *verify_repair, *command_id)),
        r@.writable(8),
        command_reads(r@, (IpcCommand::Diagnose { repository_id: *repository_id, item_id: *item_id, replay: *replay, verify_repair: *verify_repair, command_id: *command_id })),
{
    let mut fields = Fields::new();
    fields.put("command", Document::Text("diagnose".to_owned()));
    let repository_id_value = id_document(repository_id.0);
    fields.put("repository_id", repository_id_value);
    let item_id_value = id_document(item_id.0);
    fields.put("item_id", item_id_value);
    let replay_value = Document::Bool(*replay);
    fields.put("replay", replay_value);
    let verify_repair_value = Document::Bool(*verify_repair);
    fields.put("verify_repair", verify_repair_value);
    let command_id_value = id_document(command_id.0);
    fields.put("command_id", command_id_value);
    proof {
        let entries = fields@;
        assert(entries =~= diagnose_entries(*repository_id, *item_id, *replay, *verify_repair, *command_id));
        lemma_field_names();
        assert(entries[0].0 == "command"@);
        assert(entries[1].0 == "repository_id"@);
        assert(entries[2].0 == "item_id"@);
        assert(entries[3].0 == "replay"@);
        assert(entries[4].0 == "verify_repair"@);
        assert(entries[5].0 == "command_id"@);
        assert(distinct_entries(entries));
        lemma_lookup_finds(entries, 0);
        lemma_lookup_finds(entries, 1);
        lemma_lookup_finds(entries, 2);
        lemma_lookup_finds(entries, 3);
        lemma_lookup_finds(entries, 4);
        lemma_lookup_finds(entries, 5);
        assert(entries[0].1.writable(7));
        assert(entries[1].1.writable(7));
        assert(entries[2].1.writable(7));
        assert(entries[3].1.writable(7));
        assert(entries[4].1.writable(7));
        assert(entries[5].1.writable(7));
        lemma_table_writable(entries, 7);
    }
    fields.build()
}

pub open spec fn cancel_entries(repository_id: RepositoryId, item_id: QueueItemId, expected_revision: u64, command_id: CommandId) -> Seq<
    (Seq<char>, Tree),
> {
    seq![
        ("command"@, Tree::Text("cancel"@)),
        ("repository_id"@, id_tree(repository_id.0)),
        ("item_id"@, id_tree(item_id.0)),
        ("expected_revision"@, Tree::Integer(expected_revision as int)),
        ("command_id"@, id_tree(command_id.0)),
    ]
}

fn write_cancel(repository_id: &RepositoryId, item_id: &QueueItemId, expected_revision: &u64, command_id: &CommandId) -> (r: Document)
    ensures
        r@ == Tree::Table(cancel_entries(*repository_id, *item_id, *expected_revision, *command_id)),
        r@.writable(8),
        command_reads(r@, (IpcCommand::Cancel { repository_id: *repository_id, item_id: *item_id, expected_revision: *expected_revision, command_id: *command_id })),
{
    let mut fields = Fields::new();
    fields.put("command", Document::Text("cancel".to_owned()));
    let repository_id_value = id_document(repository_id.0);
    fields.put("repository_id", repository_id_value);
    let item_id_value = id_document(item_id.0);
    fields.put("item_id", item_id_value);
    let expected_revision_value = Document::Integer(*expected_revision as i128);
    fields.put("expected_revision", expected_revision_value);
    let command_id_value = id_document(command_id.0);
    fields.put("command_id", command_id_value);
    proof {
        let entries = fields@;
        assert(entries =~= cancel_entries(*repository_id, *item_id, *expected_revision, *command_id));
        lemma_field_names();
        assert(entries[0].0 == "command"@);
        assert(entries[1].0 == "repository_id"@);
        assert(entries[2].0 == "item_id"@);
        assert(entries[3].0 == "expected_revision"@);
        assert(entries[4].0 == "command_id"@);
        assert(distinct_entries(entries));
        lemma_lookup_finds(entries, 0);
        lemma_lookup_finds(entries, 1);
        lemma_lookup_finds(entries, 2);
        lemma_lookup_finds(entries, 3);
        lemma_lookup_finds(entries, 4);
        assert(entries[0].1.writable(7));
        assert(entries[1].1.writable(7));
        assert(entries[2].1.writable(7));
        assert(entries[3].1.writable(7));
        assert(entries[4].1.writable(7));
        lemma_table_writable(entries, 7);
    }
    fields.build()
}

pub open spec fn retry_entries(repository_id: RepositoryId, item_id: QueueItemId, cold: bool, command_id: CommandId) -> Seq<
    (Seq<char>, Tree),
> {
    seq![
        ("command"@, Tree::Text("retry"@)),
        ("repository_id"@, id_tree(repository_id.0)),
        ("item_id"@, id_tree(item_id.0)),
        ("cold"@, Tree::Bool(cold)),
        ("command_id"@, id_tree(command_id.0)),
    ]
}

fn write_retry(repository_id: &RepositoryId, item_id: &QueueItemId, cold: &bool, command_id: &CommandId) -> (r: Document)
    ensures
        r@ == Tree::Table(retry_entries(*repository_id, *item_id, *cold, *command_id)),
        r@.writable(8),
        command_reads(r@, (IpcCommand::Retry { repository_id: *repository_id, item_id: *item_id, cold: *cold, command_id: *command_id })),
{
    let mut fields = Fields::new();
    fields.put("command", Document::Text("retry".to_owned()));
    let repository_id_value = id_document(repository_id.0);
    fields.put("repository_id", repository_id_value);
    let item_id_value = id_document(item_id.0);
    fields.put("item_id", item_id_value);
    let cold_value = Document::Bool(*cold);
    fields.put("cold", cold_value);
    let command_id_value = id_document(command_id.0);
    fields.put("command_id", command_id_value);
    proof {
        let entries = fields@;
        assert(entries =~= retry_entries(*repository_id, *item_id, *cold, *command_id));
        lemma_field_names();
        assert(entries[0].0 == "command"@);
        assert(entries[1].0 == "repository_id"@);
        assert(entries[2].0 == "item_id"@);
        assert(entries[3].0 == "cold"@);
        assert(entries[4].0 == "command_id"@);
        assert(distinct_entries(entries));
        lemma_lookup_finds(entries, 0);
        lemma_lookup_finds(entries, 1);
        lemma_lookup_finds(entries, 2);
        lemma_lookup_finds(entries, 3);
        lemma_lookup_finds(entries, 4);
        assert(entries[0].1.writable(7));
        assert(entries[1].1.writable(7));
        assert(entries[2].1.writable(7));
        assert(entries[3].1.writable(7));
        assert(entries[4].1.writable(7));
        lemma_table_writable(entries, 7);
    }
    fields.build()
}

pub open spec fn reorder_entries(repository_id: RepositoryId, selected_ids: Vec<QueueItemId>, expected_revision: u64, command_id: CommandId) -> Seq<
    (Seq<char>, Tree),
> {
    seq![
        ("command"@, Tree::Text("reorder"@)),
        ("repository_id"@, id_tree(repository_id.0)),
        ("selected_ids"@, ids_tree(selected_ids@)),
        ("expected_revision"@, Tree::Integer(expected_revision as int)),
        ("command_id"@, id_tree(command_id.0)),
    ]
}

fn write_reorder(repository_id: &RepositoryId, selected_ids: &Vec<QueueItemId>, expected_revision: &u64, command_id: &CommandId) -> (r: Document)
    ensures
        r@ == Tree::Table(reorder_entries(*repository_id, *selected_ids, *expected_revision, *command_id)),
        r@.writable(8),
        command_reads(r@, (IpcCommand::Reorder { repository_id: *repository_id, selected_ids: *selected_ids, expected_revision: *expected_revision, command_id: *command_id })),
{
    let mut fields = Fields::new();
    fields.put("command", Document::Text("reorder".to_owned()));
    let repository_id_value = id_document(repository_id.0);
    fields.put("repository_id", repository_id_value);
    let selected_ids_value = ids_document(selected_ids);
    fields.put("selected_ids", selected_ids_value);
    let expected_revision_value = Document::Integer(*expected_revision as i128);
    fields.put("expected_revision", expected_revision_value);
    let command_id_value = id_document(command_id.0);
    fields.put("command_id", command_id_value);
    proof {
        let entries = fields@;
        assert(entries =~= reorder_entries(*repository_id, *selected_ids, *expected_revision, *command_id));
        lemma_field_names();
        assert(entries[0].0 == "command"@);
        assert(entries[1].0 == "repository_id"@);
        assert(entries[2].0 == "selected_ids"@);
        assert(entries[3].0 == "expected_revision"@);
        assert(entries[4].0 == "command_id"@);
        assert(distinct_entries(entries));
        lemma_lookup_finds(entries, 0);
        lemma_lookup_finds(entries, 1);
        lemma_lookup_finds(entries, 2);
        lemma_lookup_finds(entries, 3);
        lemma_lookup_finds(entries, 4);
        assert forall|i: int| 0 <= i < ids_tree(selected_ids@)->List_0.len() implies (
        #[trigger] ids_tree(selected_ids@)->List_0[i]).writable(6) by {}
        assert(ids_tree(selected_ids@).writable(7));
        assert(entries[0].1.writable(7));
        assert(entries[1].1.writable(7));
        assert(entries[2].1.writable(7));
        assert(entries[3].1.writable(7));
        assert(entries[4].1.writable(7));
        lemma_table_writable(entries, 7);
    }
    fields.build()
}

pub open spec fn pull_entries(repository_id: RepositoryId, command_id: CommandId) -> Seq<
    (Seq<char>, Tree),
> {
    seq![
        ("command"@, Tree::Text("pull"@)),
        ("repository_id"@, id_tree(repository_id.0)),
        ("command_id"@, id_tree(command_id.0)),
    ]
}

fn write_pull(repository_id: &RepositoryId, command_id: &CommandId) -> (r: Document)
    ensures
        r@ == Tree::Table(pull_entries(*repository_id, *command_id)),
        r@.writable(8),
        command_reads(r@, (IpcCommand::Pull { repository_id: *repository_id, command_id: *command_id })),
{
    let mut fields = Fields::new();
    fields.put("command", Document::Text("pull".to_owned()));
    let repository_id_value = id_document(repository_id.0);
    fields.put("repository_id", repository_id_value);
    let command_id_value = id_document(command_id.0);
    fields.put("command_id", command_id_value);
    proof {
        let entries = fields@;
        assert(entries =~= pull_entries(*repository_id, *command_id));
        lemma_field_names();
        assert(entries[0].0 == "command"@);
        assert(entries[1].0 == "repository_id"@);
        assert(entries[2].0 == "command_id"@);
        assert(distinct_entries(entries));
        lemma_lookup_finds(entries, 0);
        lemma_lookup_finds(entries, 1);
        lemma_lookup_finds(entries, 2);
        assert(entries[0].1.writable(7));
        assert(entries[1].1.writable(7));
        assert(entries[2].1.writable(7));
        lemma_table_writable(entries, 7);
    }
    fields.build()
}

pub open spec fn push_entries(repository_id: RepositoryId, command_id: CommandId) -> Seq<
    (Seq<char>, Tree),
> {
    seq![
        ("command"@, Tree::Text("push"@)),
        ("repository_id"@, id_tree(repository_id.0)),
        ("command_id"@, id_tree(command_id.0)),
    ]
}

fn write_push(repository_id: &RepositoryId, command_id: &CommandId) -> (r: Document)
    ensures
        r@ == Tree::Table(push_entries(*repository_id, *command_id)),
        r@.writable(8),
        command_reads(r@, (IpcCommand::Push { repository_id: *repository_id, command_id: *command_id })),
{
    let mut fields = Fields::new();
    fields.put("command", Document::Text("push".to_owned()));
    let repository_id_value = id_document(repository_id.0);
    fields.put("repository_id", repository_id_value);
    let command_id_value = id_document(command_id.0);
    fields.put("command_id", command_id_value);
    proof {
        let entries = fields@;
        assert(entries =~= push_entries(*repository_id, *command_id));
        lemma_field_names();
        assert(entries[0].0 == "command"@);
        assert(entries[1].0 == "repository_id"@);
        assert(entries[2].0 == "command_id"@);
        assert(distinct_entries(entries));
        lemma_lookup_finds(entries, 0);
        lemma_lookup_finds(entries, 1);
        lemma_lookup_finds(entries, 2);
        assert(entries[0].1.writable(7));
        assert(entries[1].1.writable(7));
        assert(entries[2].1.writable(7));
        lemma_table_writable(entries, 7);
    }
    fields.build()
}

pub open spec fn reconcile_entries(repository_id: RepositoryId, expected_observed_master: Option<GitOid>, expected_queue_revision: Option<u64>, command_id: CommandId) -> Seq<
    (Seq<char>, Tree),
> {
    seq![
        ("command"@, Tree::Text("reconcile"@)),
        ("repository_id"@, id_tree(repository_id.0)),
        ("expected_observed_master"@, optional_oid_tree(match expected_observed_master { Some(oid) => Some(oid@), None => None })),
        ("expected_queue_revision"@, optional_number_tree(expected_queue_revision)),
        ("command_id"@, id_tree(command_id.0)),
    ]
}

fn write_reconcile(repository_id: &RepositoryId, expected_observed_master: &Option<GitOid>, expected_queue_revision: &Option<u64>, command_id: &CommandId) -> (r: Document)
    ensures
        r@ == Tree::Table(reconcile_entries(*repository_id, *expected_observed_master, *expected_queue_revision, *command_id)),
        r@.writable(8),
        command_reads(r@, (IpcCommand::Reconcile { repository_id: *repository_id, expected_observed_master: *expected_observed_master, expected_queue_revision: *expected_queue_revision, command_id: *command_id })),
{
    let mut fields = Fields::new();
    fields.put("command", Document::Text("reconcile".to_owned()));
    let repository_id_value = id_document(repository_id.0);
    fields.put("repository_id", repository_id_value);
    let expected_observed_master_value = optional_oid_document(expected_observed_master);
    fields.put("expected_observed_master", expected_observed_master_value);
    let expected_queue_revision_value = optional_number_document(*expected_queue_revision);
    fields.put("expected_queue_revision", expected_queue_revision_value);
    let command_id_value = id_document(command_id.0);
    fields.put("command_id", command_id_value);
    proof {
        let entries = fields@;
        assert(entries =~= reconcile_entries(*repository_id, *expected_observed_master, *expected_queue_revision, *command_id));
        lemma_field_names();
        assert(entries[0].0 == "command"@);
        assert(entries[1].0 == "repository_id"@);
        assert(entries[2].0 == "expected_observed_master"@);
        assert(entries[3].0 == "expected_queue_revision"@);
        assert(entries[4].0 == "command_id"@);
        assert(distinct_entries(entries));
        lemma_lookup_finds(entries, 0);
        lemma_lookup_finds(entries, 1);
        lemma_lookup_finds(entries, 2);
        lemma_lookup_finds(entries, 3);
        lemma_lookup_finds(entries, 4);
        lemma_writable_deeper(expected_observed_master_value@, 2, 7);
        assert(entries[0].1.writable(7));
        assert(entries[1].1.writable(7));
        assert(entries[2].1.writable(7));
        assert(entries[3].1.writable(7));
        assert(entries[4].1.writable(7));
        lemma_table_writable(entries, 7);
    }
    fields.build()
}

pub open spec fn update_entries(repository_id: RepositoryId, worktree_path: String, command_id: CommandId) -> Seq<
    (Seq<char>, Tree),
> {
    seq![
        ("command"@, Tree::Text("update"@)),
        ("repository_id"@, id_tree(repository_id.0)),
        ("worktree_path"@, Tree::Text(worktree_path@)),
        ("command_id"@, id_tree(command_id.0)),
    ]
}

fn write_update(repository_id: &RepositoryId, worktree_path: &String, command_id: &CommandId) -> (r: Document)
    ensures
        r@ == Tree::Table(update_entries(*repository_id, *worktree_path, *command_id)),
        r@.writable(8),
        command_reads(r@, (IpcCommand::Update { repository_id: *repository_id, worktree_path: *worktree_path, command_id: *command_id })),
{
    let mut fields = Fields::new();
    fields.put("command", Document::Text("update".to_owned()));
    let repository_id_value = id_document(repository_id.0);
    fields.put("repository_id", repository_id_value);
    let worktree_path_value = Document::Text(worktree_path.as_str().to_owned());
    fields.put("worktree_path", worktree_path_value);
    let command_id_value = id_document(command_id.0);
    fields.put("command_id", command_id_value);
    proof {
        let entries = fields@;
        assert(entries =~= update_entries(*repository_id, *worktree_path, *command_id));
        lemma_field_names();
        assert(entries[0].0 == "command"@);
        assert(entries[1].0 == "repository_id"@);
        assert(entries[2].0 == "worktree_path"@);
        assert(entries[3].0 == "command_id"@);
        assert(distinct_entries(entries));
        lemma_lookup_finds(entries, 0);
        lemma_lookup_finds(entries, 1);
        lemma_lookup_finds(entries, 2);
        lemma_lookup_finds(entries, 3);
        assert(entries[0].1.writable(7));
        assert(entries[1].1.writable(7));
        assert(entries[2].1.writable(7));
        assert(entries[3].1.writable(7));
        lemma_table_writable(entries, 7);
    }
    fields.build()
}

pub open spec fn worktree_create_entries(repository_id: RepositoryId, branch: String, destination: Option<String>, warm: bool, command_id: CommandId) -> Seq<
    (Seq<char>, Tree),
> {
    seq![
        ("command"@, Tree::Text("worktree-create"@)),
        ("repository_id"@, id_tree(repository_id.0)),
        ("branch"@, Tree::Text(branch@)),
        ("destination"@, optional_text_tree(match destination { Some(text) => Some(text@), None => None })),
        ("warm"@, Tree::Bool(warm)),
        ("command_id"@, id_tree(command_id.0)),
    ]
}

fn write_worktree_create(repository_id: &RepositoryId, branch: &String, destination: &Option<String>, warm: &bool, command_id: &CommandId) -> (r: Document)
    ensures
        r@ == Tree::Table(worktree_create_entries(*repository_id, *branch, *destination, *warm, *command_id)),
        r@.writable(8),
        command_reads(r@, (IpcCommand::WorktreeCreate { repository_id: *repository_id, branch: *branch, destination: *destination, warm: *warm, command_id: *command_id })),
{
    let mut fields = Fields::new();
    fields.put("command", Document::Text("worktree-create".to_owned()));
    let repository_id_value = id_document(repository_id.0);
    fields.put("repository_id", repository_id_value);
    let branch_value = Document::Text(branch.as_str().to_owned());
    fields.put("branch", branch_value);
    let destination_value = optional_text_document(destination);
    fields.put("destination", destination_value);
    let warm_value = Document::Bool(*warm);
    fields.put("warm", warm_value);
    let command_id_value = id_document(command_id.0);
    fields.put("command_id", command_id_value);
    proof {
        let entries = fields@;
        assert(entries =~= worktree_create_entries(*repository_id, *branch, *destination, *warm, *command_id));
        lemma_field_names();
        assert(entries[0].0 == "command"@);
        assert(entries[1].0 == "repository_id"@);
        assert(entries[2].0 == "branch"@);
        assert(entries[3].0 == "destination"@);
        assert(entries[4].0 == "warm"@);
        assert(entries[5].0 == "command_id"@);
        assert(distinct_entries(entries));
        lemma_lookup_finds(entries, 0);
        lemma_lookup_finds(entries, 1);
        lemma_lookup_finds(entries, 2);
        lemma_lookup_finds(entries, 3);
        lemma_lookup_finds(entries, 4);
        lemma_lookup_finds(entries, 5);
        assert(entries[0].1.writable(7));
        assert(entries[1].1.writable(7));
        assert(entries[2].1.writable(7));
        assert(entries[3].1.writable(7));
        assert(entries[4].1.writable(7));
        assert(entries[5].1.writable(7));
        lemma_table_writable(entries, 7);
    }
    fields.build()
}

pub open spec fn worktree_remove_entries(repository_id: RepositoryId, path: String, command_id: CommandId) -> Seq<
    (Seq<char>, Tree),
> {
    seq![
        ("command"@, Tree::Text("worktree-remove"@)),
        ("repository_id"@, id_tree(repository_id.0)),
        ("path"@, Tree::Text(path@)),
        ("command_id"@, id_tree(command_id.0)),
    ]
}

fn write_worktree_remove(repository_id: &RepositoryId, path: &String, command_id: &CommandId) -> (r: Document)
    ensures
        r@ == Tree::Table(worktree_remove_entries(*repository_id, *path, *command_id)),
        r@.writable(8),
        command_reads(r@, (IpcCommand::WorktreeRemove { repository_id: *repository_id, path: *path, command_id: *command_id })),
{
    let mut fields = Fields::new();
    fields.put("command", Document::Text("worktree-remove".to_owned()));
    let repository_id_value = id_document(repository_id.0);
    fields.put("repository_id", repository_id_value);
    let path_value = Document::Text(path.as_str().to_owned());
    fields.put("path", path_value);
    let command_id_value = id_document(command_id.0);
    fields.put("command_id", command_id_value);
    proof {
        let entries = fields@;
        assert(entries =~= worktree_remove_entries(*repository_id, *path, *command_id));
        lemma_field_names();
        assert(entries[0].0 == "command"@);
        assert(entries[1].0 == "repository_id"@);
        assert(entries[2].0 == "path"@);
        assert(entries[3].0 == "command_id"@);
        assert(distinct_entries(entries));
        lemma_lookup_finds(entries, 0);
        lemma_lookup_finds(entries, 1);
        lemma_lookup_finds(entries, 2);
        lemma_lookup_finds(entries, 3);
        assert(entries[0].1.writable(7));
        assert(entries[1].1.writable(7));
        assert(entries[2].1.writable(7));
        assert(entries[3].1.writable(7));
        lemma_table_writable(entries, 7);
    }
    fields.build()
}

pub open spec fn remove_repository_entries(repository_id: RepositoryId, command_id: CommandId) -> Seq<
    (Seq<char>, Tree),
> {
    seq![
        ("command"@, Tree::Text("remove-repository"@)),
        ("repository_id"@, id_tree(repository_id.0)),
        ("command_id"@, id_tree(command_id.0)),
    ]
}

fn write_remove_repository(repository_id: &RepositoryId, command_id: &CommandId) -> (r: Document)
    ensures
        r@ == Tree::Table(remove_repository_entries(*repository_id, *command_id)),
        r@.writable(8),
        command_reads(r@, (IpcCommand::RemoveRepository { repository_id: *repository_id, command_id: *command_id })),
{
    let mut fields = Fields::new();
    fields.put("command", Document::Text("remove-repository".to_owned()));
    let repository_id_value = id_document(repository_id.0);
    fields.put("repository_id", repository_id_value);
    let command_id_value = id_document(command_id.0);
    fields.put("command_id", command_id_value);
    proof {
        let entries = fields@;
        assert(entries =~= remove_repository_entries(*repository_id, *command_id));
        lemma_field_names();
        assert(entries[0].0 == "command"@);
        assert(entries[1].0 == "repository_id"@);
        assert(entries[2].0 == "command_id"@);
        assert(distinct_entries(entries));
        lemma_lookup_finds(entries, 0);
        lemma_lookup_finds(entries, 1);
        lemma_lookup_finds(entries, 2);
        assert(entries[0].1.writable(7));
        assert(entries[1].1.writable(7));
        assert(entries[2].1.writable(7));
        lemma_table_writable(entries, 7);
    }
    fields.build()
}

pub open spec fn apply_configuration_entries(repository_id: RepositoryId, command_id: CommandId) -> Seq<
    (Seq<char>, Tree),
> {
    seq![
        ("command"@, Tree::Text("apply-configuration"@)),
        ("repository_id"@, id_tree(repository_id.0)),
        ("command_id"@, id_tree(command_id.0)),
    ]
}

fn write_apply_configuration(repository_id: &RepositoryId, command_id: &CommandId) -> (r: Document)
    ensures
        r@ == Tree::Table(apply_configuration_entries(*repository_id, *command_id)),
        r@.writable(8),
        command_reads(r@, (IpcCommand::ApplyConfiguration { repository_id: *repository_id, command_id: *command_id })),
{
    let mut fields = Fields::new();
    fields.put("command", Document::Text("apply-configuration".to_owned()));
    let repository_id_value = id_document(repository_id.0);
    fields.put("repository_id", repository_id_value);
    let command_id_value = id_document(command_id.0);
    fields.put("command_id", command_id_value);
    proof {
        let entries = fields@;
        assert(entries =~= apply_configuration_entries(*repository_id, *command_id));
        lemma_field_names();
        assert(entries[0].0 == "command"@);
        assert(entries[1].0 == "repository_id"@);
        assert(entries[2].0 == "command_id"@);
        assert(distinct_entries(entries));
        lemma_lookup_finds(entries, 0);
        lemma_lookup_finds(entries, 1);
        lemma_lookup_finds(entries, 2);
        assert(entries[0].1.writable(7));
        assert(entries[1].1.writable(7));
        assert(entries[2].1.writable(7));
        lemma_table_writable(entries, 7);
    }
    fields.build()
}

pub open spec fn validate_configuration_entries(repository_id: RepositoryId) -> Seq<
    (Seq<char>, Tree),
> {
    seq![
        ("command"@, Tree::Text("validate-configuration"@)),
        ("repository_id"@, id_tree(repository_id.0)),
    ]
}

fn write_validate_configuration(repository_id: &RepositoryId) -> (r: Document)
    ensures
        r@ == Tree::Table(validate_configuration_entries(*repository_id)),
        r@.writable(8),
        command_reads(r@, (IpcCommand::ValidateConfiguration { repository_id: *repository_id })),
{
    let mut fields = Fields::new();
    fields.put("command", Document::Text("validate-configuration".to_owned()));
    let repository_id_value = id_document(repository_id.0);
    fields.put("repository_id", repository_id_value);
    proof {
        let entries = fields@;
        assert(entries =~= validate_configuration_entries(*repository_id));
        lemma_field_names();
        assert(entries[0].0 == "command"@);
        assert(entries[1].0 == "repository_id"@);
        assert(distinct_entries(entries));
        lemma_lookup_finds(entries, 0);
        lemma_lookup_finds(entries, 1);
        assert(entries[0].1.writable(7));
        assert(entries[1].1.writable(7));
        lemma_table_writable(entries, 7);
    }
    fields.build()
}

pub open spec fn regenerate_configuration_entries(repository_id: RepositoryId, command_id: CommandId) -> Seq<
    (Seq<char>, Tree),
> {
    seq![
        ("command"@, Tree::Text("regenerate-configuration"@)),
        ("repository_id"@, id_tree(repository_id.0)),
        ("command_id"@, id_tree(command_id.0)),
    ]
}

fn write_regenerate_configuration(repository_id: &RepositoryId, command_id: &CommandId) -> (r: Document)
    ensures
        r@ == Tree::Table(regenerate_configuration_entries(*repository_id, *command_id)),
        r@.writable(8),
        command_reads(r@, (IpcCommand::RegenerateConfiguration { repository_id: *repository_id, command_id: *command_id })),
{
    let mut fields = Fields::new();
    fields.put("command", Document::Text("regenerate-configuration".to_owned()));
    let repository_id_value = id_document(repository_id.0);
    fields.put("repository_id", repository_id_value);
    let command_id_value = id_document(command_id.0);
    fields.put("command_id", command_id_value);
    proof {
        let entries = fields@;
        assert(entries =~= regenerate_configuration_entries(*repository_id, *command_id));
        lemma_field_names();
        assert(entries[0].0 == "command"@);
        assert(entries[1].0 == "repository_id"@);
        assert(entries[2].0 == "command_id"@);
        assert(distinct_entries(entries));
        lemma_lookup_finds(entries, 0);
        lemma_lookup_finds(entries, 1);
        lemma_lookup_finds(entries, 2);
        assert(entries[0].1.writable(7));
        assert(entries[1].1.writable(7));
        assert(entries[2].1.writable(7));
        lemma_table_writable(entries, 7);
    }
    fields.build()
}

pub open spec fn reset_slot_entries(repository_id: RepositoryId, slot_id: SlotId, command_id: CommandId) -> Seq<
    (Seq<char>, Tree),
> {
    seq![
        ("command"@, Tree::Text("reset-slot"@)),
        ("repository_id"@, id_tree(repository_id.0)),
        ("slot_id"@, id_tree(slot_id.0)),
        ("command_id"@, id_tree(command_id.0)),
    ]
}

fn write_reset_slot(repository_id: &RepositoryId, slot_id: &SlotId, command_id: &CommandId) -> (r: Document)
    ensures
        r@ == Tree::Table(reset_slot_entries(*repository_id, *slot_id, *command_id)),
        r@.writable(8),
        command_reads(r@, (IpcCommand::ResetSlot { repository_id: *repository_id, slot_id: *slot_id, command_id: *command_id })),
{
    let mut fields = Fields::new();
    fields.put("command", Document::Text("reset-slot".to_owned()));
    let repository_id_value = id_document(repository_id.0);
    fields.put("repository_id", repository_id_value);
    let slot_id_value = id_document(slot_id.0);
    fields.put("slot_id", slot_id_value);
    let command_id_value = id_document(command_id.0);
    fields.put("command_id", command_id_value);
    proof {
        let entries = fields@;
        assert(entries =~= reset_slot_entries(*repository_id, *slot_id, *command_id));
        lemma_field_names();
        assert(entries[0].0 == "command"@);
        assert(entries[1].0 == "repository_id"@);
        assert(entries[2].0 == "slot_id"@);
        assert(entries[3].0 == "command_id"@);
        assert(distinct_entries(entries));
        lemma_lookup_finds(entries, 0);
        lemma_lookup_finds(entries, 1);
        lemma_lookup_finds(entries, 2);
        lemma_lookup_finds(entries, 3);
        assert(entries[0].1.writable(7));
        assert(entries[1].1.writable(7));
        assert(entries[2].1.writable(7));
        assert(entries[3].1.writable(7));
        lemma_table_writable(entries, 7);
    }
    fields.build()
}

pub open spec fn snapshot_cache_entries(repository_id: RepositoryId, command_id: CommandId) -> Seq<
    (Seq<char>, Tree),
> {
    seq![
        ("command"@, Tree::Text("snapshot-cache"@)),
        ("repository_id"@, id_tree(repository_id.0)),
        ("command_id"@, id_tree(command_id.0)),
    ]
}

fn write_snapshot_cache(repository_id: &RepositoryId, command_id: &CommandId) -> (r: Document)
    ensures
        r@ == Tree::Table(snapshot_cache_entries(*repository_id, *command_id)),
        r@.writable(8),
        command_reads(r@, (IpcCommand::SnapshotCache { repository_id: *repository_id, command_id: *command_id })),
{
    let mut fields = Fields::new();
    fields.put("command", Document::Text("snapshot-cache".to_owned()));
    let repository_id_value = id_document(repository_id.0);
    fields.put("repository_id", repository_id_value);
    let command_id_value = id_document(command_id.0);
    fields.put("command_id", command_id_value);
    proof {
        let entries = fields@;
        assert(entries =~= snapshot_cache_entries(*repository_id, *command_id));
        lemma_field_names();
        assert(entries[0].0 == "command"@);
        assert(entries[1].0 == "repository_id"@);
        assert(entries[2].0 == "command_id"@);
        assert(distinct_entries(entries));
        lemma_lookup_finds(entries, 0);
        lemma_lookup_finds(entries, 1);
        lemma_lookup_finds(entries, 2);
        assert(entries[0].1.writable(7));
        assert(entries[1].1.writable(7));
        assert(entries[2].1.writable(7));
        lemma_table_writable(entries, 7);
    }
    fields.build()
}

pub open spec fn purge_cache_entries(repository_id: RepositoryId, all_slots: bool, command_id: CommandId) -> Seq<
    (Seq<char>, Tree),
> {
    seq![
        ("command"@, Tree::Text("purge-cache"@)),
        ("repository_id"@, id_tree(repository_id.0)),
        ("all_slots"@, Tree::Bool(all_slots)),
        ("command_id"@, id_tree(command_id.0)),
    ]
}

fn write_purge_cache(repository_id: &RepositoryId, all_slots: &bool, command_id: &CommandId) -> (r: Document)
    ensures
        r@ == Tree::Table(purge_cache_entries(*repository_id, *all_slots, *command_id)),
        r@.writable(8),
        command_reads(r@, (IpcCommand::PurgeCache { repository_id: *repository_id, all_slots: *all_slots, command_id: *command_id })),
{
    let mut fields = Fields::new();
    fields.put("command", Document::Text("purge-cache".to_owned()));
    let repository_id_value = id_document(repository_id.0);
    fields.put("repository_id", repository_id_value);
    let all_slots_value = Document::Bool(*all_slots);
    fields.put("all_slots", all_slots_value);
    let command_id_value = id_document(command_id.0);
    fields.put("command_id", command_id_value);
    proof {
        let entries = fields@;
        assert(entries =~= purge_cache_entries(*repository_id, *all_slots, *command_id));
        lemma_field_names();
        assert(entries[0].0 == "command"@);
        assert(entries[1].0 == "repository_id"@);
        assert(entries[2].0 == "all_slots"@);
        assert(entries[3].0 == "command_id"@);
        assert(distinct_entries(entries));
        lemma_lookup_finds(entries, 0);
        lemma_lookup_finds(entries, 1);
        lemma_lookup_finds(entries, 2);
        lemma_lookup_finds(entries, 3);
        assert(entries[0].1.writable(7));
        assert(entries[1].1.writable(7));
        assert(entries[2].1.writable(7));
        assert(entries[3].1.writable(7));
        lemma_table_writable(entries, 7);
    }
    fields.build()
}

fn write_storage_status() -> (r: Document)
    ensures
        r@ == Tree::Table(seq![("command"@, Tree::Text("storage-status"@))]),
        r@.writable(8),
        command_reads(r@, IpcCommand::StorageStatus),
{
    let mut fields = Fields::new();
    fields.put("command", Document::Text("storage-status".to_owned()));
    proof {
        let entries = fields@;
        assert(entries =~= seq![("command"@, Tree::Text("storage-status"@))]);
        lemma_field_names();
        assert(entries[0].0 == "command"@);
        assert(distinct_entries(entries));
        lemma_lookup_finds(entries, 0);
        assert(entries[0].1.writable(7));
        lemma_table_writable(entries, 7);
    }
    fields.build()
}

pub open spec fn storage_prune_entries(force: bool, command_id: CommandId) -> Seq<
    (Seq<char>, Tree),
> {
    seq![
        ("command"@, Tree::Text("storage-prune"@)),
        ("force"@, Tree::Bool(force)),
        ("command_id"@, id_tree(command_id.0)),
    ]
}

fn write_storage_prune(force: &bool, command_id: &CommandId) -> (r: Document)
    ensures
        r@ == Tree::Table(storage_prune_entries(*force, *command_id)),
        r@.writable(8),
        command_reads(r@, (IpcCommand::StoragePrune { force: *force, command_id: *command_id })),
{
    let mut fields = Fields::new();
    fields.put("command", Document::Text("storage-prune".to_owned()));
    let force_value = Document::Bool(*force);
    fields.put("force", force_value);
    let command_id_value = id_document(command_id.0);
    fields.put("command_id", command_id_value);
    proof {
        let entries = fields@;
        assert(entries =~= storage_prune_entries(*force, *command_id));
        lemma_field_names();
        assert(entries[0].0 == "command"@);
        assert(entries[1].0 == "force"@);
        assert(entries[2].0 == "command_id"@);
        assert(distinct_entries(entries));
        lemma_lookup_finds(entries, 0);
        lemma_lookup_finds(entries, 1);
        lemma_lookup_finds(entries, 2);
        assert(entries[0].1.writable(7));
        assert(entries[1].1.writable(7));
        assert(entries[2].1.writable(7));
        lemma_table_writable(entries, 7);
    }
    fields.build()
}

pub open spec fn artifact_pin_entries(repository_id: RepositoryId, artifact_id: String, pinned: bool, command_id: CommandId) -> Seq<
    (Seq<char>, Tree),
> {
    seq![
        ("command"@, Tree::Text("artifact-pin"@)),
        ("repository_id"@, id_tree(repository_id.0)),
        ("artifact_id"@, Tree::Text(artifact_id@)),
        ("pinned"@, Tree::Bool(pinned)),
        ("command_id"@, id_tree(command_id.0)),
    ]
}

fn write_artifact_pin(repository_id: &RepositoryId, artifact_id: &String, pinned: &bool, command_id: &CommandId) -> (r: Document)
    ensures
        r@ == Tree::Table(artifact_pin_entries(*repository_id, *artifact_id, *pinned, *command_id)),
        r@.writable(8),
        command_reads(r@, (IpcCommand::ArtifactPin { repository_id: *repository_id, artifact_id: *artifact_id, pinned: *pinned, command_id: *command_id })),
{
    let mut fields = Fields::new();
    fields.put("command", Document::Text("artifact-pin".to_owned()));
    let repository_id_value = id_document(repository_id.0);
    fields.put("repository_id", repository_id_value);
    let artifact_id_value = Document::Text(artifact_id.as_str().to_owned());
    fields.put("artifact_id", artifact_id_value);
    let pinned_value = Document::Bool(*pinned);
    fields.put("pinned", pinned_value);
    let command_id_value = id_document(command_id.0);
    fields.put("command_id", command_id_value);
    proof {
        let entries = fields@;
        assert(entries =~= artifact_pin_entries(*repository_id, *artifact_id, *pinned, *command_id));
        lemma_field_names();
        assert(entries[0].0 == "command"@);
        assert(entries[1].0 == "repository_id"@);
        assert(entries[2].0 == "artifact_id"@);
        assert(entries[3].0 == "pinned"@);
        assert(entries[4].0 == "command_id"@);
        assert(distinct_entries(entries));
        lemma_lookup_finds(entries, 0);
        lemma_lookup_finds(entries, 1);
        lemma_lookup_finds(entries, 2);
        lemma_lookup_finds(entries, 3);
        lemma_lookup_finds(entries, 4);
        assert(entries[0].1.writable(7));
        assert(entries[1].1.writable(7));
        assert(entries[2].1.writable(7));
        assert(entries[3].1.writable(7));
        assert(entries[4].1.writable(7));
        lemma_table_writable(entries, 7);
    }
    fields.build()
}

pub open spec fn artifact_prune_entries(repository_id: RepositoryId, artifact_id: String, command_id: CommandId) -> Seq<
    (Seq<char>, Tree),
> {
    seq![
        ("command"@, Tree::Text("artifact-prune"@)),
        ("repository_id"@, id_tree(repository_id.0)),
        ("artifact_id"@, Tree::Text(artifact_id@)),
        ("command_id"@, id_tree(command_id.0)),
    ]
}

fn write_artifact_prune(repository_id: &RepositoryId, artifact_id: &String, command_id: &CommandId) -> (r: Document)
    ensures
        r@ == Tree::Table(artifact_prune_entries(*repository_id, *artifact_id, *command_id)),
        r@.writable(8),
        command_reads(r@, (IpcCommand::ArtifactPrune { repository_id: *repository_id, artifact_id: *artifact_id, command_id: *command_id })),
{
    let mut fields = Fields::new();
    fields.put("command", Document::Text("artifact-prune".to_owned()));
    let repository_id_value = id_document(repository_id.0);
    fields.put("repository_id", repository_id_value);
    let artifact_id_value = Document::Text(artifact_id.as_str().to_owned());
    fields.put("artifact_id", artifact_id_value);
    let command_id_value = id_document(command_id.0);
    fields.put("command_id", command_id_value);
    proof {
        let entries = fields@;
        assert(entries =~= artifact_prune_entries(*repository_id, *artifact_id, *command_id));
        lemma_field_names();
        assert(entries[0].0 == "command"@);
        assert(entries[1].0 == "repository_id"@);
        assert(entries[2].0 == "artifact_id"@);
        assert(entries[3].0 == "command_id"@);
        assert(distinct_entries(entries));
        lemma_lookup_finds(entries, 0);
        lemma_lookup_finds(entries, 1);
        lemma_lookup_finds(entries, 2);
        lemma_lookup_finds(entries, 3);
        assert(entries[0].1.writable(7));
        assert(entries[1].1.writable(7));
        assert(entries[2].1.writable(7));
        assert(entries[3].1.writable(7));
        lemma_table_writable(entries, 7);
    }
    fields.build()
}

pub open spec fn logs_entries(repository_id: RepositoryId, item_id: QueueItemId, buildset_id: Option<BuildsetId>, step: Option<String>, start_sequence: u64) -> Seq<
    (Seq<char>, Tree),
> {
    seq![
        ("command"@, Tree::Text("logs"@)),
        ("repository_id"@, id_tree(repository_id.0)),
        ("item_id"@, id_tree(item_id.0)),
        ("buildset_id"@, optional_id_tree(match buildset_id { Some(id) => Some(id.0), None => None })),
        ("step"@, optional_text_tree(match step { Some(text) => Some(text@), None => None })),
        ("start_sequence"@, Tree::Integer(start_sequence as int)),
    ]
}

fn write_logs(repository_id: &RepositoryId, item_id: &QueueItemId, buildset_id: &Option<BuildsetId>, step: &Option<String>, start_sequence: &u64) -> (r: Document)
    ensures
        r@ == Tree::Table(logs_entries(*repository_id, *item_id, *buildset_id, *step, *start_sequence)),
        r@.writable(8),
        command_reads(r@, (IpcCommand::Logs { repository_id: *repository_id, item_id: *item_id, buildset_id: *buildset_id, step: *step, start_sequence: *start_sequence })),
{
    let mut fields = Fields::new();
    fields.put("command", Document::Text("logs".to_owned()));
    let repository_id_value = id_document(repository_id.0);
    fields.put("repository_id", repository_id_value);
    let item_id_value = id_document(item_id.0);
    fields.put("item_id", item_id_value);
    let buildset_id_value = optional_id_document(match buildset_id { Some(id) => Some(id.0), None => None });
    fields.put("buildset_id", buildset_id_value);
    let step_value = optional_text_document(step);
    fields.put("step", step_value);
    let start_sequence_value = Document::Integer(*start_sequence as i128);
    fields.put("start_sequence", start_sequence_value);
    proof {
        let entries = fields@;
        assert(entries =~= logs_entries(*repository_id, *item_id, *buildset_id, *step, *start_sequence));
        lemma_field_names();
        assert(entries[0].0 == "command"@);
        assert(entries[1].0 == "repository_id"@);
        assert(entries[2].0 == "item_id"@);
        assert(entries[3].0 == "buildset_id"@);
        assert(entries[4].0 == "step"@);
        assert(entries[5].0 == "start_sequence"@);
        assert(distinct_entries(entries));
        lemma_lookup_finds(entries, 0);
        lemma_lookup_finds(entries, 1);
        lemma_lookup_finds(entries, 2);
        lemma_lookup_finds(entries, 3);
        lemma_lookup_finds(entries, 4);
        lemma_lookup_finds(entries, 5);
        assert(entries[0].1.writable(7));
        assert(entries[1].1.writable(7));
        assert(entries[2].1.writable(7));
        assert(entries[3].1.writable(7));
        assert(entries[4].1.writable(7));
        assert(entries[5].1.writable(7));
        lemma_table_writable(entries, 7);
    }
    fields.build()
}

pub open spec fn doctor_entries(repository_id: RepositoryId) -> Seq<
    (Seq<char>, Tree),
> {
    seq![
        ("command"@, Tree::Text("doctor"@)),
        ("repository_id"@, id_tree(repository_id.0)),
    ]
}

fn write_doctor(repository_id: &RepositoryId) -> (r: Document)
    ensures
        r@ == Tree::Table(doctor_entries(*repository_id)),
        r@.writable(8),
        command_reads(r@, (IpcCommand::Doctor { repository_id: *repository_id })),
{
    let mut fields = Fields::new();
    fields.put("command", Document::Text("doctor".to_owned()));
    let repository_id_value = id_document(repository_id.0);
    fields.put("repository_id", repository_id_value);
    proof {
        let entries = fields@;
        assert(entries =~= doctor_entries(*repository_id));
        lemma_field_names();
        assert(entries[0].0 == "command"@);
        assert(entries[1].0 == "repository_id"@);
        assert(distinct_entries(entries));
        lemma_lookup_finds(entries, 0);
        lemma_lookup_finds(entries, 1);
        assert(entries[0].1.writable(7));
        assert(entries[1].1.writable(7));
        lemma_table_writable(entries, 7);
    }
    fields.build()
}

pub open spec fn pause_entries(repository_id: RepositoryId, command_id: CommandId) -> Seq<
    (Seq<char>, Tree),
> {
    seq![
        ("command"@, Tree::Text("pause"@)),
        ("repository_id"@, id_tree(repository_id.0)),
        ("command_id"@, id_tree(command_id.0)),
    ]
}

fn write_pause(repository_id: &RepositoryId, command_id: &CommandId) -> (r: Document)
    ensures
        r@ == Tree::Table(pause_entries(*repository_id, *command_id)),
        r@.writable(8),
        command_reads(r@, (IpcCommand::Pause { repository_id: *repository_id, command_id: *command_id })),
{
    let mut fields = Fields::new();
    fields.put("command", Document::Text("pause".to_owned()));
    let repository_id_value = id_document(repository_id.0);
    fields.put("repository_id", repository_id_value);
    let command_id_value = id_document(command_id.0);
    fields.put("command_id", command_id_value);
    proof {
        let entries = fields@;
        assert(entries =~= pause_entries(*repository_id, *command_id));
        lemma_field_names();
        assert(entries[0].0 == "command"@);
        assert(entries[1].0 == "repository_id"@);
        assert(entries[2].0 == "command_id"@);
        assert(distinct_entries(entries));
        lemma_lookup_finds(entries, 0);
        lemma_lookup_finds(entries, 1);
        lemma_lookup_finds(entries, 2);
        assert(entries[0].1.writable(7));
        assert(entries[1].1.writable(7));
        assert(entries[2].1.writable(7));
        lemma_table_writable(entries, 7);
    }
    fields.build()
}

pub open spec fn resume_entries(repository_id: RepositoryId, command_id: CommandId) -> Seq<
    (Seq<char>, Tree),
> {
    seq![
        ("command"@, Tree::Text("resume"@)),
        ("repository_id"@, id_tree(repository_id.0)),
        ("command_id"@, id_tree(command_id.0)),
    ]
}

fn write_resume(repository_id: &RepositoryId, command_id: &CommandId) -> (r: Document)
    ensures
        r@ == Tree::Table(resume_entries(*repository_id, *command_id)),
        r@.writable(8),
        command_reads(r@, (IpcCommand::Resume { repository_id: *repository_id, command_id: *command_id })),
{
    let mut fields = Fields::new();
    fields.put("command", Document::Text("resume".to_owned()));
    let repository_id_value = id_document(repository_id.0);
    fields.put("repository_id", repository_id_value);
    let command_id_value = id_document(command_id.0);
    fields.put("command_id", command_id_value);
    proof {
        let entries = fields@;
        assert(entries =~= resume_entries(*repository_id, *command_id));
        lemma_field_names();
        assert(entries[0].0 == "command"@);
        assert(entries[1].0 == "repository_id"@);
        assert(entries[2].0 == "command_id"@);
        assert(distinct_entries(entries));
        lemma_lookup_finds(entries, 0);
        lemma_lookup_finds(entries, 1);
        lemma_lookup_finds(entries, 2);
        assert(entries[0].1.writable(7));
        assert(entries[1].1.writable(7));
        assert(entries[2].1.writable(7));
        lemma_table_writable(entries, 7);
    }
    fields.build()
}

pub open spec fn reload_environment_entries(command_id: CommandId) -> Seq<
    (Seq<char>, Tree),
> {
    seq![
        ("command"@, Tree::Text("reload-environment"@)),
        ("command_id"@, id_tree(command_id.0)),
    ]
}

fn write_reload_environment(command_id: &CommandId) -> (r: Document)
    ensures
        r@ == Tree::Table(reload_environment_entries(*command_id)),
        r@.writable(8),
        command_reads(r@, (IpcCommand::ReloadEnvironment { command_id: *command_id })),
{
    let mut fields = Fields::new();
    fields.put("command", Document::Text("reload-environment".to_owned()));
    let command_id_value = id_document(command_id.0);
    fields.put("command_id", command_id_value);
    proof {
        let entries = fields@;
        assert(entries =~= reload_environment_entries(*command_id));
        lemma_field_names();
        assert(entries[0].0 == "command"@);
        assert(entries[1].0 == "command_id"@);
        assert(distinct_entries(entries));
        lemma_lookup_finds(entries, 0);
        lemma_lookup_finds(entries, 1);
        assert(entries[0].1.writable(7));
        assert(entries[1].1.writable(7));
        lemma_table_writable(entries, 7);
    }
    fields.build()
}

} // verus!
