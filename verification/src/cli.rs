//! The command line: what is asked of the app, and how the program ends.

use crate::document::Document;
use crate::ids::{BuildsetId, CommandId, QueueItemId, RepositoryId, SlotId};
use crate::ipc_command::IpcCommand;
#[allow(unused_imports)]
use crate::outside::{uuid_text, uuid_value};
use crate::paths::absolute;
#[allow(unused_imports)]
use crate::paths::is_absolute;
use crate::scan::{contains_str, starts_with};
#[allow(unused_imports)]
use crate::scan::{begins_with, contains_part};
use crate::state::{CleanupState, QueueItemState, RemoteState};
use crate::text::{concat3, decimal_string, str_equal};
#[allow(unused_imports)]
use crate::text::decimal;
use vstd::prelude::*;

verus! {

/// What the user has typed, with paths in canonical form.
#[derive(Clone, Debug, PartialEq, Eq)]
#[allow(inconsistent_fields)]
pub enum CliCommand {
    Init { path: String, run: Option<String>, no_bootstrap: bool, detach_master: bool },
    RepoAdd { path: String, detach_master: bool },
    RepoRemove { id: RepositoryId },
    RepoList,
    Candidate { revision: String, wait: bool, retain_worktree: bool },
    Approve { revision: String, wait: bool },
    Check { revision: String, wait: bool },
    Queue,
    /// `json` and `repository` are what the user has chosen for the whole line.
    Status { id: Option<QueueItemId>, json: bool, repository: Option<RepositoryId> },
    Wait { id: QueueItemId },
    Logs { id: QueueItemId, buildset: Option<BuildsetId>, step: Option<String>, follow: bool },
    Diagnose { id: QueueItemId, replay: bool, verify_repair: bool },
    Cancel { id: QueueItemId },
    Retry { id: QueueItemId, cold: bool },
    Promote { ids: Vec<QueueItemId> },
    Pause,
    Resume,
    Pull,
    Push,
    Reconcile,
    Update,
    WorktreeCreate { name: String },
    WorktreeRemove { path: String },
    EnvReload,
    EnvShow,
    ConfigValidate,
    ConfigExplain,
    ConfigRegenerate,
    ConfigApply,
    SlotList,
    SlotReset { id: String },
    CacheStatus,
    CacheSnapshot,
    CachePurge { all_slots: bool },
    ArtifactList,
    ArtifactPin { id: String },
    ArtifactUnpin { id: String },
    ArtifactPrune { id: String },
    History,
    Doctor,
}

/// The repository that a command is about.
#[derive(Clone, Copy, Debug, PartialEq, Eq, Structural)]
pub struct SelectedRepository {
    pub id: RepositoryId,
    pub queue_revision: u64,
}

/// What is done for a command.
#[derive(Clone, Debug, PartialEq, Eq)]
pub enum CliPlan {
    /// The app is asked, and the answer shown.
    Request(IpcCommand),
    /// What is known of the repository is shown.
    Show,
    /// The name of the slot is none.
    BadSlot,
}

impl CliCommand {
    /// The command is about one repository. The status of one item is read by itself in
    /// JSON.
    pub open spec fn about_repository(self) -> bool {
        match self {
            CliCommand::Init { .. } | CliCommand::RepoAdd { .. } | CliCommand::RepoRemove { .. } | CliCommand::RepoList | CliCommand::EnvReload | CliCommand::EnvShow => false,
            CliCommand::Status { id, json, .. } => !(json && id is Some),
            _ => true,
        }
    }

    /// Whether the command is about one repository, which is to be selected first.
    pub fn needs_repository(&self) -> (r: bool)
        ensures
            r == self.about_repository(),
    {
        match self {
            CliCommand::Init { .. } => false,
            CliCommand::RepoAdd { .. } => false,
            CliCommand::RepoRemove { .. } => false,
            CliCommand::RepoList => false,
            CliCommand::EnvReload => false,
            CliCommand::EnvShow => false,
            CliCommand::Status { id, json, .. } => !(*json && id.is_some()),
            _ => true,
        }
    }
}

/// What is done for a command. `selected` counts only for commands that are about one
/// repository.
pub open spec fn plan_of(
    command: CliCommand,
    selected: SelectedRepository,
    directory: String,
    command_id: CommandId,
) -> CliPlan {
    let repository_id = selected.id;
    let expected_revision = selected.queue_revision;
    match command {
        CliCommand::Init { path, run, no_bootstrap, detach_master } => CliPlan::Request(
            IpcCommand::Initialize { path, run, bootstrap: !no_bootstrap, detach_master },
        ),
        CliCommand::RepoAdd { path, detach_master } => CliPlan::Request(
            IpcCommand::Initialize { path, run: None, bootstrap: true, detach_master },
        ),
        CliCommand::RepoRemove { id } => CliPlan::Request(
            IpcCommand::RemoveRepository { repository_id: id, command_id },
        ),
        CliCommand::RepoList => CliPlan::Request(
            IpcCommand::Snapshot,
        ),
        CliCommand::Candidate { revision, wait: _, retain_worktree } => CliPlan::Request(
            IpcCommand::Candidate { repository_id, revision, worktree_path: Some(directory), retain_worktree, command_id },
        ),
        CliCommand::Approve { revision, wait: _ } => match uuid_value(revision@) {
            Some(id) => CliPlan::Request(
                IpcCommand::AuthorizeCandidate {
                    repository_id,
                    item_id: QueueItemId(id),
                    expected_revision,
                    command_id,
                },
            ),
            None => CliPlan::Request(
                IpcCommand::Approve {
                    repository_id,
                    revision,
                    worktree_path: Some(directory),
                    purpose: None,
                    retain_worktree: false,
                    command_id,
                },
            ),
        },
        CliCommand::Check { revision, wait: _ } => CliPlan::Request(
            IpcCommand::Check { repository_id, revision, worktree_path: Some(directory), command_id },
        ),
        CliCommand::Queue => CliPlan::Show,
        CliCommand::Status { id, json, repository } => if json && id is Some {
            CliPlan::Request(IpcCommand::ItemDetails { repository_id: repository, item_id: id->0 })
        } else {
            CliPlan::Show
        },
        CliCommand::Wait { id: _ } => CliPlan::Show,
        CliCommand::Logs { id, buildset, step, follow: _ } => CliPlan::Request(
            IpcCommand::Logs { repository_id, item_id: id, buildset_id: buildset, step, start_sequence: 0 },
        ),
        CliCommand::Diagnose { id, replay, verify_repair } => CliPlan::Request(
            IpcCommand::Diagnose { repository_id, item_id: id, replay, verify_repair, command_id },
        ),
        CliCommand::Cancel { id } => CliPlan::Request(
            IpcCommand::Cancel { repository_id, item_id: id, expected_revision, command_id },
        ),
        CliCommand::Retry { id, cold } => CliPlan::Request(
            IpcCommand::Retry { repository_id, item_id: id, cold, command_id },
        ),
        CliCommand::Promote { ids } => CliPlan::Request(
            IpcCommand::Reorder { repository_id, selected_ids: ids, expected_revision, command_id },
        ),
        CliCommand::Pause => CliPlan::Request(
            IpcCommand::Pause { repository_id, command_id },
        ),
        CliCommand::Resume => CliPlan::Request(
            IpcCommand::Resume { repository_id, command_id },
        ),
        CliCommand::Pull => CliPlan::Request(
            IpcCommand::Pull { repository_id, command_id },
        ),
        CliCommand::Push => CliPlan::Request(
            IpcCommand::Push { repository_id, command_id },
        ),
        CliCommand::Reconcile => CliPlan::Request(
            IpcCommand::Reconcile { repository_id, expected_observed_master: None, expected_queue_revision: None, command_id },
        ),
        CliCommand::Update => CliPlan::Request(
            IpcCommand::Update { repository_id, worktree_path: directory, command_id },
        ),
        CliCommand::WorktreeCreate { name } => CliPlan::Request(
            IpcCommand::WorktreeCreate { repository_id, branch: name, destination: None, warm: false, command_id },
        ),
        CliCommand::WorktreeRemove { path } => CliPlan::Request(
            IpcCommand::WorktreeRemove { repository_id, path, command_id },
        ),
        CliCommand::EnvReload => CliPlan::Request(
            IpcCommand::ReloadEnvironment { command_id },
        ),
        CliCommand::EnvShow => CliPlan::Request(
            IpcCommand::Snapshot,
        ),
        CliCommand::ConfigValidate => CliPlan::Request(
            IpcCommand::ValidateConfiguration { repository_id },
        ),
        CliCommand::ConfigExplain => CliPlan::Request(
            IpcCommand::ValidateConfiguration { repository_id },
        ),
        CliCommand::ConfigRegenerate => CliPlan::Request(
            IpcCommand::RegenerateConfiguration { repository_id, command_id },
        ),
        CliCommand::ConfigApply => CliPlan::Request(
            IpcCommand::ApplyConfiguration { repository_id, command_id },
        ),
        CliCommand::SlotList => CliPlan::Show,
        CliCommand::SlotReset { id } => match uuid_value(id@) {
            Some(value) => CliPlan::Request(
                IpcCommand::ResetSlot { repository_id, slot_id: SlotId(value), command_id },
            ),
            None => CliPlan::BadSlot,
        },
        CliCommand::CacheStatus => CliPlan::Show,
        CliCommand::CacheSnapshot => CliPlan::Request(
            IpcCommand::SnapshotCache { repository_id, command_id },
        ),
        CliCommand::CachePurge { all_slots } => CliPlan::Request(
            IpcCommand::PurgeCache { repository_id, all_slots, command_id },
        ),
        CliCommand::ArtifactList => CliPlan::Show,
        CliCommand::ArtifactPin { id } => CliPlan::Request(
            IpcCommand::ArtifactPin { repository_id, artifact_id: id, pinned: true, command_id },
        ),
        CliCommand::ArtifactUnpin { id } => CliPlan::Request(
            IpcCommand::ArtifactPin { repository_id, artifact_id: id, pinned: false, command_id },
        ),
        CliCommand::ArtifactPrune { id } => CliPlan::Request(
            IpcCommand::ArtifactPrune { repository_id, artifact_id: id, command_id },
        ),
        CliCommand::History => CliPlan::Show,
        CliCommand::Doctor => CliPlan::Request(
            IpcCommand::Doctor { repository_id },
        ),
    }
}

/// Decides what is done for a command that the user typed in a directory.
pub fn plan(
    command: CliCommand,
    selected: SelectedRepository,
    directory: String,
    command_id: CommandId,
) -> (r: CliPlan)
    ensures
        r == plan_of(command, selected, directory, command_id),
{
    let repository_id = selected.id;
    let expected_revision: u64 = selected.queue_revision;
    match command {
        CliCommand::Init { path, run, no_bootstrap, detach_master } => CliPlan::Request(
            IpcCommand::Initialize { path, run, bootstrap: !no_bootstrap, detach_master },
        ),
        CliCommand::RepoAdd { path, detach_master } => CliPlan::Request(
            IpcCommand::Initialize { path, run: None, bootstrap: true, detach_master },
        ),
        CliCommand::RepoRemove { id } => CliPlan::Request(
            IpcCommand::RemoveRepository { repository_id: id, command_id },
        ),
        CliCommand::RepoList => CliPlan::Request(
            IpcCommand::Snapshot,
        ),
        CliCommand::Candidate { revision, wait: _, retain_worktree } => CliPlan::Request(
            IpcCommand::Candidate { repository_id, revision, worktree_path: Some(directory), retain_worktree, command_id },
        ),
        CliCommand::Approve { revision, wait: _ } => match QueueItemId::parse(revision.as_str()) {
            Some(item_id) => CliPlan::Request(
                IpcCommand::AuthorizeCandidate {
                    repository_id,
                    item_id,
                    expected_revision,
                    command_id,
                },
            ),
            None => CliPlan::Request(
                IpcCommand::Approve {
                    repository_id,
                    revision,
                    worktree_path: Some(directory),
                    purpose: None,
                    retain_worktree: false,
                    command_id,
                },
            ),
        },
        CliCommand::Check { revision, wait: _ } => CliPlan::Request(
            IpcCommand::Check { repository_id, revision, worktree_path: Some(directory), command_id },
        ),
        CliCommand::Queue => CliPlan::Show,
        CliCommand::Status { id, json, repository } => match id {
            Some(item_id) if json => CliPlan::Request(
                IpcCommand::ItemDetails { repository_id: repository, item_id },
            ),
            _ => CliPlan::Show,
        },
        CliCommand::Wait { id: _ } => CliPlan::Show,
        CliCommand::Logs { id, buildset, step, follow: _ } => CliPlan::Request(
            IpcCommand::Logs { repository_id, item_id: id, buildset_id: buildset, step, start_sequence: 0 },
        ),
        CliCommand::Diagnose { id, replay, verify_repair } => CliPlan::Request(
            IpcCommand::Diagnose { repository_id, item_id: id, replay, verify_repair, command_id },
        ),
        CliCommand::Cancel { id } => CliPlan::Request(
            IpcCommand::Cancel { repository_id, item_id: id, expected_revision, command_id },
        ),
        CliCommand::Retry { id, cold } => CliPlan::Request(
            IpcCommand::Retry { repository_id, item_id: id, cold, command_id },
        ),
        CliCommand::Promote { ids } => CliPlan::Request(
            IpcCommand::Reorder { repository_id, selected_ids: ids, expected_revision, command_id },
        ),
        CliCommand::Pause => CliPlan::Request(
            IpcCommand::Pause { repository_id, command_id },
        ),
        CliCommand::Resume => CliPlan::Request(
            IpcCommand::Resume { repository_id, command_id },
        ),
        CliCommand::Pull => CliPlan::Request(
            IpcCommand::Pull { repository_id, command_id },
        ),
        CliCommand::Push => CliPlan::Request(
            IpcCommand::Push { repository_id, command_id },
        ),
        CliCommand::Reconcile => CliPlan::Request(
            IpcCommand::Reconcile { repository_id, expected_observed_master: None, expected_queue_revision: None, command_id },
        ),
        CliCommand::Update => CliPlan::Request(
            IpcCommand::Update { repository_id, worktree_path: directory, command_id },
        ),
        CliCommand::WorktreeCreate { name } => CliPlan::Request(
            IpcCommand::WorktreeCreate { repository_id, branch: name, destination: None, warm: false, command_id },
        ),
        CliCommand::WorktreeRemove { path } => CliPlan::Request(
            IpcCommand::WorktreeRemove { repository_id, path, command_id },
        ),
        CliCommand::EnvReload => CliPlan::Request(
            IpcCommand::ReloadEnvironment { command_id },
        ),
        CliCommand::EnvShow => CliPlan::Request(
            IpcCommand::Snapshot,
        ),
        CliCommand::ConfigValidate => CliPlan::Request(
            IpcCommand::ValidateConfiguration { repository_id },
        ),
        CliCommand::ConfigExplain => CliPlan::Request(
            IpcCommand::ValidateConfiguration { repository_id },
        ),
        CliCommand::ConfigRegenerate => CliPlan::Request(
            IpcCommand::RegenerateConfiguration { repository_id, command_id },
        ),
        CliCommand::ConfigApply => CliPlan::Request(
            IpcCommand::ApplyConfiguration { repository_id, command_id },
        ),
        CliCommand::SlotList => CliPlan::Show,
        CliCommand::SlotReset { id } => match SlotId::parse(id.as_str()) {
            Some(value) => CliPlan::Request(
                IpcCommand::ResetSlot { repository_id, slot_id: value, command_id },
            ),
            None => CliPlan::BadSlot,
        },
        CliCommand::CacheStatus => CliPlan::Show,
        CliCommand::CacheSnapshot => CliPlan::Request(
            IpcCommand::SnapshotCache { repository_id, command_id },
        ),
        CliCommand::CachePurge { all_slots } => CliPlan::Request(
            IpcCommand::PurgeCache { repository_id, all_slots, command_id },
        ),
        CliCommand::ArtifactList => CliPlan::Show,
        CliCommand::ArtifactPin { id } => CliPlan::Request(
            IpcCommand::ArtifactPin { repository_id, artifact_id: id, pinned: true, command_id },
        ),
        CliCommand::ArtifactUnpin { id } => CliPlan::Request(
            IpcCommand::ArtifactPin { repository_id, artifact_id: id, pinned: false, command_id },
        ),
        CliCommand::ArtifactPrune { id } => CliPlan::Request(
            IpcCommand::ArtifactPrune { repository_id, artifact_id: id, command_id },
        ),
        CliCommand::History => CliPlan::Show,
        CliCommand::Doctor => CliPlan::Request(
            IpcCommand::Doctor { repository_id },
        ),
    }
}

/// A repository that can be selected.
#[derive(Clone, Debug, PartialEq, Eq)]
pub struct RepositoryKey {
    pub id: RepositoryId,
    pub path: String,
}

/// One path lies at or below another; both are canonical.
pub open spec fn at_or_below(path: Seq<char>, directory: Seq<char>) -> bool {
    ||| path == directory
    ||| begins_with(path, directory + "/"@)
    ||| directory == "/"@ && is_absolute(path)
}

fn is_at_or_below(path: &str, directory: &str) -> (r: bool)
    ensures
        r == at_or_below(path@, directory@),
{
    if str_equal(path, directory) {
        return true;
    }
    if starts_with(path, directory.to_owned().concat("/").as_str()) {
        return true;
    }
    str_equal(directory, "/") && absolute(path)
}

/// The first repository with an identifier.
pub open spec fn first_with_id(repositories: Seq<RepositoryKey>, id: RepositoryId, i: int) -> bool {
    &&& 0 <= i < repositories.len()
    &&& repositories[i].id == id
    &&& forall|j: int| 0 <= j < i ==> (#[trigger] repositories[j]).id != id
}

/// The first repository that the current directory lies in.
pub open spec fn first_around(
    repositories: Seq<RepositoryKey>,
    current: Seq<char>,
    i: int,
) -> bool {
    &&& 0 <= i < repositories.len()
    &&& at_or_below(current, repositories[i].path@)
    &&& forall|j: int|
        0 <= j < i ==> !at_or_below(current, (#[trigger] repositories[j]).path@)
}

/// The position of the repository that a command is about, if there is one.
pub open spec fn selects(
    repositories: Seq<RepositoryKey>,
    selected: Option<RepositoryId>,
    current: Option<Seq<char>>,
    i: int,
) -> bool {
    match selected {
        Some(id) => first_with_id(repositories, id, i),
        None => if repositories.len() == 1 {
            i == 0
        } else {
            current is Some && first_around(repositories, current->0, i)
        },
    }
}

/// What is said if no repository can be selected.
pub open spec fn selection_text(repositories: nat, selected: Option<RepositoryId>) -> Seq<char> {
    match selected {
        Some(id) => "repository "@ + uuid_text(id.0) + " is not registered"@,
        None => "select a repository with --repository <ID> ("@ + decimal(repositories)
            + " registered)"@,
    }
}

fn find_repository(repositories: &Vec<RepositoryKey>, id: RepositoryId) -> (r: Option<usize>)
    ensures
        match r {
            Some(i) => first_with_id(repositories@, id, i as int),
            None => forall|i: int| !first_with_id(repositories@, id, i),
        },
{
    let mut i: usize = 0;
    while i < repositories.len()
        invariant
            i <= repositories@.len(),
            forall|j: int| 0 <= j < i ==> (#[trigger] repositories@[j]).id != id,
        decreases repositories@.len() - i,
    {
        if repositories[i].id.0 == id.0 {
            return Some(i);
        }
        i += 1;
    }
    None
}

fn find_around(repositories: &Vec<RepositoryKey>, current: &str) -> (r: Option<usize>)
    ensures
        match r {
            Some(i) => first_around(repositories@, current@, i as int),
            None => forall|i: int| !first_around(repositories@, current@, i),
        },
{
    let mut i: usize = 0;
    while i < repositories.len()
        invariant
            i <= repositories@.len(),
            forall|j: int|
                0 <= j < i ==> !at_or_below(current@, (#[trigger] repositories@[j]).path@),
        decreases repositories@.len() - i,
    {
        if is_at_or_below(current, repositories[i].path.as_str()) {
            return Some(i);
        }
        i += 1;
    }
    None
}

/// Selects the repository that a command is about: the one that the user names, else
/// the only one, else the first one that the current directory lies in.
pub fn select_repository(
    repositories: &Vec<RepositoryKey>,
    selected: Option<RepositoryId>,
    current: &Option<String>,
) -> (r: Result<usize, String>)
    ensures
        ({
            let here = match current {
                Some(text) => Some(text@),
                None => None,
            };
            match r {
                Ok(i) => i < repositories@.len() && selects(
                    repositories@,
                    selected,
                    here,
                    i as int,
                ),
                Err(text) => (forall|i: int| !selects(repositories@, selected, here, i)) && text@
                    == selection_text(repositories@.len(), selected),
            }
        }),
{
    if let Some(id) = selected {
        return match find_repository(repositories, id) {
            Some(i) => Ok(i),
            None => Err(concat3("repository ", id.to_text().as_str(), " is not registered")),
        };
    }
    if repositories.len() == 1 {
        return Ok(0);
    }
    if let Some(current) = current {
        if let Some(i) = find_around(repositories, current.as_str()) {
            return Ok(i);
        }
    }
    Err(
        concat3(
            "select a repository with --repository <ID> (",
            decimal_string(repositories.len() as u64).as_str(),
            " registered)",
        ),
    )
}

/// What decides how waiting for an item ends.
#[derive(Clone, Copy, Debug, PartialEq, Eq, Structural)]
pub struct ItemOutcome {
    pub state: QueueItemState,
    pub remote_state: RemoteState,
    pub cleanup_state: CleanupState,
}

/// How the program ends for an item.
pub open spec fn exit_code(item: ItemOutcome) -> u8 {
    if item.remote_state == RemoteState::PushBlocked || item.cleanup_state
        == CleanupState::NeedsAttention {
        4
    } else {
        match item.state {
            QueueItemState::InfrastructureExhausted => 5,
            QueueItemState::Canceled
            | QueueItemState::Superseded
            | QueueItemState::DependencyFailed => 3,
            QueueItemState::Failed
            | QueueItemState::MergeConflict
            | QueueItemState::CheckFailed => 1,
            _ => 0,
        }
    }
}

/// How the program ends for an item.
pub fn exit_for_item(item: &ItemOutcome) -> (r: u8)
    ensures
        r == exit_code(*item),
{
    if item.remote_state == RemoteState::PushBlocked || item.cleanup_state
        == CleanupState::NeedsAttention {
        return 4;
    }
    match item.state {
        QueueItemState::InfrastructureExhausted => 5,
        QueueItemState::Canceled => 3,
        QueueItemState::Superseded => 3,
        QueueItemState::DependencyFailed => 3,
        QueueItemState::Failed => 1,
        QueueItemState::MergeConflict => 1,
        QueueItemState::CheckFailed => 1,
        _ => 0,
    }
}

/// How the program ends after an error, by what the error says.
pub open spec fn error_exit(message: Seq<char>) -> u8 {
    if contains_part(message, "configuration"@) || contains_part(message, "argument"@)
        || contains_part(message, "not found"@) || contains_part(message, "unknown"@) {
        2
    } else if contains_part(message, "blocked"@) || contains_part(message, "conflict"@)
        || contains_part(message, "reconcile"@) {
        4
    } else {
        5
    }
}

/// How the program ends after an error, by what the error says.
pub fn classify_exit(message: &str) -> (r: u8)
    ensures
        r == error_exit(message@),
{
    if contains_str(message, "configuration") || contains_str(message, "argument")
        || contains_str(message, "not found") || contains_str(message, "unknown") {
        2
    } else if contains_str(message, "blocked") || contains_str(message, "conflict")
        || contains_str(message, "reconcile") {
        4
    } else {
        5
    }
}

/// What is done after a look at an item that is waited for.
#[derive(Clone, Copy, Debug, PartialEq, Eq, Structural)]
pub enum WaitStep {
    /// The item is done: end with this code.
    Exit(u8),
    /// The repository is blocked: say so, and end with code 4.
    Blocked,
    /// Look again.
    Again,
}

/// The item is done, as far as it is waited for.
pub open spec fn waited_enough(item: ItemOutcome, validation_only: bool) -> bool {
    item.state.terminal() || (validation_only && item.state == QueueItemState::Ready)
}

/// Decides what is done after a look at an item that is waited for. Of an item that is
/// looked up by itself it is not known whether its repository is blocked.
pub fn wait_step(item: &ItemOutcome, validation_only: bool, blocked: bool) -> (r: WaitStep)
    ensures
        r == if waited_enough(*item, validation_only) {
            WaitStep::Exit(exit_code(*item))
        } else if blocked {
            WaitStep::Blocked
        } else {
            WaitStep::Again
        },
{
    if item.state.is_terminal() || (validation_only && item.state == QueueItemState::Ready) {
        return WaitStep::Exit(exit_for_item(item));
    }
    if blocked {
        return WaitStep::Blocked;
    }
    WaitStep::Again
}

/// Waiting ends with success only if the item has been promoted or has passed its check,
/// or if only its validation was waited for and it is ready; and only if nothing of it
/// still needs attention.
pub proof fn law_success_is_not_claimed_early(item: ItemOutcome, validation_only: bool)
    requires
        waited_enough(item, validation_only),
        exit_code(item) == 0,
    ensures
        item.state == QueueItemState::Promoted || item.state == QueueItemState::ExternallyIntegrated
            || item.state == QueueItemState::CheckPassed || (validation_only && item.state
            == QueueItemState::Ready),
        item.remote_state != RemoteState::PushBlocked,
        item.cleanup_state != CleanupState::NeedsAttention,
{
}

/// What is known, at one look, of an item that is waited for: its record, and whether its
/// repository is blocked.
#[verifier::ext_equal]
pub struct WaitInfo {
    pub record: Seq<char>,
    pub blocked: bool,
}

/// What was known at the last look at an item that is waited for.
pub struct WaitReport {
    last: Option<(String, bool)>,
}

impl View for WaitReport {
    type V = Option<WaitInfo>;

    closed spec fn view(&self) -> Option<WaitInfo> {
        match self.last {
            Some((record, blocked)) => Some(WaitInfo { record: record@, blocked }),
            None => None,
        }
    }
}

impl WaitReport {
    /// There has been no look yet.
    pub fn new() -> (r: WaitReport)
        ensures
            r@ is None,
    {
        WaitReport { last: None }
    }

    /// Decides whether the record of an item is written: only when it, or whether its
    /// repository is blocked, has changed.
    pub fn look(&mut self, record: &str, blocked: bool) -> (r: bool)
        ensures
            r == (old(self)@ != Some(WaitInfo { record: record@, blocked })),
            final(self)@ == Some(WaitInfo { record: record@, blocked }),
    {
        let changed = match &self.last {
            Some((last, was_blocked)) => !str_equal(last.as_str(), record) || *was_blocked
                != blocked,
            None => true,
        };
        self.last = Some((record.to_owned(), blocked));
        changed
    }
}

/// What is written in the course of some looks.
pub open spec fn written(looks: Seq<WaitInfo>) -> Seq<WaitInfo>
    decreases looks.len(),
{
    if looks.len() == 0 {
        Seq::empty()
    } else {
        let before = written(looks.drop_last());
        if looks.len() > 1 && looks[looks.len() - 2] == looks.last() {
            before
        } else {
            before.push(looks.last())
        }
    }
}

/// However often an item is looked at, every change of it is written, and nothing is
/// written twice in a row.
pub proof fn law_only_changes_are_written(looks: Seq<WaitInfo>)
    ensures
        looks.len() > 0 ==> written(looks).len() > 0 && written(looks).last() == looks.last(),
        forall|k: int|
            0 <= k < written(looks).len() - 1 ==> #[trigger] written(looks)[k] != written(looks)[k
                + 1],
    decreases looks.len(),
{
    if looks.len() > 0 {
        let before = written(looks.drop_last());
        law_only_changes_are_written(looks.drop_last());
        assert forall|k: int| 0 <= k < written(looks).len() - 1 implies #[trigger] written(
            looks,
        )[k] != written(looks)[k + 1] by {
            assert(written(looks)[k] == before[k]);
            if k + 1 < before.len() {
                assert(before[k] != before[k + 1]);
            }
        }
    }
}

/// An item in the queue, as far as waiting for it goes.
#[derive(Clone, Copy, Debug, PartialEq, Eq, Structural)]
pub struct QueuedItem {
    pub id: QueueItemId,
    pub promotion_authorized: bool,
}

/// Only the validation of an item is waited for: it is in the queue without leave to be
/// promoted.
pub open spec fn only_validated(queue: Seq<QueuedItem>, id: QueueItemId) -> bool {
    exists|i: int|
        #![trigger queue[i]]
        0 <= i < queue.len() && queue[i].id == id && !queue[i].promotion_authorized && forall|
            j: int,
        | 0 <= j < i ==> (#[trigger] queue[j]).id != id
}

/// Whether only the validation of an item is waited for.
pub fn waits_for_validation(queue: &Vec<QueuedItem>, id: QueueItemId) -> (r: bool)
    ensures
        r == only_validated(queue@, id),
{
    let mut i: usize = 0;
    while i < queue.len()
        invariant
            i <= queue@.len(),
            forall|j: int| 0 <= j < i ==> (#[trigger] queue@[j]).id != id,
        decreases queue@.len() - i,
    {
        if queue[i].id.0 == id.0 {
            assert(queue@[i as int].id == id);
            return !queue[i].promotion_authorized;
        }
        i += 1;
    }
    false
}

/// Which answer an item is taken from.
#[derive(Clone, Copy, Debug, PartialEq, Eq, Structural)]
pub enum AnswerKind {
    Approval,
    Candidate,
    Check,
}

/// What is said if an answer names no item.
pub open spec fn omitted_text(kind: AnswerKind) -> Seq<char> {
    match kind {
        AnswerKind::Approval => "approval response omitted item ID"@,
        AnswerKind::Candidate => "candidate response omitted item ID"@,
        AnswerKind::Check => "check response omitted run ID"@,
    }
}

/// Why an answer does not tell what to wait for.
#[derive(Clone, Debug, PartialEq, Eq)]
pub enum AnswerFault {
    /// It names no item.
    Omitted(String),
    /// The name is none.
    Unreadable,
}

/// Reads from an answer which item to wait for.
pub fn answered_item(kind: AnswerKind, answer: &Document) -> (r: Result<QueueItemId, AnswerFault>)
    ensures
        match answer@.text_field("item_id"@, None) {
            None => r matches Err(AnswerFault::Omitted(text)) && text@ == omitted_text(kind),
            Some(text) => match uuid_value(text) {
                Some(id) => r == Ok::<QueueItemId, AnswerFault>(QueueItemId(id)),
                None => r == Err::<QueueItemId, AnswerFault>(AnswerFault::Unreadable),
            },
        },
{
    match answer.text_field("item_id", None) {
        None => {
            let text: &str = match kind {
                AnswerKind::Approval => "approval response omitted item ID",
                AnswerKind::Candidate => "candidate response omitted item ID",
                AnswerKind::Check => "check response omitted run ID",
            };
            Err(AnswerFault::Omitted(text.to_owned()))
        },
        Some(text) => match QueueItemId::parse(text.as_str()) {
            Some(id) => Ok(id),
            None => Err(AnswerFault::Unreadable),
        },
    }
}

/// The number of the frame to ask for after one has been shown.
pub open spec fn frame_after(sequence: nat, shown: Option<nat>) -> nat {
    match shown {
        Some(number) => if sequence > number + 1 {
            sequence
        } else {
            number + 1
        },
        None => sequence + 1,
    }
}

/// The number of the next frame of a log to ask for, after a frame has been shown.
pub fn advance_log(sequence: u64, broker_sequence: Option<u64>) -> (r: u64)
    requires
        sequence < u64::MAX,
        broker_sequence matches Some(number) ==> number < u64::MAX,
    ensures
        r == frame_after(
            sequence as nat,
            match broker_sequence {
                Some(number) => Some(number as nat),
                None => None,
            },
        ),
        r == match broker_sequence {
            Some(number) => if sequence > number + 1 {
                sequence as int
            } else {
                number + 1
            },
            None => sequence + 1,
        },
{
    let shown: u64 = match broker_sequence {
        Some(number) => number,
        None => sequence,
    };
    if sequence > shown + 1 {
        sequence
    } else {
        shown + 1
    }
}

/// No frame of a log is asked for again once it has been shown, and none is passed over:
/// `next` is the number that `advance_log` gives.
pub proof fn law_logs_are_followed_without_gaps(sequence: u64, shown: u64, next: u64)
    requires
        sequence <= shown < u64::MAX,
        next == if sequence > shown + 1 {
            sequence as int
        } else {
            shown + 1
        },
    ensures
        next == shown + 1,
{
}

/// Whether a log has been shown to its end.
pub fn log_is_done(follow: bool, active: bool, nothing_new: bool) -> (r: bool)
    ensures
        r == (!follow || (!active && nothing_new)),
{
    !follow || (!active && nothing_new)
}

/// Whether an item still writes to its log.
pub fn writes_log(state: QueueItemState) -> (r: bool)
    ensures
        r == (state == QueueItemState::Running || state == QueueItemState::Preparing),
{
    state == QueueItemState::Running || state == QueueItemState::Preparing
}

/// How long to wait before the first attempt to connect again, in milliseconds.
pub const FIRST_RECONNECT_DELAY_MS: u64 = 100;

/// How long to wait between attempts to connect at most, in milliseconds.
pub const LAST_RECONNECT_DELAY_MS: u64 = 2_000;

/// How long to wait after having waited so long.
pub open spec fn delay_after(delay: nat) -> nat {
    if 2 * delay < LAST_RECONNECT_DELAY_MS {
        2 * delay
    } else {
        LAST_RECONNECT_DELAY_MS as nat
    }
}

/// How long to wait before the next attempt to connect, in milliseconds.
pub fn next_reconnect_delay(delay: u64) -> (r: u64)
    requires
        delay <= LAST_RECONNECT_DELAY_MS,
    ensures
        r == delay_after(delay as nat),
        r == if 2 * delay < LAST_RECONNECT_DELAY_MS {
            2 * delay
        } else {
            LAST_RECONNECT_DELAY_MS as int
        },
        r <= LAST_RECONNECT_DELAY_MS,
{
    if 2 * delay < LAST_RECONNECT_DELAY_MS {
        2 * delay
    } else {
        LAST_RECONNECT_DELAY_MS
    }
}

/// How often the app is tried again after it has been launched, in milliseconds.
pub const LAUNCH_RETRY_MS: u64 = 100;

/// How long the app is tried after it has been launched, in milliseconds.
pub const LAUNCH_DEADLINE_MS: u64 = 10_000;

/// What has been tried to reach the app.
#[derive(Clone, Debug, PartialEq, Eq)]
#[allow(inconsistent_fields)]
pub enum ConnectEvent {
    /// It could not be reached at first.
    Refused { error: String, no_launch: bool },
    /// It was launched, or not.
    Launched { success: bool, first_error: String },
    /// It still could not be reached, this long after the launch.
    StillRefused { error: String, elapsed_ms: u64 },
}

/// What is tried next to reach the app.
#[derive(Clone, Debug, PartialEq, Eq)]
#[allow(inconsistent_fields)]
pub enum ConnectStep {
    Launch,
    Connect,
    /// Wait this long, then connect.
    Wait { milliseconds: u64 },
    Fail(String),
}

/// What is said if the app cannot be reached.
pub open spec fn connect_failure(event: ConnectEvent) -> Option<Seq<char>> {
    match event {
        ConnectEvent::Refused { error, no_launch } => if no_launch {
            Some("Tollgate app is unavailable (--no-launch): "@ + error@)
        } else {
            None
        },
        ConnectEvent::Launched { success, first_error } => if success {
            None
        } else {
            Some("Tollgate launch failed; initial IPC error: "@ + first_error@)
        },
        ConnectEvent::StillRefused { error, elapsed_ms } => if elapsed_ms < LAUNCH_DEADLINE_MS {
            None
        } else {
            Some("Tollgate did not become available: "@ + error@)
        },
    }
}

/// Decides what is tried next to reach the app.
pub fn connect_step(event: &ConnectEvent) -> (r: ConnectStep)
    ensures
        match connect_failure(*event) {
            Some(text) => r matches ConnectStep::Fail(said) && said@ == text,
            None => r == match *event {
                ConnectEvent::Refused { .. } => ConnectStep::Launch,
                ConnectEvent::Launched { .. } => ConnectStep::Connect,
                ConnectEvent::StillRefused { .. } => ConnectStep::Wait {
                    milliseconds: LAUNCH_RETRY_MS,
                },
            },
        },
{
    match event {
        ConnectEvent::Refused { error, no_launch } => {
            if *no_launch {
                return ConnectStep::Fail(
                    "Tollgate app is unavailable (--no-launch): ".to_owned().concat(
                        error.as_str(),
                    ),
                );
            }
            ConnectStep::Launch
        },
        ConnectEvent::Launched { success, first_error } => {
            if !*success {
                return ConnectStep::Fail(
                    "Tollgate launch failed; initial IPC error: ".to_owned().concat(
                        first_error.as_str(),
                    ),
                );
            }
            ConnectStep::Connect
        },
        ConnectEvent::StillRefused { error, elapsed_ms } => {
            if *elapsed_ms < LAUNCH_DEADLINE_MS {
                return ConnectStep::Wait { milliseconds: LAUNCH_RETRY_MS };
            }
            ConnectStep::Fail(
                "Tollgate did not become available: ".to_owned().concat(error.as_str()),
            )
        },
    }
}

} // verus!
