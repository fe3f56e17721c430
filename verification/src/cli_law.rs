//! What the user types is what the app is asked, and how the program ends says what came of
//! it.

#[allow(unused_imports)]
use crate::cli::{
    at_or_below, connect_failure, error_exit, exit_code, only_validated, plan_of, selects,
    waited_enough, written, CliCommand, CliPlan, ConnectEvent, ItemOutcome, QueuedItem,
    RepositoryKey, SelectedRepository, WaitInfo,
};
#[allow(unused_imports)]
use crate::ids::{CommandId, QueueItemId, RepositoryId};
#[allow(unused_imports)]
use crate::ipc_command::IpcCommand;
#[allow(unused_imports)]
use crate::outside::uuid_value;
#[allow(unused_imports)]
use crate::scan::{begins_with, contains_part, occurs_at};
#[allow(unused_imports)]
use crate::state::{CleanupState, QueueItemState, RemoteState};
use vstd::prelude::*;

verus! {

/// The repository that a request is about, if it is about one.
pub open spec fn repository_asked(request: IpcCommand) -> Option<RepositoryId> {
    match request {
        IpcCommand::ItemStatus { repository_id, .. } => Some(repository_id),
        IpcCommand::ItemDetails { repository_id, .. } => repository_id,
        IpcCommand::ItemWaitStatus { repository_id, .. } => Some(repository_id),
        IpcCommand::Approve { repository_id, .. } => Some(repository_id),
        IpcCommand::Candidate { repository_id, .. } => Some(repository_id),
        IpcCommand::AuthorizeCandidate { repository_id, .. } => Some(repository_id),
        IpcCommand::Check { repository_id, .. } => Some(repository_id),
        IpcCommand::Diagnose { repository_id, .. } => Some(repository_id),
        IpcCommand::Cancel { repository_id, .. } => Some(repository_id),
        IpcCommand::Retry { repository_id, .. } => Some(repository_id),
        IpcCommand::Reorder { repository_id, .. } => Some(repository_id),
        IpcCommand::Pull { repository_id, .. } => Some(repository_id),
        IpcCommand::Push { repository_id, .. } => Some(repository_id),
        IpcCommand::Reconcile { repository_id, .. } => Some(repository_id),
        IpcCommand::Update { repository_id, .. } => Some(repository_id),
        IpcCommand::WorktreeCreate { repository_id, .. } => Some(repository_id),
        IpcCommand::WorktreeRemove { repository_id, .. } => Some(repository_id),
        IpcCommand::RemoveRepository { repository_id, .. } => Some(repository_id),
        IpcCommand::ApplyConfiguration { repository_id, .. } => Some(repository_id),
        IpcCommand::ValidateConfiguration { repository_id } => Some(repository_id),
        IpcCommand::RegenerateConfiguration { repository_id, .. } => Some(repository_id),
        IpcCommand::ResetSlot { repository_id, .. } => Some(repository_id),
        IpcCommand::SnapshotCache { repository_id, .. } => Some(repository_id),
        IpcCommand::PurgeCache { repository_id, .. } => Some(repository_id),
        IpcCommand::ArtifactPin { repository_id, .. } => Some(repository_id),
        IpcCommand::ArtifactPrune { repository_id, .. } => Some(repository_id),
        IpcCommand::Logs { repository_id, .. } => Some(repository_id),
        IpcCommand::Doctor { repository_id } => Some(repository_id),
        IpcCommand::Pause { repository_id, .. } => Some(repository_id),
        IpcCommand::Resume { repository_id, .. } => Some(repository_id),
        _ => None,
    }
}

/// The identifier under which a request is carried out once, if it changes anything.
pub open spec fn command_asked(request: IpcCommand) -> Option<CommandId> {
    match request {
        IpcCommand::Approve { command_id, .. } => Some(command_id),
        IpcCommand::Candidate { command_id, .. } => Some(command_id),
        IpcCommand::AuthorizeCandidate { command_id, .. } => Some(command_id),
        IpcCommand::Check { command_id, .. } => Some(command_id),
        IpcCommand::Diagnose { command_id, .. } => Some(command_id),
        IpcCommand::Cancel { command_id, .. } => Some(command_id),
        IpcCommand::Retry { command_id, .. } => Some(command_id),
        IpcCommand::Reorder { command_id, .. } => Some(command_id),
        IpcCommand::Pull { command_id, .. } => Some(command_id),
        IpcCommand::Push { command_id, .. } => Some(command_id),
        IpcCommand::Reconcile { command_id, .. } => Some(command_id),
        IpcCommand::Update { command_id, .. } => Some(command_id),
        IpcCommand::WorktreeCreate { command_id, .. } => Some(command_id),
        IpcCommand::WorktreeRemove { command_id, .. } => Some(command_id),
        IpcCommand::RemoveRepository { command_id, .. } => Some(command_id),
        IpcCommand::ApplyConfiguration { command_id, .. } => Some(command_id),
        IpcCommand::RegenerateConfiguration { command_id, .. } => Some(command_id),
        IpcCommand::ResetSlot { command_id, .. } => Some(command_id),
        IpcCommand::SnapshotCache { command_id, .. } => Some(command_id),
        IpcCommand::PurgeCache { command_id, .. } => Some(command_id),
        IpcCommand::StoragePrune { command_id, .. } => Some(command_id),
        IpcCommand::ArtifactPin { command_id, .. } => Some(command_id),
        IpcCommand::ArtifactPrune { command_id, .. } => Some(command_id),
        IpcCommand::Pause { command_id, .. } => Some(command_id),
        IpcCommand::Resume { command_id, .. } => Some(command_id),
        IpcCommand::ReloadEnvironment { command_id } => Some(command_id),
        _ => None,
    }
}

/// The request that is made for a command, if one is.
pub open spec fn asked(
    command: CliCommand,
    selected: SelectedRepository,
    directory: String,
    command_id: CommandId,
) -> Option<IpcCommand> {
    match plan_of(command, selected, directory, command_id) {
        CliPlan::Request(request) => Some(request),
        _ => None,
    }
}

/// Every request is about the repository that was selected, or the one that the command
/// itself names, and is carried out under the identifier of the command.
pub proof fn law_requests_are_about_what_was_selected(
    command: CliCommand,
    selected: SelectedRepository,
    directory: String,
    command_id: CommandId,
)
    requires
        asked(command, selected, directory, command_id) is Some,
    ensures
        ({
            let request = asked(command, selected, directory, command_id)->0;
            &&& command_asked(request) matches Some(id) ==> id == command_id
            &&& command.about_repository() ==> repository_asked(request) == Some(selected.id)
            &&& command matches CliCommand::RepoRemove { id } ==> repository_asked(request) == Some(
                id,
            )
            &&& command matches CliCommand::Status { repository, .. } ==> repository_asked(request)
                == repository
        }),
{
}

/// What changes the course of a gate is asked for by the command of that name, and by no
/// other: `tg resume` resumes and never pauses, `tg cancel` cancels, and so on.
pub proof fn law_commands_do_what_they_say(
    command: CliCommand,
    selected: SelectedRepository,
    directory: String,
    command_id: CommandId,
)
    ensures
        ({
            let request = asked(command, selected, directory, command_id);
            &&& (request matches Some(IpcCommand::Pause { .. })) <==> command is Pause
            &&& (request matches Some(IpcCommand::Resume { .. })) <==> command is Resume
            &&& (request matches Some(IpcCommand::Pull { .. })) <==> command is Pull
            &&& (request matches Some(IpcCommand::Push { .. })) <==> command is Push
            &&& (request matches Some(IpcCommand::Reconcile { .. })) <==> command is Reconcile
            &&& (request matches Some(IpcCommand::Update { .. })) <==> command is Update
            &&& (request matches Some(IpcCommand::Cancel { .. })) <==> command is Cancel
            &&& (request matches Some(IpcCommand::Retry { .. })) <==> command is Retry
            &&& (request matches Some(IpcCommand::Reorder { .. })) <==> command is Promote
            &&& (request matches Some(IpcCommand::Candidate { .. })) <==> command is Candidate
            &&& (request matches Some(IpcCommand::Check { .. })) <==> command is Check
            &&& (request matches Some(IpcCommand::Diagnose { .. })) <==> command is Diagnose
            &&& (request matches Some(IpcCommand::Logs { .. })) <==> command is Logs
            &&& (request matches Some(IpcCommand::Doctor { .. })) <==> command is Doctor
            &&& (request matches Some(IpcCommand::Initialize { .. })) <==> command is Init
                || command is RepoAdd
            &&& (request matches Some(IpcCommand::RemoveRepository { .. })) <==> command
                is RepoRemove
            &&& (request matches Some(IpcCommand::WorktreeCreate { .. })) <==> command
                is WorktreeCreate
            &&& (request matches Some(IpcCommand::WorktreeRemove { .. })) <==> command
                is WorktreeRemove
            &&& (request matches Some(IpcCommand::ReloadEnvironment { .. })) <==> command
                is EnvReload
            &&& (request matches Some(IpcCommand::Snapshot)) <==> command is RepoList || command
                is EnvShow
            &&& (request matches Some(IpcCommand::ValidateConfiguration { .. })) <==> command
                is ConfigValidate || command is ConfigExplain
            &&& (request matches Some(IpcCommand::RegenerateConfiguration { .. })) <==> command
                is ConfigRegenerate
            &&& (request matches Some(IpcCommand::ApplyConfiguration { .. })) <==> command
                is ConfigApply
            &&& (request matches Some(IpcCommand::SnapshotCache { .. })) <==> command
                is CacheSnapshot
            &&& (request matches Some(IpcCommand::PurgeCache { .. })) <==> command is CachePurge
            &&& (request matches Some(IpcCommand::ArtifactPrune { .. })) <==> command
                is ArtifactPrune
            &&& (request matches Some(IpcCommand::ArtifactPin { pinned: true, .. })) <==> command
                is ArtifactPin
            &&& (request matches Some(IpcCommand::ArtifactPin { pinned: false, .. })) <==> command
                is ArtifactUnpin
            &&& (request matches Some(IpcCommand::ResetSlot { .. })) <==> (
            command matches CliCommand::SlotReset { id } && uuid_value(id@) is Some)
            &&& (request matches Some(IpcCommand::AuthorizeCandidate { .. })) <==> (
            command matches CliCommand::Approve { revision, .. } && uuid_value(revision@) is Some)
            &&& (request matches Some(IpcCommand::Approve { .. })) <==> (
            command matches CliCommand::Approve { revision, .. } && uuid_value(revision@) is None)
            &&& (request matches Some(IpcCommand::ItemDetails { .. })) <==> (
            command matches CliCommand::Status { id, json, .. } && json && id is Some)
            &&& !(request matches Some(IpcCommand::StoragePrune { .. }))
            &&& !(request matches Some(IpcCommand::StorageStatus))
            &&& !(request matches Some(IpcCommand::ItemStatus { .. }))
            &&& !(request matches Some(IpcCommand::ItemWaitStatus { .. }))
        }),
{
}

/// Nothing is asked for a command that only shows what is known; and a slot whose name is
/// none is the only command that comes to nothing.
pub proof fn law_looking_asks_nothing(
    command: CliCommand,
    selected: SelectedRepository,
    directory: String,
    command_id: CommandId,
)
    ensures
        ({
            let plan = plan_of(command, selected, directory, command_id);
            &&& plan is Show <==> command is Queue || command is Wait || command is SlotList
                || command is CacheStatus || command is ArtifactList || command is History || (
            command matches CliCommand::Status { id, json, .. } && !(json && id is Some))
            &&& plan is BadSlot <==> (command matches CliCommand::SlotReset { id } && uuid_value(
                id@,
            ) is None)
        }),
{
}

/// A request about an item names the item that the user named, and what the user chose for
/// it; a change of the queue names the state of the queue that the user has seen.
pub proof fn law_requests_name_the_item(
    command: CliCommand,
    selected: SelectedRepository,
    directory: String,
    command_id: CommandId,
)
    requires
        asked(command, selected, directory, command_id) is Some,
    ensures
        ({
            let request = asked(command, selected, directory, command_id)->0;
            &&& command matches CliCommand::Cancel { id } ==> (request matches IpcCommand::Cancel {
                item_id,
                expected_revision,
                ..
            } && item_id == id && expected_revision == selected.queue_revision)
            &&& command matches CliCommand::Retry { id, cold } ==> (
            request matches IpcCommand::Retry { item_id, cold: from_scratch, .. } && item_id == id
                && from_scratch == cold)
            &&& command matches CliCommand::Promote { ids } ==> (
            request matches IpcCommand::Reorder { selected_ids, expected_revision, .. }
                && selected_ids@ == ids@ && expected_revision == selected.queue_revision)
            &&& command matches CliCommand::Diagnose { id, replay, verify_repair } ==> (
            request matches IpcCommand::Diagnose { item_id, replay: again, verify_repair: check, .. }
                && item_id == id && again == replay && check == verify_repair)
            &&& command matches CliCommand::Logs { id, buildset, step, .. } ==> (
            request matches IpcCommand::Logs { item_id, buildset_id, step: of, start_sequence, .. }
                && item_id == id && buildset_id == buildset && of == step && start_sequence == 0)
            &&& command matches CliCommand::Status { id, .. } ==> (
            request matches IpcCommand::ItemDetails { item_id, .. } && id == Some(item_id))
            &&& command matches CliCommand::Approve { revision, .. } ==> (
            request matches IpcCommand::AuthorizeCandidate { item_id, expected_revision, .. }
                ==> uuid_value(revision@) == Some(item_id.0) && expected_revision
                == selected.queue_revision)
            &&& command matches CliCommand::SlotReset { id } ==> (
            request matches IpcCommand::ResetSlot { slot_id, .. } && uuid_value(id@) == Some(
                slot_id.0,
            ))
        }),
{
}

/// A request about a revision, a worktree, a cache or an artifact carries what the user
/// typed, and the directory in which it was typed.
pub proof fn law_requests_carry_what_was_typed(
    command: CliCommand,
    selected: SelectedRepository,
    directory: String,
    command_id: CommandId,
)
    requires
        asked(command, selected, directory, command_id) is Some,
    ensures
        ({
            let request = asked(command, selected, directory, command_id)->0;
            &&& command matches CliCommand::Init { path, run, no_bootstrap, detach_master } ==> (
            request matches IpcCommand::Initialize {
                path: at,
                run: script,
                bootstrap,
                detach_master: detach,
            } && at == path && script == run && bootstrap != no_bootstrap && detach
                == detach_master)
            &&& command matches CliCommand::RepoAdd { path, detach_master } ==> (
            request matches IpcCommand::Initialize {
                path: at,
                run: script,
                bootstrap,
                detach_master: detach,
            } && at == path && script is None && bootstrap && detach == detach_master)
            &&& command matches CliCommand::Candidate { revision, retain_worktree, .. } ==> (
            request matches IpcCommand::Candidate {
                revision: named,
                worktree_path,
                retain_worktree: retain,
                ..
            } && named == revision && worktree_path == Some(directory) && retain == retain_worktree)
            &&& command matches CliCommand::Approve { revision, .. } ==> (
            request matches IpcCommand::Approve {
                revision: named,
                worktree_path,
                purpose,
                retain_worktree,
                ..
            } ==> named == revision && worktree_path == Some(directory) && purpose is None
                && !retain_worktree)
            &&& command matches CliCommand::Check { revision, .. } ==> (
            request matches IpcCommand::Check { revision: named, worktree_path, .. } && named
                == revision && worktree_path == Some(directory))
            &&& command is Update ==> (request matches IpcCommand::Update { worktree_path, .. }
                && worktree_path == directory)
            &&& command matches CliCommand::WorktreeCreate { name } ==> (
            request matches IpcCommand::WorktreeCreate { branch, destination, warm, .. } && branch
                == name && destination is None && !warm)
            &&& command matches CliCommand::WorktreeRemove { path } ==> (
            request matches IpcCommand::WorktreeRemove { path: at, .. } && at == path)
            &&& command matches CliCommand::CachePurge { all_slots } ==> (
            request matches IpcCommand::PurgeCache { all_slots: all, .. } && all == all_slots)
            &&& command matches CliCommand::ArtifactPin { id } ==> (
            request matches IpcCommand::ArtifactPin { artifact_id, pinned, .. } && artifact_id == id
                && pinned)
            &&& command matches CliCommand::ArtifactUnpin { id } ==> (
            request matches IpcCommand::ArtifactPin { artifact_id, pinned, .. } && artifact_id == id
                && !pinned)
            &&& command matches CliCommand::ArtifactPrune { id } ==> (
            request matches IpcCommand::ArtifactPrune { artifact_id, .. } && artifact_id == id)
            &&& command is Reconcile ==> (request matches IpcCommand::Reconcile {
                expected_observed_master,
                expected_queue_revision,
                ..
            } && expected_observed_master is None && expected_queue_revision is None)
        }),
{
}

/// Two commands that change something and are not the same command never make the same
/// request.
pub proof fn law_different_commands_ask_differently(
    a: CliCommand,
    b: CliCommand,
    selected: SelectedRepository,
    directory: String,
    command_id: CommandId,
)
    requires
        asked(a, selected, directory, command_id) is Some,
        command_asked(asked(a, selected, directory, command_id)->0) is Some,
        asked(a, selected, directory, command_id) == asked(b, selected, directory, command_id),
    ensures
        a is Pause <==> b is Pause,
        a is Resume <==> b is Resume,
        a is Pull <==> b is Pull,
        a is Push <==> b is Push,
        a is Reconcile <==> b is Reconcile,
        a is Update <==> b is Update,
        a is Cancel <==> b is Cancel,
        a is Retry <==> b is Retry,
        a is Promote <==> b is Promote,
        a is Candidate <==> b is Candidate,
        a is Approve <==> b is Approve,
        a is Check <==> b is Check,
        a is Diagnose <==> b is Diagnose,
        a is RepoRemove <==> b is RepoRemove,
        a is WorktreeCreate <==> b is WorktreeCreate,
        a is WorktreeRemove <==> b is WorktreeRemove,
        a is EnvReload <==> b is EnvReload,
        a is ConfigRegenerate <==> b is ConfigRegenerate,
        a is ConfigApply <==> b is ConfigApply,
        a is SlotReset <==> b is SlotReset,
        a is CacheSnapshot <==> b is CacheSnapshot,
        a is CachePurge <==> b is CachePurge,
        a is ArtifactPin <==> b is ArtifactPin,
        a is ArtifactUnpin <==> b is ArtifactUnpin,
        a is ArtifactPrune <==> b is ArtifactPrune,
        a matches CliCommand::Cancel { id } ==> (b matches CliCommand::Cancel { id: other } && id
            == other),
        a matches CliCommand::Retry { id, cold } ==> (b matches CliCommand::Retry {
            id: other,
            cold: too,
        } && id == other && cold == too),
        a matches CliCommand::RepoRemove { id } ==> (b matches CliCommand::RepoRemove { id: other }
            && id == other),
{
}

/// A repository is selected for a command unless the command is about none: setting one up,
/// removing or listing them, the environment, or one item in JSON.
pub proof fn law_commands_are_about_a_repository(command: CliCommand)
    ensures
        !command.about_repository() <==> command is Init || command is RepoAdd || command
            is RepoRemove || command is RepoList || command is EnvReload || command is EnvShow || (
        command matches CliCommand::Status { id, json, .. } && json && id is Some),
{
}

/// How the program ends for an item tells what became of it: four where something of it
/// needs attention, whatever its state; else five if the machinery gave out, three if it was
/// withdrawn, one if it failed, and zero otherwise.
pub proof fn law_exit_codes_tell_what_became(item: ItemOutcome)
    ensures
        ({
            let attention = item.remote_state == RemoteState::PushBlocked || item.cleanup_state
                == CleanupState::NeedsAttention;
            &&& exit_code(item) == 4 <==> attention
            &&& exit_code(item) == 5 <==> !attention && item.state
                == QueueItemState::InfrastructureExhausted
            &&& exit_code(item) == 3 <==> !attention && (item.state == QueueItemState::Canceled
                || item.state == QueueItemState::Superseded || item.state
                == QueueItemState::DependencyFailed)
            &&& exit_code(item) == 1 <==> !attention && (item.state == QueueItemState::Failed
                || item.state == QueueItemState::MergeConflict || item.state
                == QueueItemState::CheckFailed)
            &&& exit_code(item) == 0 || exit_code(item) == 1 || exit_code(item) == 3 || exit_code(
                item,
            ) == 4 || exit_code(item) == 5
        }),
{
}

/// Waiting goes on exactly as long as the item is open, except that an item without leave to
/// be promoted has been waited for once it is ready.
pub proof fn law_waiting_ends_with_the_item(item: ItemOutcome, validation_only: bool)
    ensures
        waited_enough(item, false) <==> item.state.terminal(),
        waited_enough(item, true) <==> item.state.terminal() || item.state
            == QueueItemState::Ready,
        item.state.terminal() ==> waited_enough(item, validation_only),
{
}

/// An error that speaks of the configuration, of an argument or of something that is not
/// there is the user's, and ends with two, whatever else it says; one that speaks of a
/// block, a conflict or a reconciliation ends with four; and any other with five.
pub proof fn law_errors_are_told_apart(
    message: Seq<char>,
    before: Seq<char>,
    after: Seq<char>,
)
    ensures
        error_exit(before + "configuration"@ + after) == 2,
        error_exit(before + "argument"@ + after) == 2,
        error_exit(before + "not found"@ + after) == 2,
        error_exit(before + "unknown"@ + after) == 2,
        error_exit(before + "blocked"@ + after) == 4 || error_exit(before + "blocked"@ + after)
            == 2,
        error_exit(before + "conflict"@ + after) == 4 || error_exit(before + "conflict"@ + after)
            == 2,
        error_exit(before + "reconcile"@ + after) == 4 || error_exit(before + "reconcile"@ + after)
            == 2,
        error_exit(message) == 2 ==> contains_part(message, "configuration"@) || contains_part(
            message,
            "argument"@,
        ) || contains_part(message, "not found"@) || contains_part(message, "unknown"@),
        error_exit(message) == 4 ==> contains_part(message, "blocked"@) || contains_part(
            message,
            "conflict"@,
        ) || contains_part(message, "reconcile"@),
        error_exit(message) == 2 || error_exit(message) == 4 || error_exit(message) == 5,
{
    lemma_part_inside(before, "configuration"@, after);
    lemma_part_inside(before, "argument"@, after);
    lemma_part_inside(before, "not found"@, after);
    lemma_part_inside(before, "unknown"@, after);
    lemma_part_inside(before, "blocked"@, after);
    lemma_part_inside(before, "conflict"@, after);
    lemma_part_inside(before, "reconcile"@, after);
}

proof fn lemma_part_inside(before: Seq<char>, part: Seq<char>, after: Seq<char>)
    ensures
        contains_part(before + part + after, part),
{
    let whole = before + part + after;
    assert(whole.subrange(before.len() as int, (before.len() + part.len()) as int) =~= part);
    assert(occurs_at(whole, part, before.len() as int));
}

/// A repository that the user names is the one that is selected, wherever it was typed; the
/// only one there is needs no name; and else it is one around the current directory.
pub proof fn law_selection_follows_the_user(
    repositories: Seq<RepositoryKey>,
    selected: Option<RepositoryId>,
    current: Option<Seq<char>>,
    i: int,
    j: int,
)
    requires
        selects(repositories, selected, current, i),
    ensures
        0 <= i < repositories.len(),
        selected matches Some(id) ==> repositories[i].id == id,
        selected is None && repositories.len() > 1 ==> current is Some && at_or_below(
            current->0,
            repositories[i].path@,
        ),
        selects(repositories, selected, current, j) ==> i == j,
{
}

/// A command is never left without a repository where the user names one that is there,
/// where there is only one, or where the current directory lies in one.
pub proof fn law_selection_finds_what_is_there(
    repositories: Seq<RepositoryKey>,
    selected: Option<RepositoryId>,
    current: Option<Seq<char>>,
    i: int,
)
    requires
        0 <= i < repositories.len(),
        match selected {
            Some(id) => repositories[i].id == id,
            None => repositories.len() == 1 || (current matches Some(here) && at_or_below(
                here,
                repositories[i].path@,
            )),
        },
    ensures
        exists|k: int| selects(repositories, selected, current, k),
    decreases i,
{
    if selected is None && repositories.len() == 1 {
        assert(selects(repositories, selected, current, 0));
    } else if exists|k: int|
        0 <= k < i && match selected {
            Some(id) => (#[trigger] repositories[k]).id == id,
            None => current is Some && at_or_below(current->0, repositories[k].path@),
        } {
        let k = choose|k: int|
            0 <= k < i && match selected {
                Some(id) => (#[trigger] repositories[k]).id == id,
                None => current is Some && at_or_below(current->0, repositories[k].path@),
            };
        law_selection_finds_what_is_there(repositories, selected, current, k);
    } else {
        assert(selects(repositories, selected, current, i));
    }
}

/// A directory is at or below itself and whatever it stands in, and two directories side by
/// side are not below each other though the name of one begins with that of the other.
pub proof fn law_paths_lie_in_their_directories(
    directory: Seq<char>,
    rest: Seq<char>,
    c: char,
)
    ensures
        at_or_below(directory, directory),
        at_or_below(directory + "/"@ + rest, directory),
        c != '/' && directory != "/"@ ==> !at_or_below(directory.push(c) + rest, directory),
{
    reveal_strlit("/");
    let inside = directory + "/"@ + rest;
    let prefix = directory + "/"@;
    assert(inside.subrange(0, prefix.len() as int) =~= prefix);
    assert(begins_with(inside, prefix));
    let beside = directory.push(c) + rest;
    if c != '/' {
        assert(beside[directory.len() as int] == c);
        assert(prefix[directory.len() as int] == '/');
        if begins_with(beside, prefix) {
            assert(beside.subrange(0, prefix.len() as int)[directory.len() as int]
                == prefix[directory.len() as int]);
        }
        assert(beside.len() > directory.len());
    }
}

/// The app is given up only when the user forbids to launch it, when the launch failed, or
/// when ten seconds have not been enough.
pub proof fn law_the_app_is_given_up_late(event: ConnectEvent)
    ensures
        connect_failure(event) is Some <==> match event {
            ConnectEvent::Refused { no_launch, .. } => no_launch,
            ConnectEvent::Launched { success, .. } => !success,
            ConnectEvent::StillRefused { elapsed_ms, .. } => elapsed_ms >= 10 * 1000,
        },
{
}

/// Only the validation of an item is waited for exactly if the item is in the queue without
/// leave to be promoted; of one that is not in the queue, the end is waited for.
pub proof fn law_authorized_items_are_waited_for_to_the_end(
    queue: Seq<QueuedItem>,
    id: QueueItemId,
)
    ensures
        (forall|i: int|
            0 <= i < queue.len() && (#[trigger] queue[i]).id == id ==> queue[i].promotion_authorized)
            ==> !only_validated(queue, id),
        only_validated(queue, id) ==> exists|i: int|
            0 <= i < queue.len() && (#[trigger] queue[i]).id == id
                && !queue[i].promotion_authorized,
        queue.len() > 0 && queue[0].id == id ==> only_validated(queue, id)
            == !queue[0].promotion_authorized,
{
}

} // verus!
