//! A command is read back as it was written.

#[allow(unused_imports)]
use crate::document::Tree;
#[allow(unused_imports)]
use crate::ipc_command::{command_reads, command_record, IpcCommand};
use vstd::prelude::*;

verus! {

spec fn variant_of(command: IpcCommand) -> int {
    match command {
        IpcCommand::Snapshot => 0,
        IpcCommand::ItemStatus { .. } => 1,
        IpcCommand::ItemDetails { .. } => 2,
        IpcCommand::ItemWaitStatus { .. } => 3,
        IpcCommand::Initialize { .. } => 4,
        IpcCommand::Approve { .. } => 5,
        IpcCommand::Candidate { .. } => 6,
        IpcCommand::AuthorizeCandidate { .. } => 7,
        IpcCommand::Check { .. } => 8,
        IpcCommand::Diagnose { .. } => 9,
        IpcCommand::Cancel { .. } => 10,
        IpcCommand::Retry { .. } => 11,
        IpcCommand::Reorder { .. } => 12,
        IpcCommand::Pull { .. } => 13,
        IpcCommand::Push { .. } => 14,
        IpcCommand::Reconcile { .. } => 15,
        IpcCommand::Update { .. } => 16,
        IpcCommand::WorktreeCreate { .. } => 17,
        IpcCommand::WorktreeRemove { .. } => 18,
        IpcCommand::RemoveRepository { .. } => 19,
        IpcCommand::ApplyConfiguration { .. } => 20,
        IpcCommand::ValidateConfiguration { .. } => 21,
        IpcCommand::RegenerateConfiguration { .. } => 22,
        IpcCommand::ResetSlot { .. } => 23,
        IpcCommand::SnapshotCache { .. } => 24,
        IpcCommand::PurgeCache { .. } => 25,
        IpcCommand::StorageStatus => 26,
        IpcCommand::StoragePrune { .. } => 27,
        IpcCommand::ArtifactPin { .. } => 28,
        IpcCommand::ArtifactPrune { .. } => 29,
        IpcCommand::Logs { .. } => 30,
        IpcCommand::Doctor { .. } => 31,
        IpcCommand::Pause { .. } => 32,
        IpcCommand::Resume { .. } => 33,
        IpcCommand::ReloadEnvironment { .. } => 34,
    }
}

spec fn variant_named(name: Seq<char>) -> int {
    if name.len() == 8 && name[0] == 's' {
        0
    } else if name.len() == 11 && name[0] == 'i' {
        1
    } else if name.len() == 12 && name[0] == 'i' {
        2
    } else if name.len() == 16 {
        3
    } else if name.len() == 10 && name[0] == 'i' {
        4
    } else if name.len() == 7 && name[0] == 'a' {
        5
    } else if name.len() == 9 && name[0] == 'c' {
        6
    } else if name.len() == 19 && name[1] == 'u' {
        7
    } else if name.len() == 5 && name[0] == 'c' {
        8
    } else if name.len() == 8 && name[0] == 'd' {
        9
    } else if name.len() == 6 && name[0] == 'c' {
        10
    } else if name.len() == 5 && name[0] == 'r' {
        11
    } else if name.len() == 7 && name[0] == 'r' {
        12
    } else if name.len() == 4 && name[2] == 'l' {
        13
    } else if name.len() == 4 && name[2] == 's' {
        14
    } else if name.len() == 9 && name[0] == 'r' {
        15
    } else if name.len() == 6 && name[0] == 'u' {
        16
    } else if name.len() == 15 && name[9] == 'c' {
        17
    } else if name.len() == 15 && name[9] == 'r' {
        18
    } else if name.len() == 17 {
        19
    } else if name.len() == 19 && name[1] == 'p' {
        20
    } else if name.len() == 22 {
        21
    } else if name.len() == 24 {
        22
    } else if name.len() == 10 && name[0] == 'r' {
        23
    } else if name.len() == 14 && name[1] == 'n' {
        24
    } else if name.len() == 11 && name[0] == 'p' {
        25
    } else if name.len() == 14 && name[1] == 't' {
        26
    } else if name.len() == 13 {
        27
    } else if name.len() == 12 && name[0] == 'a' {
        28
    } else if name.len() == 14 && name[0] == 'a' {
        29
    } else if name.len() == 4 && name[0] == 'l' {
        30
    } else if name.len() == 6 && name[0] == 'd' {
        31
    } else if name.len() == 5 && name[0] == 'p' {
        32
    } else if name.len() == 6 && name[0] == 'r' {
        33
    } else if name.len() == 18 {
        34
    } else {
        -1
    }
}

proof fn lemma_names_tell_commands_apart(command: IpcCommand)
    ensures
        variant_named(command.wire_name()) == variant_of(command),
{
    match command {
        IpcCommand::Snapshot => {
            reveal_strlit("snapshot");
        },
        IpcCommand::ItemStatus { .. } => {
            reveal_strlit("item-status");
        },
        IpcCommand::ItemDetails { .. } => {
            reveal_strlit("item-details");
        },
        IpcCommand::ItemWaitStatus { .. } => {
            reveal_strlit("item-wait-status");
        },
        IpcCommand::Initialize { .. } => {
            reveal_strlit("initialize");
        },
        IpcCommand::Approve { .. } => {
            reveal_strlit("approve");
        },
        IpcCommand::Candidate { .. } => {
            reveal_strlit("candidate");
        },
        IpcCommand::AuthorizeCandidate { .. } => {
            reveal_strlit("authorize-candidate");
        },
        IpcCommand::Check { .. } => {
            reveal_strlit("check");
        },
        IpcCommand::Diagnose { .. } => {
            reveal_strlit("diagnose");
        },
        IpcCommand::Cancel { .. } => {
            reveal_strlit("cancel");
        },
        IpcCommand::Retry { .. } => {
            reveal_strlit("retry");
        },
        IpcCommand::Reorder { .. } => {
            reveal_strlit("reorder");
        },
        IpcCommand::Pull { .. } => {
            reveal_strlit("pull");
        },
        IpcCommand::Push { .. } => {
            reveal_strlit("push");
        },
        IpcCommand::Reconcile { .. } => {
            reveal_strlit("reconcile");
        },
        IpcCommand::Update { .. } => {
            reveal_strlit("update");
        },
        IpcCommand::WorktreeCreate { .. } => {
            reveal_strlit("worktree-create");
        },
        IpcCommand::WorktreeRemove { .. } => {
            reveal_strlit("worktree-remove");
        },
        IpcCommand::RemoveRepository { .. } => {
            reveal_strlit("remove-repository");
        },
        IpcCommand::ApplyConfiguration { .. } => {
            reveal_strlit("apply-configuration");
        },
        IpcCommand::ValidateConfiguration { .. } => {
            reveal_strlit("validate-configuration");
        },
        IpcCommand::RegenerateConfiguration { .. } => {
            reveal_strlit("regenerate-configuration");
        },
        IpcCommand::ResetSlot { .. } => {
            reveal_strlit("reset-slot");
        },
        IpcCommand::SnapshotCache { .. } => {
            reveal_strlit("snapshot-cache");
        },
        IpcCommand::PurgeCache { .. } => {
            reveal_strlit("purge-cache");
        },
        IpcCommand::StorageStatus => {
            reveal_strlit("storage-status");
        },
        IpcCommand::StoragePrune { .. } => {
            reveal_strlit("storage-prune");
        },
        IpcCommand::ArtifactPin { .. } => {
            reveal_strlit("artifact-pin");
        },
        IpcCommand::ArtifactPrune { .. } => {
            reveal_strlit("artifact-prune");
        },
        IpcCommand::Logs { .. } => {
            reveal_strlit("logs");
        },
        IpcCommand::Doctor { .. } => {
            reveal_strlit("doctor");
        },
        IpcCommand::Pause { .. } => {
            reveal_strlit("pause");
        },
        IpcCommand::Resume { .. } => {
            reveal_strlit("resume");
        },
        IpcCommand::ReloadEnvironment { .. } => {
            reveal_strlit("reload-environment");
        },
    }
}

/// Two commands that one notation stands for are the same command: they are of the same
/// kind, and all of their fields agree.
pub proof fn law_one_notation_one_command(tree: Tree, one: IpcCommand, other: IpcCommand)
    requires
        command_reads(tree, one),
        command_reads(tree, other),
    ensures
        one.tree() == other.tree(),
{
    lemma_names_tell_commands_apart(one);
    lemma_names_tell_commands_apart(other);
    assert(variant_of(one) == variant_of(other));
    match one {
        IpcCommand::Snapshot => {
            assert(other is Snapshot);
        },
        IpcCommand::ItemStatus { .. } => {
            assert(other is ItemStatus);
            assert(one.tree()->Table_0 =~= other.tree()->Table_0);
        },
        IpcCommand::ItemDetails { .. } => {
            assert(other is ItemDetails);
            assert(one.tree()->Table_0 =~= other.tree()->Table_0);
        },
        IpcCommand::ItemWaitStatus { .. } => {
            assert(other is ItemWaitStatus);
            assert(one.tree()->Table_0 =~= other.tree()->Table_0);
        },
        IpcCommand::Initialize { .. } => {
            assert(other is Initialize);
            assert(one.tree()->Table_0 =~= other.tree()->Table_0);
        },
        IpcCommand::Approve { .. } => {
            assert(other is Approve);
            assert(one.tree()->Table_0 =~= other.tree()->Table_0);
        },
        IpcCommand::Candidate { .. } => {
            assert(other is Candidate);
            assert(one.tree()->Table_0 =~= other.tree()->Table_0);
        },
        IpcCommand::AuthorizeCandidate { .. } => {
            assert(other is AuthorizeCandidate);
            assert(one.tree()->Table_0 =~= other.tree()->Table_0);
        },
        IpcCommand::Check { .. } => {
            assert(other is Check);
            assert(one.tree()->Table_0 =~= other.tree()->Table_0);
        },
        IpcCommand::Diagnose { .. } => {
            assert(other is Diagnose);
            assert(one.tree()->Table_0 =~= other.tree()->Table_0);
        },
        IpcCommand::Cancel { .. } => {
            assert(other is Cancel);
            assert(one.tree()->Table_0 =~= other.tree()->Table_0);
        },
        IpcCommand::Retry { .. } => {
            assert(other is Retry);
            assert(one.tree()->Table_0 =~= other.tree()->Table_0);
        },
        IpcCommand::Reorder { .. } => {
            assert(other is Reorder);
            let ids = one->Reorder_selected_ids@;
            let others = other->Reorder_selected_ids@;
            let values = command_record(tree).ids_field("selected_ids"@)->0;
            assert(values.len() == ids.len() && values.len() == others.len());
            assert forall|i: int| 0 <= i < ids.len() implies ids[i] == others[i] by {
                assert(values[i] == ids[i].0);
                assert(values[i] == others[i].0);
            }
            assert(ids =~= others);
            assert(one.tree()->Table_0 =~= other.tree()->Table_0);
        },
        IpcCommand::Pull { .. } => {
            assert(other is Pull);
            assert(one.tree()->Table_0 =~= other.tree()->Table_0);
        },
        IpcCommand::Push { .. } => {
            assert(other is Push);
            assert(one.tree()->Table_0 =~= other.tree()->Table_0);
        },
        IpcCommand::Reconcile { .. } => {
            assert(other is Reconcile);
            assert(one.tree()->Table_0 =~= other.tree()->Table_0);
        },
        IpcCommand::Update { .. } => {
            assert(other is Update);
            assert(one.tree()->Table_0 =~= other.tree()->Table_0);
        },
        IpcCommand::WorktreeCreate { .. } => {
            assert(other is WorktreeCreate);
            assert(one.tree()->Table_0 =~= other.tree()->Table_0);
        },
        IpcCommand::WorktreeRemove { .. } => {
            assert(other is WorktreeRemove);
            assert(one.tree()->Table_0 =~= other.tree()->Table_0);
        },
        IpcCommand::RemoveRepository { .. } => {
            assert(other is RemoveRepository);
            assert(one.tree()->Table_0 =~= other.tree()->Table_0);
        },
        IpcCommand::ApplyConfiguration { .. } => {
            assert(other is ApplyConfiguration);
            assert(one.tree()->Table_0 =~= other.tree()->Table_0);
        },
        IpcCommand::ValidateConfiguration { .. } => {
            assert(other is ValidateConfiguration);
            assert(one.tree()->Table_0 =~= other.tree()->Table_0);
        },
        IpcCommand::RegenerateConfiguration { .. } => {
            assert(other is RegenerateConfiguration);
            assert(one.tree()->Table_0 =~= other.tree()->Table_0);
        },
        IpcCommand::ResetSlot { .. } => {
            assert(other is ResetSlot);
            assert(one.tree()->Table_0 =~= other.tree()->Table_0);
        },
        IpcCommand::SnapshotCache { .. } => {
            assert(other is SnapshotCache);
            assert(one.tree()->Table_0 =~= other.tree()->Table_0);
        },
        IpcCommand::PurgeCache { .. } => {
            assert(other is PurgeCache);
            assert(one.tree()->Table_0 =~= other.tree()->Table_0);
        },
        IpcCommand::StorageStatus => {
            assert(other is StorageStatus);
        },
        IpcCommand::StoragePrune { .. } => {
            assert(other is StoragePrune);
            assert(one.tree()->Table_0 =~= other.tree()->Table_0);
        },
        IpcCommand::ArtifactPin { .. } => {
            assert(other is ArtifactPin);
            assert(one.tree()->Table_0 =~= other.tree()->Table_0);
        },
        IpcCommand::ArtifactPrune { .. } => {
            assert(other is ArtifactPrune);
            assert(one.tree()->Table_0 =~= other.tree()->Table_0);
        },
        IpcCommand::Logs { .. } => {
            assert(other is Logs);
            assert(one.tree()->Table_0 =~= other.tree()->Table_0);
        },
        IpcCommand::Doctor { .. } => {
            assert(other is Doctor);
            assert(one.tree()->Table_0 =~= other.tree()->Table_0);
        },
        IpcCommand::Pause { .. } => {
            assert(other is Pause);
            assert(one.tree()->Table_0 =~= other.tree()->Table_0);
        },
        IpcCommand::Resume { .. } => {
            assert(other is Resume);
            assert(one.tree()->Table_0 =~= other.tree()->Table_0);
        },
        IpcCommand::ReloadEnvironment { .. } => {
            assert(other is ReloadEnvironment);
            assert(one.tree()->Table_0 =~= other.tree()->Table_0);
        },
    }
}

} // verus!
