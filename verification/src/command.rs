//! Commands that clients send to a repository.

use crate::ids::{ClientInstanceId, CommandId, QueueItemId, RepositoryId};
use vstd::prelude::*;

verus! {

/// A command with what is needed to route it and to recognise a repetition.
#[derive(Clone, Debug, PartialEq, Eq)]
pub struct CommandEnvelope<T> {
    pub client_instance_id: ClientInstanceId,
    pub command_id: CommandId,
    pub repository_id: RepositoryId,
    pub expected_revision: Option<u64>,
    pub command: T,
}

/// What a client can ask of a repository.
#[derive(Clone, Debug, PartialEq, Eq)]
pub enum RepositoryCommand {
    SubmitCandidate { revision: String },
    Approve { revision: String },
    AuthorizeCandidate { item_id: QueueItemId },
    Cancel { item_id: QueueItemId },
    Retry { item_id: QueueItemId, cold: bool },
    Reorder { ordered_item_ids: Vec<QueueItemId> },
    Pause,
    Resume,
    ApplyConfiguration { candidate_digest: String },
    ReloadEnvironment,
    RetryPush,
    Reconcile { action: String },
}

} // verus!
