//! The recorded history of a repository.

use crate::ids::{CommandId, EventId, RepositoryId};
use crate::model::Timestamp;
use vstd::prelude::*;

verus! {

/// Who caused an event.
#[derive(Clone, Copy, Debug, PartialEq, Eq, Structural)]
pub enum Actor {
    App,
    Cli,
    Ui,
    Recovery,
}

/// One entry of a repository's history; the payload is JSON text.
#[derive(Clone, Debug, PartialEq, Eq)]
pub struct DomainEvent {
    pub id: EventId,
    pub repository_id: RepositoryId,
    pub sequence: u64,
    pub actor: Actor,
    pub command_id: Option<CommandId>,
    pub kind: String,
    pub payload: String,
    pub created_at: Timestamp,
}

} // verus!
