//! Errors of the queue and its life cycles.

use crate::ids::QueueItemId;
#[allow(unused_imports)]
use crate::outside::uuid_text;
use crate::state::{BuildsetState, QueueItemState, RepositoryExecutionState};
use crate::text::decimal_string;
#[allow(unused_imports)]
use crate::text::decimal;
use vstd::prelude::*;

verus! {

/// Why a domain operation was refused.
#[allow(inconsistent_fields)]
#[derive(Clone, Debug, PartialEq, Eq)]
pub enum DomainError {
    InvalidOidLength { expected: usize, actual: usize },
    InvalidOid(String),
    RevisionConflict { expected: u64, actual: u64 },
    ItemNotFound(QueueItemId),
    DuplicateSource(QueueItemId),
    DependencyOrder,
    InvalidItemTransition { from: QueueItemState, event: String },
    InvalidBuildsetTransition { from: BuildsetState, event: String },
    RepositoryUnavailable(RepositoryExecutionState),
    NotQueueHead,
    InvalidCertificate(String),
    PromotionParentMismatch,
    InvalidInput(String),
}

impl DomainError {
    /// The message shown for the error.
    pub open spec fn text(self) -> Seq<char> {
        match self {
            DomainError::InvalidOidLength { expected, actual } =>
                "invalid object id length: expected "@ + decimal(expected as nat)
                    + " bytes/characters, got "@ + decimal(actual as nat),
            DomainError::InvalidOid(value) => "invalid hexadecimal object id: "@ + value@,
            DomainError::RevisionConflict { expected, actual } =>
                "queue revision conflict: expected "@ + decimal(expected as nat)
                    + ", current revision is "@ + decimal(actual as nat),
            DomainError::ItemNotFound(id) => "queue item "@ + uuid_text(id.0) + " was not found"@,
            DomainError::DuplicateSource(id) =>
                "source object is already active as queue item "@ + uuid_text(id.0),
            DomainError::DependencyOrder => "hard dependency cycle or invalid queue order"@,
            DomainError::InvalidItemTransition { from, event } =>
                "transition from queue item state "@ + from.name() + " on "@ + event@
                    + " is not allowed"@,
            DomainError::InvalidBuildsetTransition { from, event } =>
                "transition from buildset state "@ + from.name() + " on "@ + event@
                    + " is not allowed"@,
            DomainError::RepositoryUnavailable(state) => "repository is "@ + state.name()
                + "; this operation requires an active repository"@,
            DomainError::NotQueueHead => "promotion requires the current queue head"@,
            DomainError::InvalidCertificate(reason) =>
                "promotion certificate does not match current validation inputs: "@ + reason@,
            DomainError::PromotionParentMismatch =>
                "promotion parent does not equal the observed master object"@,
            DomainError::InvalidInput(reason) => "invalid domain input: "@ + reason@,
        }
    }

    /// The message shown for the error.
    pub fn message(&self) -> (r: String)
        ensures
            r@ == self.text(),
    {
        match self {
            DomainError::InvalidOidLength { expected, actual } => {
                "invalid object id length: expected ".to_owned().concat(
                    decimal_string(*expected as u64).as_str(),
                ).concat(" bytes/characters, got ").concat(decimal_string(*actual as u64).as_str())
            },
            DomainError::InvalidOid(value) => {
                "invalid hexadecimal object id: ".to_owned().concat(value.as_str())
            },
            DomainError::RevisionConflict { expected, actual } => {
                "queue revision conflict: expected ".to_owned().concat(
                    decimal_string(*expected).as_str(),
                ).concat(", current revision is ").concat(decimal_string(*actual).as_str())
            },
            DomainError::ItemNotFound(id) => {
                "queue item ".to_owned().concat(id.to_text().as_str()).concat(" was not found")
            },
            DomainError::DuplicateSource(id) => {
                "source object is already active as queue item ".to_owned().concat(
                    id.to_text().as_str(),
                )
            },
            DomainError::DependencyOrder => {
                "hard dependency cycle or invalid queue order".to_owned()
            },
            DomainError::InvalidItemTransition { from, event } => {
                "transition from queue item state ".to_owned().concat(from.variant_name()).concat(
                    " on ",
                ).concat(event.as_str()).concat(" is not allowed")
            },
            DomainError::InvalidBuildsetTransition { from, event } => {
                "transition from buildset state ".to_owned().concat(from.variant_name()).concat(
                    " on ",
                ).concat(event.as_str()).concat(" is not allowed")
            },
            DomainError::RepositoryUnavailable(state) => {
                "repository is ".to_owned().concat(state.variant_name()).concat(
                    "; this operation requires an active repository",
                )
            },
            DomainError::NotQueueHead => "promotion requires the current queue head".to_owned(),
            DomainError::InvalidCertificate(reason) => {
                "promotion certificate does not match current validation inputs: ".to_owned().concat(
                    reason.as_str(),
                )
            },
            DomainError::PromotionParentMismatch => {
                "promotion parent does not equal the observed master object".to_owned()
            },
            DomainError::InvalidInput(reason) => {
                "invalid domain input: ".to_owned().concat(reason.as_str())
            },
        }
    }
}

} // verus!
