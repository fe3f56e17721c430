//! The life cycles of queue items and buildsets.

use crate::error::DomainError;
use vstd::prelude::*;

verus! {

/// Whether a repository processes its queue.
#[derive(Clone, Copy, Debug, PartialEq, Eq, Structural)]
pub enum RepositoryExecutionState {
    Active,
    Paused,
    ConfigurationPending,
    Blocked,
}

/// Where a queue item stands.
#[derive(Clone, Copy, Debug, PartialEq, Eq, Structural)]
pub enum QueueItemState {
    Constructing,
    Queued,
    Preparing,
    Running,
    Ready,
    Promoting,
    PromotedLocalPushPending,
    Promoted,
    ExternallyIntegrated,
    Failed,
    MergeConflict,
    DependencyFailed,
    Canceled,
    Superseded,
    InfrastructureExhausted,
    CheckPassed,
    CheckFailed,
}

/// What happens to a queue item.
#[derive(Clone, Copy, Debug, PartialEq, Eq, Structural)]
pub enum ItemEvent {
    GenerationPrepared,
    MergeConflict,
    PreparationStarted,
    WorkerStarted,
    InfrastructureRetry,
    InfrastructureExhausted,
    BuildPassed,
    VotingFailed,
    InputsChanged,
    Canceled,
    Superseded,
    DependencyLost,
    ExternallyIntegrated,
    PromotionStarted,
    PromotionDeferred,
    PromotedWithoutPush,
    PromotedWithPush,
    PushCompleted,
    PushAbandoned,
    IndependentCheckPassed,
    IndependentCheckFailed,
}

impl RepositoryExecutionState {
    /// The name of the variant.
    pub open spec fn name(self) -> Seq<char> {
        match self {
            RepositoryExecutionState::Active => "Active"@,
            RepositoryExecutionState::Paused => "Paused"@,
            RepositoryExecutionState::ConfigurationPending => "ConfigurationPending"@,
            RepositoryExecutionState::Blocked => "Blocked"@,
        }
    }

    /// The name of the variant.
    pub fn variant_name(self) -> (r: &'static str)
        ensures
            r@ == self.name(),
    {
        match self {
            RepositoryExecutionState::Active => "Active",
            RepositoryExecutionState::Paused => "Paused",
            RepositoryExecutionState::ConfigurationPending => "ConfigurationPending",
            RepositoryExecutionState::Blocked => "Blocked",
        }
    }
}

impl QueueItemState {
    /// The name of the state on the wire and in the store.
    pub open spec fn wire_name(self) -> Seq<char> {
        match self {
            QueueItemState::Constructing => "constructing"@,
            QueueItemState::Queued => "queued"@,
            QueueItemState::Preparing => "preparing"@,
            QueueItemState::Running => "running"@,
            QueueItemState::Ready => "ready"@,
            QueueItemState::Promoting => "promoting"@,
            QueueItemState::PromotedLocalPushPending => "promoted-local-push-pending"@,
            QueueItemState::Promoted => "promoted"@,
            QueueItemState::ExternallyIntegrated => "externally-integrated"@,
            QueueItemState::Failed => "failed"@,
            QueueItemState::MergeConflict => "merge-conflict"@,
            QueueItemState::DependencyFailed => "dependency-failed"@,
            QueueItemState::Canceled => "canceled"@,
            QueueItemState::Superseded => "superseded"@,
            QueueItemState::InfrastructureExhausted => "infrastructure-exhausted"@,
            QueueItemState::CheckPassed => "check-passed"@,
            QueueItemState::CheckFailed => "check-failed"@,
        }
    }

    /// The name of the state on the wire and in the store.
    pub fn as_str(self) -> (r: &'static str)
        ensures
            r@ == self.wire_name(),
    {
        match self {
            QueueItemState::Constructing => "constructing",
            QueueItemState::Queued => "queued",
            QueueItemState::Preparing => "preparing",
            QueueItemState::Running => "running",
            QueueItemState::Ready => "ready",
            QueueItemState::Promoting => "promoting",
            QueueItemState::PromotedLocalPushPending => "promoted-local-push-pending",
            QueueItemState::Promoted => "promoted",
            QueueItemState::ExternallyIntegrated => "externally-integrated",
            QueueItemState::Failed => "failed",
            QueueItemState::MergeConflict => "merge-conflict",
            QueueItemState::DependencyFailed => "dependency-failed",
            QueueItemState::Canceled => "canceled",
            QueueItemState::Superseded => "superseded",
            QueueItemState::InfrastructureExhausted => "infrastructure-exhausted",
            QueueItemState::CheckPassed => "check-passed",
            QueueItemState::CheckFailed => "check-failed",
        }
    }

    /// The name of the variant.
    pub open spec fn name(self) -> Seq<char> {
        match self {
            QueueItemState::Constructing => "Constructing"@,
            QueueItemState::Queued => "Queued"@,
            QueueItemState::Preparing => "Preparing"@,
            QueueItemState::Running => "Running"@,
            QueueItemState::Ready => "Ready"@,
            QueueItemState::Promoting => "Promoting"@,
            QueueItemState::PromotedLocalPushPending => "PromotedLocalPushPending"@,
            QueueItemState::Promoted => "Promoted"@,
            QueueItemState::ExternallyIntegrated => "ExternallyIntegrated"@,
            QueueItemState::Failed => "Failed"@,
            QueueItemState::MergeConflict => "MergeConflict"@,
            QueueItemState::DependencyFailed => "DependencyFailed"@,
            QueueItemState::Canceled => "Canceled"@,
            QueueItemState::Superseded => "Superseded"@,
            QueueItemState::InfrastructureExhausted => "InfrastructureExhausted"@,
            QueueItemState::CheckPassed => "CheckPassed"@,
            QueueItemState::CheckFailed => "CheckFailed"@,
        }
    }

    /// The name of the variant.
    pub fn variant_name(self) -> (r: &'static str)
        ensures
            r@ == self.name(),
    {
        match self {
            QueueItemState::Constructing => "Constructing",
            QueueItemState::Queued => "Queued",
            QueueItemState::Preparing => "Preparing",
            QueueItemState::Running => "Running",
            QueueItemState::Ready => "Ready",
            QueueItemState::Promoting => "Promoting",
            QueueItemState::PromotedLocalPushPending => "PromotedLocalPushPending",
            QueueItemState::Promoted => "Promoted",
            QueueItemState::ExternallyIntegrated => "ExternallyIntegrated",
            QueueItemState::Failed => "Failed",
            QueueItemState::MergeConflict => "MergeConflict",
            QueueItemState::DependencyFailed => "DependencyFailed",
            QueueItemState::Canceled => "Canceled",
            QueueItemState::Superseded => "Superseded",
            QueueItemState::InfrastructureExhausted => "InfrastructureExhausted",
            QueueItemState::CheckPassed => "CheckPassed",
            QueueItemState::CheckFailed => "CheckFailed",
        }
    }

    /// No event leads out of the state.
    pub open spec fn terminal(self) -> bool {
        !self.awaiting_verdict() && self != QueueItemState::Promoting && self
            != QueueItemState::PromotedLocalPushPending
    }

    /// The item has not been handed to promotion yet, so it can still be
    /// rebuilt, canceled, superseded or dropped.
    pub open spec fn awaiting_verdict(self) -> bool {
        ||| self == QueueItemState::Constructing
        ||| self == QueueItemState::Queued
        ||| self == QueueItemState::Preparing
        ||| self == QueueItemState::Running
        ||| self == QueueItemState::Ready
    }

    /// Whether the item has reached its end.
    pub fn is_terminal(self) -> (r: bool)
        ensures
            r == self.terminal(),
    {
        match self {
            QueueItemState::Promoted
            | QueueItemState::ExternallyIntegrated
            | QueueItemState::Failed
            | QueueItemState::MergeConflict
            | QueueItemState::DependencyFailed
            | QueueItemState::Canceled
            | QueueItemState::Superseded
            | QueueItemState::InfrastructureExhausted
            | QueueItemState::CheckPassed
            | QueueItemState::CheckFailed => true,
            _ => false,
        }
    }

    /// The state that the event leads to, if the event is allowed.
    pub open spec fn next(self, event: ItemEvent) -> Option<QueueItemState> {
        match event {
            ItemEvent::GenerationPrepared => if self == QueueItemState::Constructing {
                Some(QueueItemState::Queued)
            } else {
                None
            },
            ItemEvent::MergeConflict => if self == QueueItemState::Constructing {
                Some(QueueItemState::MergeConflict)
            } else {
                None
            },
            ItemEvent::PreparationStarted => if self == QueueItemState::Queued {
                Some(QueueItemState::Preparing)
            } else {
                None
            },
            ItemEvent::WorkerStarted => if self == QueueItemState::Preparing {
                Some(QueueItemState::Running)
            } else {
                None
            },
            ItemEvent::InfrastructureRetry => if self == QueueItemState::Preparing || self
                == QueueItemState::Running {
                Some(QueueItemState::Queued)
            } else {
                None
            },
            ItemEvent::InfrastructureExhausted => if self == QueueItemState::Queued || self
                == QueueItemState::Preparing || self == QueueItemState::Running {
                Some(QueueItemState::InfrastructureExhausted)
            } else {
                None
            },
            ItemEvent::BuildPassed => if self == QueueItemState::Running {
                Some(QueueItemState::Ready)
            } else {
                None
            },
            ItemEvent::VotingFailed => if self == QueueItemState::Running {
                Some(QueueItemState::Failed)
            } else {
                None
            },
            ItemEvent::IndependentCheckPassed => if self == QueueItemState::Running {
                Some(QueueItemState::CheckPassed)
            } else {
                None
            },
            ItemEvent::IndependentCheckFailed => if self == QueueItemState::Running {
                Some(QueueItemState::CheckFailed)
            } else {
                None
            },
            ItemEvent::PromotionStarted => if self == QueueItemState::Ready {
                Some(QueueItemState::Promoting)
            } else {
                None
            },
            ItemEvent::PromotionDeferred => if self == QueueItemState::Promoting {
                Some(QueueItemState::Ready)
            } else {
                None
            },
            ItemEvent::PromotedWithoutPush => if self == QueueItemState::Promoting {
                Some(QueueItemState::Promoted)
            } else {
                None
            },
            ItemEvent::PromotedWithPush => if self == QueueItemState::Promoting {
                Some(QueueItemState::PromotedLocalPushPending)
            } else {
                None
            },
            ItemEvent::PushCompleted | ItemEvent::PushAbandoned => if self
                == QueueItemState::PromotedLocalPushPending {
                Some(QueueItemState::Promoted)
            } else {
                None
            },
            ItemEvent::InputsChanged => if self.awaiting_verdict() {
                Some(QueueItemState::Constructing)
            } else {
                None
            },
            ItemEvent::Canceled => if self.awaiting_verdict() {
                Some(QueueItemState::Canceled)
            } else {
                None
            },
            ItemEvent::Superseded => if self.awaiting_verdict() {
                Some(QueueItemState::Superseded)
            } else {
                None
            },
            ItemEvent::DependencyLost => if self.awaiting_verdict() {
                Some(QueueItemState::DependencyFailed)
            } else {
                None
            },
            ItemEvent::ExternallyIntegrated => if self.awaiting_verdict() {
                Some(QueueItemState::ExternallyIntegrated)
            } else {
                None
            },
        }
    }

    /// Applies an event; one that the state does not allow is refused.
    pub fn transition(self, event: ItemEvent) -> (r: Result<QueueItemState, DomainError>)
        ensures
            r is Ok <==> self.next(event) is Some,
            r matches Ok(state) ==> self.next(event) == Some(state),
            r matches Err(error) ==> error matches DomainError::InvalidItemTransition {
                from,
                event: name,
            } && from == self && name@ == event.name(),
    {
        let next = match (self, event) {
            (QueueItemState::Constructing, ItemEvent::GenerationPrepared) => QueueItemState::Queued,
            (QueueItemState::Constructing, ItemEvent::MergeConflict) => QueueItemState::MergeConflict,
            (QueueItemState::Queued, ItemEvent::PreparationStarted) => QueueItemState::Preparing,
            (QueueItemState::Preparing, ItemEvent::WorkerStarted) => QueueItemState::Running,
            (
                QueueItemState::Preparing | QueueItemState::Running,
                ItemEvent::InfrastructureRetry,
            ) => QueueItemState::Queued,
            (
                QueueItemState::Queued | QueueItemState::Preparing | QueueItemState::Running,
                ItemEvent::InfrastructureExhausted,
            ) => QueueItemState::InfrastructureExhausted,
            (QueueItemState::Running, ItemEvent::BuildPassed) => QueueItemState::Ready,
            (QueueItemState::Running, ItemEvent::VotingFailed) => QueueItemState::Failed,
            (QueueItemState::Running, ItemEvent::IndependentCheckPassed) => QueueItemState::CheckPassed,
            (QueueItemState::Running, ItemEvent::IndependentCheckFailed) => QueueItemState::CheckFailed,
            (QueueItemState::Ready, ItemEvent::PromotionStarted) => QueueItemState::Promoting,
            (QueueItemState::Promoting, ItemEvent::PromotionDeferred) => QueueItemState::Ready,
            (QueueItemState::Promoting, ItemEvent::PromotedWithoutPush) => QueueItemState::Promoted,
            (
                QueueItemState::Promoting,
                ItemEvent::PromotedWithPush,
            ) => QueueItemState::PromotedLocalPushPending,
            (
                QueueItemState::PromotedLocalPushPending,
                ItemEvent::PushCompleted | ItemEvent::PushAbandoned,
            ) => QueueItemState::Promoted,
            (
                QueueItemState::Constructing
                | QueueItemState::Queued
                | QueueItemState::Preparing
                | QueueItemState::Running
                | QueueItemState::Ready,
                ItemEvent::InputsChanged,
            ) => QueueItemState::Constructing,
            (
                QueueItemState::Constructing
                | QueueItemState::Queued
                | QueueItemState::Preparing
                | QueueItemState::Running
                | QueueItemState::Ready,
                ItemEvent::Canceled,
            ) => QueueItemState::Canceled,
            (
                QueueItemState::Constructing
                | QueueItemState::Queued
                | QueueItemState::Preparing
                | QueueItemState::Running
                | QueueItemState::Ready,
                ItemEvent::Superseded,
            ) => QueueItemState::Superseded,
            (
                QueueItemState::Constructing
                | QueueItemState::Queued
                | QueueItemState::Preparing
                | QueueItemState::Running
                | QueueItemState::Ready,
                ItemEvent::DependencyLost,
            ) => QueueItemState::DependencyFailed,
            (
                QueueItemState::Constructing
                | QueueItemState::Queued
                | QueueItemState::Preparing
                | QueueItemState::Running
                | QueueItemState::Ready,
                ItemEvent::ExternallyIntegrated,
            ) => QueueItemState::ExternallyIntegrated,
            _ => {
                return Err(
                    DomainError::InvalidItemTransition {
                        from: self,
                        event: event.variant_name().to_owned(),
                    },
                );
            },
        };
        Ok(next)
    }
}

impl ItemEvent {
    /// The name of the variant.
    pub open spec fn name(self) -> Seq<char> {
        match self {
            ItemEvent::GenerationPrepared => "GenerationPrepared"@,
            ItemEvent::MergeConflict => "MergeConflict"@,
            ItemEvent::PreparationStarted => "PreparationStarted"@,
            ItemEvent::WorkerStarted => "WorkerStarted"@,
            ItemEvent::InfrastructureRetry => "InfrastructureRetry"@,
            ItemEvent::InfrastructureExhausted => "InfrastructureExhausted"@,
            ItemEvent::BuildPassed => "BuildPassed"@,
            ItemEvent::VotingFailed => "VotingFailed"@,
            ItemEvent::InputsChanged => "InputsChanged"@,
            ItemEvent::Canceled => "Canceled"@,
            ItemEvent::Superseded => "Superseded"@,
            ItemEvent::DependencyLost => "DependencyLost"@,
            ItemEvent::ExternallyIntegrated => "ExternallyIntegrated"@,
            ItemEvent::PromotionStarted => "PromotionStarted"@,
            ItemEvent::PromotionDeferred => "PromotionDeferred"@,
            ItemEvent::PromotedWithoutPush => "PromotedWithoutPush"@,
            ItemEvent::PromotedWithPush => "PromotedWithPush"@,
            ItemEvent::PushCompleted => "PushCompleted"@,
            ItemEvent::PushAbandoned => "PushAbandoned"@,
            ItemEvent::IndependentCheckPassed => "IndependentCheckPassed"@,
            ItemEvent::IndependentCheckFailed => "IndependentCheckFailed"@,
        }
    }

    /// The name of the variant.
    pub fn variant_name(self) -> (r: &'static str)
        ensures
            r@ == self.name(),
    {
        match self {
            ItemEvent::GenerationPrepared => "GenerationPrepared",
            ItemEvent::MergeConflict => "MergeConflict",
            ItemEvent::PreparationStarted => "PreparationStarted",
            ItemEvent::WorkerStarted => "WorkerStarted",
            ItemEvent::InfrastructureRetry => "InfrastructureRetry",
            ItemEvent::InfrastructureExhausted => "InfrastructureExhausted",
            ItemEvent::BuildPassed => "BuildPassed",
            ItemEvent::VotingFailed => "VotingFailed",
            ItemEvent::InputsChanged => "InputsChanged",
            ItemEvent::Canceled => "Canceled",
            ItemEvent::Superseded => "Superseded",
            ItemEvent::DependencyLost => "DependencyLost",
            ItemEvent::ExternallyIntegrated => "ExternallyIntegrated",
            ItemEvent::PromotionStarted => "PromotionStarted",
            ItemEvent::PromotionDeferred => "PromotionDeferred",
            ItemEvent::PromotedWithoutPush => "PromotedWithoutPush",
            ItemEvent::PromotedWithPush => "PromotedWithPush",
            ItemEvent::PushCompleted => "PushCompleted",
            ItemEvent::PushAbandoned => "PushAbandoned",
            ItemEvent::IndependentCheckPassed => "IndependentCheckPassed",
            ItemEvent::IndependentCheckFailed => "IndependentCheckFailed",
        }
    }

}

/// Where the execution of a step graph stands.
#[derive(Clone, Copy, Debug, PartialEq, Eq, Structural)]
pub enum BuildsetState {
    Pending,
    Preparing,
    Running,
    Passed,
    PassedWithWarnings,
    Failed,
    Interrupted,
    Canceled,
    Invalidated,
    InfrastructureExhausted,
}

/// What happens to the execution of a step graph.
#[derive(Clone, Copy, Debug, PartialEq, Eq, Structural)]
pub enum BuildsetEvent {
    PreparationStarted,
    WorkerStarted,
    Passed,
    PassedWithWarnings,
    Failed,
    Canceled,
    Invalidated,
    Interrupted,
    InfrastructureExhausted,
}

impl BuildsetEvent {
    /// The name of the variant.
    pub open spec fn name(self) -> Seq<char> {
        match self {
            BuildsetEvent::PreparationStarted => "PreparationStarted"@,
            BuildsetEvent::WorkerStarted => "WorkerStarted"@,
            BuildsetEvent::Passed => "Passed"@,
            BuildsetEvent::PassedWithWarnings => "PassedWithWarnings"@,
            BuildsetEvent::Failed => "Failed"@,
            BuildsetEvent::Canceled => "Canceled"@,
            BuildsetEvent::Invalidated => "Invalidated"@,
            BuildsetEvent::Interrupted => "Interrupted"@,
            BuildsetEvent::InfrastructureExhausted => "InfrastructureExhausted"@,
        }
    }

    /// The name of the variant.
    pub fn variant_name(self) -> (r: &'static str)
        ensures
            r@ == self.name(),
    {
        match self {
            BuildsetEvent::PreparationStarted => "PreparationStarted",
            BuildsetEvent::WorkerStarted => "WorkerStarted",
            BuildsetEvent::Passed => "Passed",
            BuildsetEvent::PassedWithWarnings => "PassedWithWarnings",
            BuildsetEvent::Failed => "Failed",
            BuildsetEvent::Canceled => "Canceled",
            BuildsetEvent::Invalidated => "Invalidated",
            BuildsetEvent::Interrupted => "Interrupted",
            BuildsetEvent::InfrastructureExhausted => "InfrastructureExhausted",
        }
    }

}

impl BuildsetState {
    /// The name of the variant.
    pub open spec fn name(self) -> Seq<char> {
        match self {
            BuildsetState::Pending => "Pending"@,
            BuildsetState::Preparing => "Preparing"@,
            BuildsetState::Running => "Running"@,
            BuildsetState::Passed => "Passed"@,
            BuildsetState::PassedWithWarnings => "PassedWithWarnings"@,
            BuildsetState::Failed => "Failed"@,
            BuildsetState::Interrupted => "Interrupted"@,
            BuildsetState::Canceled => "Canceled"@,
            BuildsetState::Invalidated => "Invalidated"@,
            BuildsetState::InfrastructureExhausted => "InfrastructureExhausted"@,
        }
    }

    /// The name of the variant.
    pub fn variant_name(self) -> (r: &'static str)
        ensures
            r@ == self.name(),
    {
        match self {
            BuildsetState::Pending => "Pending",
            BuildsetState::Preparing => "Preparing",
            BuildsetState::Running => "Running",
            BuildsetState::Passed => "Passed",
            BuildsetState::PassedWithWarnings => "PassedWithWarnings",
            BuildsetState::Failed => "Failed",
            BuildsetState::Interrupted => "Interrupted",
            BuildsetState::Canceled => "Canceled",
            BuildsetState::Invalidated => "Invalidated",
            BuildsetState::InfrastructureExhausted => "InfrastructureExhausted",
        }
    }

    /// The execution has come to an end.
    pub open spec fn terminal(self) -> bool {
        self != BuildsetState::Pending && self != BuildsetState::Preparing && self
            != BuildsetState::Running
    }

    /// Whether the execution has come to an end.
    pub fn is_terminal(self) -> (r: bool)
        ensures
            r == self.terminal(),
    {
        match self {
            BuildsetState::Pending | BuildsetState::Preparing | BuildsetState::Running => false,
            _ => true,
        }
    }

    /// The state that the event leads to, if the event is allowed.
    pub open spec fn next(self, event: BuildsetEvent) -> Option<BuildsetState> {
        let underway = self == BuildsetState::Preparing || self == BuildsetState::Running;
        match event {
            BuildsetEvent::PreparationStarted => if self == BuildsetState::Pending {
                Some(BuildsetState::Preparing)
            } else {
                None
            },
            BuildsetEvent::WorkerStarted => if self == BuildsetState::Preparing {
                Some(BuildsetState::Running)
            } else {
                None
            },
            BuildsetEvent::Passed => if self == BuildsetState::Running {
                Some(BuildsetState::Passed)
            } else {
                None
            },
            BuildsetEvent::PassedWithWarnings => if self == BuildsetState::Running {
                Some(BuildsetState::PassedWithWarnings)
            } else {
                None
            },
            BuildsetEvent::Failed => if self == BuildsetState::Running {
                Some(BuildsetState::Failed)
            } else {
                None
            },
            BuildsetEvent::Canceled => if !self.terminal() {
                Some(BuildsetState::Canceled)
            } else {
                None
            },
            BuildsetEvent::Invalidated => if underway || self == BuildsetState::Passed || self
                == BuildsetState::PassedWithWarnings {
                Some(BuildsetState::Invalidated)
            } else {
                None
            },
            BuildsetEvent::Interrupted => if underway {
                Some(BuildsetState::Interrupted)
            } else {
                None
            },
            BuildsetEvent::InfrastructureExhausted => if underway {
                Some(BuildsetState::InfrastructureExhausted)
            } else {
                None
            },
        }
    }

    /// Applies an event; one that the state does not allow is refused.
    pub fn transition(self, event: BuildsetEvent) -> (r: Result<BuildsetState, DomainError>)
        ensures
            r is Ok <==> self.next(event) is Some,
            r matches Ok(state) ==> self.next(event) == Some(state),
            r matches Err(error) ==> error matches DomainError::InvalidBuildsetTransition {
                from,
                event: name,
            } && from == self && name@ == event.name(),
    {
        let next = match (self, event) {
            (BuildsetState::Pending, BuildsetEvent::PreparationStarted) => BuildsetState::Preparing,
            (BuildsetState::Preparing, BuildsetEvent::WorkerStarted) => BuildsetState::Running,
            (
                BuildsetState::Pending | BuildsetState::Preparing,
                BuildsetEvent::Canceled,
            ) => BuildsetState::Canceled,
            (
                BuildsetState::Preparing | BuildsetState::Running,
                BuildsetEvent::Invalidated,
            ) => BuildsetState::Invalidated,
            (
                BuildsetState::Preparing | BuildsetState::Running,
                BuildsetEvent::Interrupted,
            ) => BuildsetState::Interrupted,
            (
                BuildsetState::Preparing | BuildsetState::Running,
                BuildsetEvent::InfrastructureExhausted,
            ) => BuildsetState::InfrastructureExhausted,
            (BuildsetState::Running, BuildsetEvent::Passed) => BuildsetState::Passed,
            (
                BuildsetState::Running,
                BuildsetEvent::PassedWithWarnings,
            ) => BuildsetState::PassedWithWarnings,
            (BuildsetState::Running, BuildsetEvent::Failed) => BuildsetState::Failed,
            (BuildsetState::Running, BuildsetEvent::Canceled) => BuildsetState::Canceled,
            (
                BuildsetState::Passed | BuildsetState::PassedWithWarnings,
                BuildsetEvent::Invalidated,
            ) => BuildsetState::Invalidated,
            _ => {
                return Err(
                    DomainError::InvalidBuildsetTransition {
                        from: self,
                        event: event.variant_name().to_owned(),
                    },
                );
            },
        };
        Ok(next)
    }
}

/// How a repository relates to its remote.
#[derive(Clone, Copy, Debug, PartialEq, Eq, Structural)]
pub enum RemoteState {
    Disabled,
    PreflightPending,
    Ready,
    Pushing,
    PushBlocked,
    Synchronized,
    Abandoned,
}

/// How far the cleanup after a promotion has come.
#[derive(Clone, Copy, Debug, PartialEq, Eq, Structural)]
pub enum CleanupState {
    NotEligible,
    Pending,
    Running,
    Completed,
    NeedsAttention,
}

/// What becomes of a source worktree after promotion.
#[derive(Clone, Copy, Debug, PartialEq, Eq, Structural)]
pub enum CleanupPolicy {
    Automatic,
    RetainWorktree,
}

impl Default for CleanupPolicy {
    fn default() -> (r: CleanupPolicy)
        ensures
            r == CleanupPolicy::Automatic,
    {
        CleanupPolicy::Automatic
    }
}

/// A terminal item never reopens: every event is refused.
pub proof fn law_terminal_items_never_reopen(state: QueueItemState, event: ItemEvent)
    requires
        state.terminal(),
    ensures
        state.next(event) is None,
{
}

/// Every item that is not terminal can still move.
pub proof fn law_open_items_can_move(state: QueueItemState)
    requires
        !state.terminal(),
    ensures
        exists|event: ItemEvent| state.next(event) is Some,
{
    if state.awaiting_verdict() {
        assert(state.next(ItemEvent::Canceled) is Some);
    } else if state == QueueItemState::Promoting {
        assert(state.next(ItemEvent::PromotionDeferred) is Some);
    } else {
        assert(state.next(ItemEvent::PushCompleted) is Some);
    }
}

/// An item is promoted only through the promotion state, which is entered only
/// from a passed build.
pub proof fn law_promotion_follows_a_passed_build(state: QueueItemState, event: ItemEvent)
    ensures
        state.next(event) == Some(QueueItemState::Promoted) ==> state
            == QueueItemState::Promoting || state == QueueItemState::PromotedLocalPushPending,
        state.next(event) == Some(QueueItemState::PromotedLocalPushPending) ==> state
            == QueueItemState::Promoting,
        state.next(event) == Some(QueueItemState::Promoting) ==> state == QueueItemState::Ready,
        state.next(event) == Some(QueueItemState::Ready) ==> state == QueueItemState::Running
            || state == QueueItemState::Promoting,
{
}

/// A finished buildset never runs again; the one event left is that a pass is
/// invalidated.
pub proof fn law_finished_buildsets_stay_finished(state: BuildsetState, event: BuildsetEvent)
    requires
        state.terminal(),
    ensures
        state.next(event) matches Some(next) ==> next == BuildsetState::Invalidated && event
            == BuildsetEvent::Invalidated && (state == BuildsetState::Passed || state
            == BuildsetState::PassedWithWarnings),
{
}

} // verus!
