//! What the life cycles of items and builds promise, from the first event to the last.

#[allow(unused_imports)]
use crate::state::{BuildsetEvent, BuildsetState, ItemEvent, QueueItemState};
use vstd::prelude::*;

verus! {

/// Where an item stands after all that has happened to it, if every event was allowed.
pub open spec fn item_after(events: Seq<ItemEvent>) -> Option<QueueItemState>
    decreases events.len(),
{
    if events.len() == 0 {
        Some(QueueItemState::Constructing)
    } else {
        match item_after(events.drop_last()) {
            Some(state) => state.next(events.last()),
            None => None,
        }
    }
}

/// Where a build stands after all that has happened to it, if every event was allowed.
pub open spec fn build_after(events: Seq<BuildsetEvent>) -> Option<BuildsetState>
    decreases events.len(),
{
    if events.len() == 0 {
        Some(BuildsetState::Pending)
    } else {
        match build_after(events.drop_last()) {
            Some(state) => state.next(events.last()),
            None => None,
        }
    }
}

/// The event belongs to the promotion of an item that has passed.
pub open spec fn is_about_promotion(event: ItemEvent) -> bool {
    event == ItemEvent::PromotionStarted || event == ItemEvent::PromotionDeferred || event
        == ItemEvent::PromotedWithoutPush || event == ItemEvent::PromotedWithPush || event
        == ItemEvent::PushCompleted || event == ItemEvent::PushAbandoned
}

/// The item has passed its build and is on its way to the branch, or there.
pub open spec fn has_passed(state: QueueItemState) -> bool {
    state == QueueItemState::Ready || state == QueueItemState::Promoting || state
        == QueueItemState::PromotedLocalPushPending || state == QueueItemState::Promoted
}

/// An item is ready only because its build passed, or because its promotion was put off;
/// and it always is then.
pub proof fn law_only_a_passed_build_makes_ready(state: QueueItemState, event: ItemEvent)
    ensures
        state.next(event) == Some(QueueItemState::Ready) <==> (event == ItemEvent::BuildPassed
            && state == QueueItemState::Running) || (event == ItemEvent::PromotionDeferred && state
            == QueueItemState::Promoting),
{
}

/// A vote, a check or a merge that failed is the end of the item, under the name of what
/// failed, and nothing else gives it that name. What makes one kind of item fail is
/// refused wherever no build runs.
pub proof fn law_failures_are_final(state: QueueItemState, event: ItemEvent)
    ensures
        state.next(event) == Some(QueueItemState::Failed) <==> event == ItemEvent::VotingFailed
            && state == QueueItemState::Running,
        state.next(event) == Some(QueueItemState::CheckFailed) <==> event
            == ItemEvent::IndependentCheckFailed && state == QueueItemState::Running,
        state.next(event) == Some(QueueItemState::MergeConflict) <==> event
            == ItemEvent::MergeConflict && state == QueueItemState::Constructing,
        QueueItemState::Failed.terminal(),
        QueueItemState::CheckFailed.terminal(),
        QueueItemState::MergeConflict.terminal(),
        event == ItemEvent::VotingFailed && state.next(event) is Some ==> state.next(event)
            == Some(QueueItemState::Failed),
        event == ItemEvent::IndependentCheckFailed && state.next(event) is Some ==> state.next(
            event,
        ) == Some(QueueItemState::CheckFailed),
        event == ItemEvent::MergeConflict && state.next(event) is Some ==> state.next(event)
            == Some(QueueItemState::MergeConflict),
{
}

/// A check that passed is the end of an item that is only checked: it is never ready.
pub proof fn law_checks_are_never_promoted(state: QueueItemState, event: ItemEvent)
    ensures
        state.next(event) == Some(QueueItemState::CheckPassed) <==> event
            == ItemEvent::IndependentCheckPassed && state == QueueItemState::Running,
        event == ItemEvent::IndependentCheckPassed && state.next(event) is Some ==> state.next(
            event,
        ) == Some(QueueItemState::CheckPassed),
        QueueItemState::CheckPassed.terminal(),
{
}

/// Each stage of the work is entered from the one before it and by the event that begins it;
/// a retry leads back to the queue, and changed inputs to the very beginning.
pub proof fn law_stages_are_entered_in_order(state: QueueItemState, event: ItemEvent)
    ensures
        state.next(event) == Some(QueueItemState::Queued) <==> (event
            == ItemEvent::GenerationPrepared && state == QueueItemState::Constructing) || (event
            == ItemEvent::InfrastructureRetry && (state == QueueItemState::Preparing || state
            == QueueItemState::Running)),
        state.next(event) == Some(QueueItemState::Preparing) <==> event
            == ItemEvent::PreparationStarted && state == QueueItemState::Queued,
        state.next(event) == Some(QueueItemState::Running) <==> event == ItemEvent::WorkerStarted
            && state == QueueItemState::Preparing,
        state.next(event) == Some(QueueItemState::InfrastructureExhausted) <==> event
            == ItemEvent::InfrastructureExhausted && (state == QueueItemState::Queued || state
            == QueueItemState::Preparing || state == QueueItemState::Running),
        state.next(event) == Some(QueueItemState::Constructing) <==> event
            == ItemEvent::InputsChanged && !state.terminal() && state != QueueItemState::Promoting
            && state != QueueItemState::PromotedLocalPushPending,
{
}

/// The branch is reached only through a promotion, and by the event that says how it ended.
pub proof fn law_promotions_are_entered_in_order(state: QueueItemState, event: ItemEvent)
    ensures
        state.next(event) == Some(QueueItemState::Promoting) <==> event
            == ItemEvent::PromotionStarted && state == QueueItemState::Ready,
        state.next(event) == Some(QueueItemState::PromotedLocalPushPending) <==> event
            == ItemEvent::PromotedWithPush && state == QueueItemState::Promoting,
        state.next(event) == Some(QueueItemState::Promoted) <==> (event
            == ItemEvent::PromotedWithoutPush && state == QueueItemState::Promoting) || ((event
            == ItemEvent::PushCompleted || event == ItemEvent::PushAbandoned) && state
            == QueueItemState::PromotedLocalPushPending),
{
}

/// Until its promotion has begun, an open item can be canceled, superseded, dropped with
/// what it depends on, or found on the branch; each is the end of it under its own name.
/// Once its promotion has begun, none of that touches it any more.
pub proof fn law_items_can_be_withdrawn_until_promotion(state: QueueItemState, event: ItemEvent)
    ensures
        ({
            let open = !state.terminal() && state != QueueItemState::Promoting && state
                != QueueItemState::PromotedLocalPushPending;
            &&& state.next(event) == Some(QueueItemState::Canceled) <==> event
                == ItemEvent::Canceled && open
            &&& state.next(event) == Some(QueueItemState::Superseded) <==> event
                == ItemEvent::Superseded && open
            &&& state.next(event) == Some(QueueItemState::DependencyFailed) <==> event
                == ItemEvent::DependencyLost && open
            &&& state.next(event) == Some(QueueItemState::ExternallyIntegrated) <==> event
                == ItemEvent::ExternallyIntegrated && open
        }),
        state.terminal() <==> forall|other: ItemEvent| (#[trigger] state.next(other)) is None,
{
    if !state.terminal() {
        crate::state::law_open_items_can_move(state);
    }
}

/// An item that is ready, or further, has a build that passed behind it, and since then
/// nothing has happened to it but promotion: no failed vote, no changed inputs, no retry.
pub proof fn law_nothing_is_promoted_without_a_pass(events: Seq<ItemEvent>)
    requires
        item_after(events) matches Some(state) && has_passed(state),
    ensures
        exists|k: int|
            0 <= k < events.len() && #[trigger] events[k] == ItemEvent::BuildPassed && item_after(
                events.take(k),
            ) == Some(QueueItemState::Running) && forall|j: int|
                k < j < events.len() ==> is_about_promotion(#[trigger] events[j]),
    decreases events.len(),
{
    if events.len() > 0 {
        let before = events.drop_last();
        let last = events.len() - 1;
        assert(events.take(last) =~= before);
        let state = item_after(before)->0;
        if has_passed(state) {
            law_nothing_is_promoted_without_a_pass(before);
            let k = choose|k: int|
                0 <= k < before.len() && #[trigger] before[k] == ItemEvent::BuildPassed
                    && item_after(before.take(k)) == Some(QueueItemState::Running) && forall|j: int|
                    k < j < before.len() ==> is_about_promotion(#[trigger] before[j]);
            assert(events[k] == before[k]);
            assert(events.take(k) =~= before.take(k));
            assert forall|j: int| k < j < events.len() implies is_about_promotion(
                #[trigger] events[j],
            ) by {
                if j < last {
                    assert(events[j] == before[j]);
                }
            }
        } else {
            assert(events[last] == ItemEvent::BuildPassed);
        }
    }
}

/// After a failed vote nothing else happens to an item: it has failed, whatever came before.
pub proof fn law_a_failed_vote_is_the_last_word(events: Seq<ItemEvent>, k: int)
    requires
        0 <= k < events.len(),
        events[k] == ItemEvent::VotingFailed,
        item_after(events) is Some,
    ensures
        item_after(events) == Some(QueueItemState::Failed),
        k == events.len() - 1,
    decreases events.len(),
{
    let before = events.drop_last();
    if k < events.len() - 1 {
        assert(before[k] == events[k]);
        law_a_failed_vote_is_the_last_word(before, k);
        assert(item_after(before) == Some(QueueItemState::Failed));
    }
}

/// An item that has come to an end has its last event behind it.
pub proof fn law_ends_are_ends(events: Seq<ItemEvent>, more: Seq<ItemEvent>)
    requires
        item_after(events) matches Some(state) && state.terminal(),
        more.len() > 0,
    ensures
        item_after(events + more) is None,
    decreases more.len(),
{
    let whole = events + more;
    assert(whole.drop_last() =~= events + more.drop_last());
    if more.len() > 1 {
        law_ends_are_ends(events, more.drop_last());
    } else {
        assert(events + more.drop_last() =~= events);
    }
}

/// A build passes, passes with warnings or fails only while it runs, and by the event of
/// that name; what a build is called is what happened to it.
pub proof fn law_builds_are_called_what_happened(state: BuildsetState, event: BuildsetEvent)
    ensures
        state.next(event) == Some(BuildsetState::Passed) <==> event == BuildsetEvent::Passed
            && state == BuildsetState::Running,
        state.next(event) == Some(BuildsetState::PassedWithWarnings) <==> event
            == BuildsetEvent::PassedWithWarnings && state == BuildsetState::Running,
        state.next(event) == Some(BuildsetState::Failed) <==> event == BuildsetEvent::Failed
            && state == BuildsetState::Running,
        state.next(event) == Some(BuildsetState::Preparing) <==> event
            == BuildsetEvent::PreparationStarted && state == BuildsetState::Pending,
        state.next(event) == Some(BuildsetState::Running) <==> event
            == BuildsetEvent::WorkerStarted && state == BuildsetState::Preparing,
        state.next(event) != Some(BuildsetState::Pending),
        state.next(event) == Some(BuildsetState::Canceled) <==> event == BuildsetEvent::Canceled
            && (state == BuildsetState::Pending || state == BuildsetState::Preparing || state
            == BuildsetState::Running),
        state.next(event) == Some(BuildsetState::Interrupted) <==> event
            == BuildsetEvent::Interrupted && (state == BuildsetState::Preparing || state
            == BuildsetState::Running),
        state.next(event) == Some(BuildsetState::InfrastructureExhausted) <==> event
            == BuildsetEvent::InfrastructureExhausted && (state == BuildsetState::Preparing || state
            == BuildsetState::Running),
        state.next(event) == Some(BuildsetState::Invalidated) <==> event
            == BuildsetEvent::Invalidated && (state == BuildsetState::Preparing || state
            == BuildsetState::Running || state == BuildsetState::Passed || state
            == BuildsetState::PassedWithWarnings),
{
}

/// A build that passed was prepared, started and then passed, and nothing else happened to
/// it.
pub proof fn law_a_pass_has_one_history(events: Seq<BuildsetEvent>)
    requires
        build_after(events) == Some(BuildsetState::Passed) || build_after(events) == Some(
            BuildsetState::PassedWithWarnings,
        ),
    ensures
        events.len() == 3,
        events[0] == BuildsetEvent::PreparationStarted,
        events[1] == BuildsetEvent::WorkerStarted,
        events[2] == if build_after(events) == Some(BuildsetState::Passed) {
            BuildsetEvent::Passed
        } else {
            BuildsetEvent::PassedWithWarnings
        },
{
    let second = events.drop_last();
    let first = second.drop_last();
    let none = first.drop_last();
    assert(build_after(second) == Some(BuildsetState::Running));
    assert(build_after(first) == Some(BuildsetState::Preparing));
    assert(build_after(none) == Some(BuildsetState::Pending));
    assert(second.last() == events[events.len() - 2]);
    assert(first.last() == events[events.len() - 3]);
    if none.len() > 0 {
        assert(build_after(none.drop_last()) is Some);
        assert(build_after(none.drop_last())->0.next(none.last()) == Some(BuildsetState::Pending));
    }
}

} // verus!
