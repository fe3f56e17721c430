//! What the user is told of, and what not.

#[allow(unused_imports)]
use crate::ids::RepositoryId;
#[allow(unused_imports)]
use crate::notify::{
    block_notes, components, event_facts, failure_note, failure_notes, is_component,
    leads_to_app, moved_cursor, seen_blocks, worked_on, EventFacts, NewsEvent,
    NotificationPreferences, NotificationView, RepositoryActivity, SeenBlock,
};
#[allow(unused_imports)]
use crate::model::BlockReason;
#[allow(unused_imports)]
use crate::seqs::lemma_filter_members;
#[allow(unused_imports)]
use crate::state::QueueItemState;
#[allow(unused_imports)]
use crate::text::split_text;
use vstd::prelude::*;

verus! {

/// A quiet user hears nothing; else all repositories are heard of but those that are muted,
/// and muting one mutes no other.
pub proof fn law_muting_is_for_one_repository(
    preferences: NotificationPreferences,
    muted: NotificationPreferences,
    id: RepositoryId,
    other: RepositoryId,
)
    requires
        muted.quiet_mode == preferences.quiet_mode,
        muted.muted_repositories@ == preferences.muted_repositories@.push(id),
    ensures
        !muted.allows(id),
        other != id ==> muted.allows(other) == preferences.allows(other),
        preferences.quiet_mode ==> !preferences.allows(other),
        !preferences.quiet_mode && preferences.muted_repositories@.len() == 0
            ==> preferences.allows(other),
{
    let before = preferences.muted_repositories@;
    let after = muted.muted_repositories@;
    assert(after[before.len() as int] == id);
    if before.contains(other) {
        let k = choose|k: int| 0 <= k < before.len() && before[k] == other;
        assert(after[k] == other);
    }
}

/// Of what becomes of an item, the user is told of its failure, of a failed check and of
/// exhausted infrastructure, and of no other end of its own; an item that was promoted,
/// canceled or superseded is no failure.
pub proof fn law_failed_items_are_told_of(facts: EventFacts, state: QueueItemState)
    requires
        facts.state == Some(state.wire_name()),
        facts.remote is None,
        facts.reason is None,
        facts.kind != "user-master.sync-needs-attention"@,
    ensures
        facts.is_failure() <==> state == QueueItemState::Failed || state
            == QueueItemState::CheckFailed || state == QueueItemState::InfrastructureExhausted,
{
    reveal_strlit("constructing");
    reveal_strlit("queued");
    reveal_strlit("preparing");
    reveal_strlit("running");
    reveal_strlit("ready");
    reveal_strlit("promoting");
    reveal_strlit("promoted-local-push-pending");
    reveal_strlit("promoted");
    reveal_strlit("externally-integrated");
    reveal_strlit("failed");
    reveal_strlit("merge-conflict");
    reveal_strlit("dependency-failed");
    reveal_strlit("canceled");
    reveal_strlit("superseded");
    reveal_strlit("infrastructure-exhausted");
    reveal_strlit("check-passed");
    reveal_strlit("check-failed");
    let told = state.wire_name();
    assert("failed"@.len() == 6 && "check-failed"@.len() == 12);
    assert("infrastructure-exhausted"@.len() == 24);
    match state {
        QueueItemState::Constructing => {
            assert(told.len() == 12 && told[1] == 'o' && "check-failed"@[1] == 'h');
        },
        QueueItemState::Queued => {
            assert(told.len() == 6 && told[0] == 'q' && "failed"@[0] == 'f');
        },
        QueueItemState::Preparing => {
            assert(told.len() == 9);
        },
        QueueItemState::Running => {
            assert(told.len() == 7);
        },
        QueueItemState::Ready => {
            assert(told.len() == 5);
        },
        QueueItemState::Promoting => {
            assert(told.len() == 9);
        },
        QueueItemState::PromotedLocalPushPending => {
            assert(told.len() == 27);
        },
        QueueItemState::Promoted => {
            assert(told.len() == 8);
        },
        QueueItemState::ExternallyIntegrated => {
            assert(told.len() == 21);
        },
        QueueItemState::Failed => {},
        QueueItemState::MergeConflict => {
            assert(told.len() == 14);
        },
        QueueItemState::DependencyFailed => {
            assert(told.len() == 17);
        },
        QueueItemState::Canceled => {
            assert(told.len() == 8);
        },
        QueueItemState::Superseded => {
            assert(told.len() == 10);
        },
        QueueItemState::InfrastructureExhausted => {},
        QueueItemState::CheckPassed => {
            assert(told.len() == 12 && told[6] == 'p' && "check-failed"@[6] == 'f');
        },
        QueueItemState::CheckFailed => {},
    }
}

/// A push that is blocked, a baseline that fails and a branch that needs attention are told
/// of, whatever else the event says.
pub proof fn law_other_troubles_are_told_of(facts: EventFacts)
    ensures
        facts.remote == Some("push-blocked"@) ==> facts.is_failure(),
        facts.reason == Some("baseline-failing"@) ==> facts.is_failure(),
        facts.kind == "user-master.sync-needs-attention"@ ==> facts.is_failure(),
        facts.remote is None && facts.reason is None && facts.state is None && facts.kind
            != "user-master.sync-needs-attention"@ ==> !facts.is_failure(),
{
}

/// The user is told the reason that the event gives, if it gives one, and what it is about.
pub proof fn law_reasons_are_passed_on(name: Seq<char>, event: NewsEvent)
    ensures
        ({
            let facts = event_facts(event);
            let note = failure_note(name, event);
            &&& facts.subject is Some && facts.reason is Some ==> note.body == facts.subject->0
                + ": "@ + facts.reason->0
            &&& facts.subject is Some && facts.reason is None && facts.kind
                == "user-master.sync-needs-attention"@ && facts.sync_reason is Some ==> note.body
                == facts.subject->0 + ": "@ + facts.sync_reason->0
            &&& note.title == name + " · Tollgate"@
        }),
{
}

/// Every failure behind the cursor is told, and nothing else is: neither what lies before
/// it, nor what is no failure.
pub proof fn law_new_failures_are_told(
    name: Seq<char>,
    history: Seq<NewsEvent>,
    n: nat,
    cursor: u64,
    i: int,
)
    requires
        0 <= i < n <= history.len(),
    ensures
        history[i].sequence > cursor && event_facts(history[i]).is_failure() ==> failure_notes(
            name,
            history,
            n,
            cursor,
        ).contains(failure_note(name, history[i])),
        (forall|j: int|
            0 <= j < n ==> (#[trigger] history[j]).sequence <= cursor || !event_facts(
                history[j],
            ).is_failure()) ==> failure_notes(name, history, n, cursor).len() == 0,
        failure_notes(name, history, n, cursor).len() <= n,
    decreases n,
{
    let before = failure_notes(name, history, (n - 1) as nat, cursor);
    let all = failure_notes(name, history, n, cursor);
    let note = failure_note(name, history[i]);
    if n > 1 {
        let k = if i < n - 1 { i } else { 0 };
        law_new_failures_are_told(name, history, (n - 1) as nat, cursor, k);
    }
    if i < n - 1 {
        if before.contains(note) {
            let k = choose|k: int| 0 <= k < before.len() && before[k] == note;
            assert(all[k] == note);
        }
    } else if history[i].sequence > cursor && event_facts(history[i]).is_failure() {
        assert(all[before.len() as int] == note);
    }
    if forall|j: int|
        0 <= j < n ==> (#[trigger] history[j]).sequence <= cursor || !event_facts(
            history[j],
        ).is_failure() {
        assert(history[n - 1].sequence <= cursor || !event_facts(history[n - 1]).is_failure());
    }
}

/// The history has been read as far as its latest event, and no further.
pub proof fn law_the_cursor_stands_at_the_latest_event(
    history: Seq<NewsEvent>,
    n: nat,
    cursor: u64,
    i: int,
)
    requires
        0 <= i < n <= history.len(),
    ensures
        moved_cursor(history, n, cursor) >= history[i].sequence,
        moved_cursor(history, n, cursor) == cursor || exists|j: int|
            0 <= j < n && (#[trigger] history[j]).sequence == moved_cursor(history, n, cursor),
    decreases n,
{
    if n > 1 {
        let k = if i < n - 1 { i } else { 0 };
        law_the_cursor_stands_at_the_latest_event(history, (n - 1) as nat, cursor, k);
    }
    let before = moved_cursor(history, (n - 1) as nat, cursor);
    let after = moved_cursor(history, n, cursor);
    if history[n - 1].sequence > before {
        assert(history[n - 1].sequence == after);
    } else if n > 1 && before != cursor {
        let j = choose|j: int| 0 <= j < n - 1 && (#[trigger] history[j]).sequence == before;
        assert(history[j].sequence == after);
    }
}

/// A block that has not been seen is told of, with its message; the blocks of one
/// repository say nothing of another.
pub proof fn law_new_blocks_are_told(
    id: RepositoryId,
    name: Seq<char>,
    reason: BlockReason,
    seen: Set<SeenBlock>,
    other: RepositoryId,
)
    ensures
        !seen.contains((id.0, reason.code@)) ==> block_notes(id, name, seq![reason], 1, seen)
            =~= seq![NotificationView { title: name + " is blocked"@, body: reason.message@ }],
        seen.contains((id.0, reason.code@)) ==> block_notes(id, name, seq![reason], 1, seen).len()
            == 0,
        other != id ==> (seen_blocks(id, seq![reason], 1, seen).contains((other.0, reason.code@))
            <==> seen.contains((other.0, reason.code@))),
        seen_blocks(id, seq![reason], 1, seen).contains((id.0, reason.code@)),
{
    reveal_with_fuel(block_notes, 3);
    reveal_with_fuel(seen_blocks, 3);
    assert(other != id ==> other.0 != id.0);
}

/// A repository is busy while something runs, or an item of it is being prepared or run;
/// items that only wait keep nobody.
pub proof fn law_waiting_items_keep_nobody(activity: RepositoryActivity)
    ensures
        activity.active_runs > 0 ==> activity.busy(),
        activity.active_runs == 0 && (forall|i: int|
            0 <= i < activity.queue@.len() ==> (#[trigger] activity.queue@[i])
                != QueueItemState::Preparing && activity.queue@[i] != QueueItemState::Running)
            ==> !activity.busy(),
        (exists|i: int|
            0 <= i < activity.queue@.len() && ((#[trigger] activity.queue@[i])
                == QueueItemState::Preparing || activity.queue@[i] == QueueItemState::Running))
            ==> activity.busy(),
{
    if exists|i: int|
        0 <= i < activity.queue@.len() && ((#[trigger] activity.queue@[i])
            == QueueItemState::Preparing || activity.queue@[i] == QueueItemState::Running) {
        let i = choose|i: int|
            0 <= i < activity.queue@.len() && ((#[trigger] activity.queue@[i])
                == QueueItemState::Preparing || activity.queue@[i] == QueueItemState::Running);
        assert(worked_on(activity.queue@[i]));
    }
}

/// The parts of a path that count are neither empty nor the directory itself.
pub proof fn law_parts_of_a_path_count(path: Seq<char>, part: Seq<char>)
    ensures
        components(path).contains(part) <==> split_text(path, '/').contains(part) && part.len() > 0
            && part != "."@,
        leads_to_app(path) ==> components(path).contains("Tollgate.app"@)
            && components(path).last() == "tg"@,
{
    lemma_filter_members(split_text(path, '/'), |part: Seq<char>| is_component(part));
}

} // verus!
