//! When the desktop app speaks up, and when it may quit.

use crate::document::Document;
#[allow(unused_imports)]
use crate::document::Tree;
use crate::ids::RepositoryId;
use crate::model::BlockReason;
use crate::paths::absolute;
#[allow(unused_imports)]
use crate::paths::is_absolute;
use crate::state::QueueItemState;
#[allow(unused_imports)]
use crate::text::{split_text, texts};
use crate::text::{chars_of, concat3, split_str, str_equal};
use std::collections::HashMap;
use vstd::prelude::*;

verus! {

broadcast use vstd::std_specs::hash::group_hash_axioms;

/// What the user wants to hear of.
#[derive(Clone, Debug, PartialEq, Eq)]
pub struct NotificationPreferences {
    pub quiet_mode: bool,
    pub muted_repositories: Vec<RepositoryId>,
}

impl NotificationPreferences {
    /// The user wants to hear of a repository.
    pub open spec fn allows(self, id: RepositoryId) -> bool {
        !self.quiet_mode && !self.muted_repositories@.contains(id)
    }

    /// Whether the user wants to hear of a repository.
    pub fn notifications_enabled(&self, id: RepositoryId) -> (r: bool)
        ensures
            r == self.allows(id),
    {
        if self.quiet_mode {
            return false;
        }
        let mut i: usize = 0;
        while i < self.muted_repositories.len()
            invariant
                i <= self.muted_repositories@.len(),
                forall|j: int| 0 <= j < i ==> self.muted_repositories@[j] != id,
            decreases self.muted_repositories@.len() - i,
        {
            if self.muted_repositories[i].0 == id.0 {
                assert(self.muted_repositories@[i as int] == id);
                return false;
            }
            i += 1;
        }
        true
    }
}

/// An event in the history of a repository.
#[derive(Debug, PartialEq, Eq)]
pub struct NewsEvent {
    pub sequence: u64,
    pub kind: String,
    pub payload: Document,
}

/// What is known of a repository.
#[derive(Debug, PartialEq, Eq)]
pub struct RepositoryNews {
    pub id: RepositoryId,
    pub name: String,
    pub event_sequence: u64,
    pub history: Vec<NewsEvent>,
    pub block_reasons: Vec<BlockReason>,
}

/// What the user is told.
#[derive(Clone, Debug, PartialEq, Eq)]
pub struct Notification {
    pub title: String,
    pub body: String,
}

/// What a notification says.
#[verifier::ext_equal]
pub struct NotificationView {
    pub title: Seq<char>,
    pub body: Seq<char>,
}

impl View for Notification {
    type V = NotificationView;

    open spec fn view(&self) -> NotificationView {
        NotificationView { title: self.title@, body: self.body@ }
    }
}

/// What notifications say.
pub open spec fn notification_views(items: Seq<Notification>) -> Seq<NotificationView> {
    items.map_values(|item: Notification| item@)
}

/// The text that a field holds, if it holds one.
pub open spec fn text_in(tree: Tree, name: Seq<char>) -> Option<Seq<char>> {
    match tree.field(name) {
        Some(Tree::Text(text)) => Some(text),
        _ => None,
    }
}

fn text_in_field(value: &Document, name: &str) -> (r: Option<String>)
    ensures
        match r {
            Some(text) => text_in(value@, name@) == Some(text@),
            None => text_in(value@, name@) is None,
        },
{
    match value.get(name) {
        Some(Document::Text(text)) => Some(text.as_str().to_owned()),
        _ => None,
    }
}

fn is_text(text: &Option<String>, wanted: &str) -> (r: bool)
    ensures
        r == (text is Some && text->0@ == wanted@),
{
    match text {
        Some(text) => str_equal(text.as_str(), wanted),
        None => false,
    }
}

/// What is read of an event.
pub struct EventFacts {
    pub kind: Seq<char>,
    pub state: Option<Seq<char>>,
    pub remote: Option<Seq<char>>,
    pub reason: Option<Seq<char>>,
    pub subject: Option<Seq<char>>,
    pub sync_reason: Option<Seq<char>>,
}

/// What is read of an event.
pub open spec fn event_facts(event: NewsEvent) -> EventFacts {
    let payload = event.payload@;
    EventFacts {
        kind: event.kind@,
        state: text_in(payload, "state"@),
        remote: text_in(payload, "remote_state"@),
        reason: text_in(payload, "terminal_reason"@),
        subject: match payload.field("metadata"@) {
            Some(metadata) => text_in(metadata, "subject"@),
            None => None,
        },
        sync_reason: text_in(payload, "reason"@),
    }
}

impl EventFacts {
    /// The user's branch could not be brought in line.
    pub open spec fn sync_attention(self) -> bool {
        self.kind == "user-master.sync-needs-attention"@
    }

    /// The event is one that the user should know of.
    pub open spec fn is_failure(self) -> bool {
        ||| self.state == Some("failed"@)
        ||| self.state == Some("check-failed"@)
        ||| self.state == Some("infrastructure-exhausted"@)
        ||| self.remote == Some("push-blocked"@)
        ||| self.reason == Some("baseline-failing"@)
        ||| self.sync_attention()
    }

    /// What the event is about.
    pub open spec fn about(self) -> Seq<char> {
        match self.subject {
            Some(subject) => subject,
            None => "A Tollgate validation needs attention"@,
        }
    }

    /// What has happened.
    pub open spec fn happened(self) -> Seq<char> {
        match self.reason {
            Some(reason) => reason,
            None => if self.sync_attention() {
                match self.sync_reason {
                    Some(reason) => reason,
                    None =>
                        "Certified promotion succeeded, but local master still needs a manual fast-forward"@,
                }
            } else if self.remote == Some("push-blocked"@) {
                "Remote push failed"@
            } else if self.state == Some("infrastructure-exhausted"@) {
                "Infrastructure retries were exhausted"@
            } else {
                "Validation failed"@
            },
        }
    }
}

/// What the user is told of an event.
pub open spec fn failure_note(name: Seq<char>, event: NewsEvent) -> NotificationView {
    let facts = event_facts(event);
    NotificationView {
        title: name + " · Tollgate"@,
        body: facts.about() + ": "@ + facts.happened(),
    }
}

fn announce(name: &str, event: &NewsEvent) -> (r: Option<Notification>)
    ensures
        r is Some <==> event_facts(*event).is_failure(),
        r matches Some(note) ==> note@ == failure_note(name@, *event),
{
    let state = text_in_field(&event.payload, "state");
    let remote = text_in_field(&event.payload, "remote_state");
    let reason = text_in_field(&event.payload, "terminal_reason");
    let attention = str_equal(event.kind.as_str(), "user-master.sync-needs-attention");
    let exhausted = is_text(&state, "infrastructure-exhausted");
    let push_blocked = is_text(&remote, "push-blocked");
    let failure = is_text(&state, "failed") || is_text(&state, "check-failed") || exhausted
        || push_blocked || is_text(&reason, "baseline-failing") || attention;
    if !failure {
        return None;
    }
    let subject = match event.payload.get("metadata") {
        Some(metadata) => text_in_field(metadata, "subject"),
        None => None,
    };
    let about = match subject {
        Some(subject) => subject,
        None => "A Tollgate validation needs attention".to_owned(),
    };
    let happened = match reason {
        Some(reason) => reason,
        None => if attention {
            match text_in_field(&event.payload, "reason") {
                Some(reason) => reason,
                None =>
                    "Certified promotion succeeded, but local master still needs a manual fast-forward".to_owned(),
            }
        } else if push_blocked {
            "Remote push failed".to_owned()
        } else if exhausted {
            "Infrastructure retries were exhausted".to_owned()
        } else {
            "Validation failed".to_owned()
        },
    };
    let title = name.to_owned().concat(" · Tollgate");
    let body = concat3(about.as_str(), ": ", happened.as_str());
    Some(Notification { title, body })
}

/// What the user is told of the first `n` events, but for those up to the cursor.
pub open spec fn failure_notes(
    name: Seq<char>,
    history: Seq<NewsEvent>,
    n: nat,
    cursor: u64,
) -> Seq<NotificationView>
    decreases n,
{
    if n == 0 {
        Seq::empty()
    } else {
        let before = failure_notes(name, history, (n - 1) as nat, cursor);
        let event = history[n - 1];
        if event.sequence > cursor && event_facts(event).is_failure() {
            before.push(failure_note(name, event))
        } else {
            before
        }
    }
}

/// How far the history has been read after the first `n` events.
pub open spec fn moved_cursor(history: Seq<NewsEvent>, n: nat, cursor: u64) -> u64
    decreases n,
{
    if n == 0 {
        cursor
    } else {
        let before = moved_cursor(history, (n - 1) as nat, cursor);
        let sequence = history[n - 1].sequence;
        if sequence > before {
            sequence
        } else {
            before
        }
    }
}

/// A block that has been seen: the repository and the code of the block.
pub type SeenBlock = (u128, Seq<char>);

/// The user is told of a block.
pub open spec fn block_note(name: Seq<char>, reason: BlockReason) -> NotificationView {
    NotificationView { title: name + " is blocked"@, body: reason.message@ }
}

/// The blocks that have been seen after the first `n`.
pub open spec fn seen_blocks(
    id: RepositoryId,
    reasons: Seq<BlockReason>,
    n: nat,
    seen: Set<SeenBlock>,
) -> Set<SeenBlock>
    decreases n,
{
    if n == 0 {
        seen
    } else {
        seen_blocks(id, reasons, (n - 1) as nat, seen).insert((id.0, reasons[n - 1].code@))
    }
}

/// What the user is told of the first `n` blocks, but for those that have been seen.
pub open spec fn block_notes(
    id: RepositoryId,
    name: Seq<char>,
    reasons: Seq<BlockReason>,
    n: nat,
    seen: Set<SeenBlock>,
) -> Seq<NotificationView>
    decreases n,
{
    if n == 0 {
        Seq::empty()
    } else {
        let before = block_notes(id, name, reasons, (n - 1) as nat, seen);
        let reason = reasons[n - 1];
        if seen_blocks(id, reasons, (n - 1) as nat, seen).contains((id.0, reason.code@)) {
            before
        } else {
            before.push(block_note(name, reason))
        }
    }
}

/// What has been told so far.
pub struct FailureMonitor {
    cursors: HashMap<u128, u64>,
    blocked: Vec<(u128, String)>,
}

/// What has been told so far: how far each history has been read, and which blocks have
/// been seen.
pub struct MonitorView {
    pub cursors: Map<u128, u64>,
    pub blocked: Set<SeenBlock>,
}

spec fn seen_set(blocked: Seq<(u128, String)>) -> Set<SeenBlock> {
    Set::new(
        |block: SeenBlock|
            exists|i: int|
                0 <= i < blocked.len() && (#[trigger] blocked[i]).0 == block.0 && blocked[i].1@
                    == block.1,
    )
}

impl View for FailureMonitor {
    type V = MonitorView;

    closed spec fn view(&self) -> MonitorView {
        MonitorView { cursors: self.cursors@, blocked: seen_set(self.blocked@) }
    }
}

impl MonitorView {
    /// How far the history of a repository has been read.
    pub open spec fn cursor(self, id: RepositoryId) -> u64 {
        if self.cursors.dom().contains(id.0) {
            self.cursors[id.0]
        } else {
            0
        }
    }
}

fn is_seen(blocked: &Vec<(u128, String)>, id: u128, code: &str) -> (r: bool)
    ensures
        r == seen_set(blocked@).contains((id, code@)),
{
    let mut i: usize = 0;
    while i < blocked.len()
        invariant
            i <= blocked@.len(),
            forall|j: int|
                0 <= j < i ==> !((#[trigger] blocked@[j]).0 == id && blocked@[j].1@ == code@),
        decreases blocked@.len() - i,
    {
        if blocked[i].0 == id && str_equal(blocked[i].1.as_str(), code) {
            assert(blocked@[i as int].0 == id);
            return true;
        }
        i += 1;
    }
    false
}

fn see(blocked: &mut Vec<(u128, String)>, id: u128, code: &str)
    ensures
        seen_set(final(blocked)@) == seen_set(old(blocked)@).insert((id, code@)),
{
    let ghost before = blocked@;
    blocked.push((id, code.to_owned()));
    proof {
        let ghost after = blocked@;
        assert forall|block: SeenBlock|
            seen_set(after).contains(block) == seen_set(before).insert((id, code@)).contains(
                block,
            ) by {
            if seen_set(before).contains(block) {
                let i = choose|i: int|
                    0 <= i < before.len() && (#[trigger] before[i]).0 == block.0 && before[i].1@
                        == block.1;
                assert(after[i] == before[i]);
            }
            if block == (id, code@) {
                assert(after[before.len() as int].0 == id);
            }
            if seen_set(after).contains(block) {
                let i = choose|i: int|
                    0 <= i < after.len() && (#[trigger] after[i]).0 == block.0 && after[i].1@
                        == block.1;
                if i < before.len() {
                    assert(before[i] == after[i]);
                }
            }
        }
        assert(seen_set(after) =~= seen_set(before).insert((id, code@)));
    }
}

fn mark_blocks(
    blocked: &mut Vec<(u128, String)>,
    id: RepositoryId,
    name: &str,
    reasons: &Vec<BlockReason>,
) -> (r: Vec<Notification>)
    ensures
        seen_set(final(blocked)@) == seen_blocks(
            id,
            reasons@,
            reasons@.len(),
            seen_set(old(blocked)@),
        ),
        notification_views(r@) == block_notes(
            id,
            name@,
            reasons@,
            reasons@.len(),
            seen_set(old(blocked)@),
        ),
{
    let ghost start = seen_set(blocked@);
    let mut notes: Vec<Notification> = Vec::new();
    let mut i: usize = 0;
    assert(notification_views(notes@) =~= Seq::empty());
    while i < reasons.len()
        invariant
            i <= reasons@.len(),
            seen_set(blocked@) == seen_blocks(id, reasons@, i as nat, start),
            notification_views(notes@) == block_notes(id, name@, reasons@, i as nat, start),
        decreases reasons@.len() - i,
    {
        let reason = &reasons[i];
        if is_seen(blocked, id.0, reason.code.as_str()) {
            proof {
                let seen = seen_set(blocked@);
                assert(seen.insert((id.0, reason.code@)) =~= seen);
            }
        } else {
            see(blocked, id.0, reason.code.as_str());
            let note = Notification {
                title: name.to_owned().concat(" is blocked"),
                body: reason.message.as_str().to_owned(),
            };
            let ghost before = notes@;
            let ghost said = note@;
            notes.push(note);
            assert(notification_views(notes@) =~= notification_views(before).push(said));
        }
        i += 1;
    }
    notes
}

impl FailureMonitor {
    /// Nothing has been told.
    pub fn new() -> (r: FailureMonitor)
        ensures
            r@.cursors == Map::<u128, u64>::empty(),
            r@.blocked == Set::<SeenBlock>::empty(),
    {
        let r = FailureMonitor { cursors: HashMap::new(), blocked: Vec::new() };
        proof {
            assert(r@.blocked =~= Set::<SeenBlock>::empty());
        }
        r
    }

    /// What is known of a repository at the start is not told.
    pub fn skip(&mut self, repository: &RepositoryNews)
        ensures
            final(self)@.cursors == old(self)@.cursors.insert(
                repository.id.0,
                repository.event_sequence,
            ),
            final(self)@.blocked == seen_blocks(
                repository.id,
                repository.block_reasons@,
                repository.block_reasons@.len(),
                old(self)@.blocked,
            ),
    {
        self.cursors.insert(repository.id.0, repository.event_sequence);
        let _ = mark_blocks(
            &mut self.blocked,
            repository.id,
            repository.name.as_str(),
            &repository.block_reasons,
        );
    }

    /// Tells what is new of a repository, if the user wants to hear of it. What is not
    /// told now is not told later.
    pub fn observe(&mut self, repository: &RepositoryNews, enabled: bool) -> (r: Vec<Notification>)
        ensures
            ({
                let cursor = old(self)@.cursor(repository.id);
                let history = repository.history@;
                let reasons = repository.block_reasons@;
                &&& final(self)@.cursors == old(self)@.cursors.insert(
                    repository.id.0,
                    moved_cursor(history, history.len(), cursor),
                )
                &&& final(self)@.blocked == seen_blocks(
                    repository.id,
                    reasons,
                    reasons.len(),
                    old(self)@.blocked,
                )
                &&& enabled ==> notification_views(r@) == failure_notes(
                    repository.name@,
                    history,
                    history.len(),
                    cursor,
                ) + block_notes(
                    repository.id,
                    repository.name@,
                    reasons,
                    reasons.len(),
                    old(self)@.blocked,
                )
                &&& !enabled ==> r@.len() == 0
            }),
    {
        let name = repository.name.as_str();
        let history = &repository.history;
        let cursor: u64 = match self.cursors.get(&repository.id.0) {
            Some(cursor) => *cursor,
            None => 0,
        };
        let mut reached: u64 = cursor;
        let mut notes: Vec<Notification> = Vec::new();
        let mut i: usize = 0;
        assert(notification_views(notes@) =~= Seq::empty());
        while i < history.len()
            invariant
                i <= history@.len(),
                reached == moved_cursor(history@, i as nat, cursor),
                enabled ==> notification_views(notes@) == failure_notes(
                    name@,
                    history@,
                    i as nat,
                    cursor,
                ),
                !enabled ==> notes@.len() == 0,
            decreases history@.len() - i,
        {
            let event = &history[i];
            if event.sequence > cursor && enabled {
                if let Some(note) = announce(name, event) {
                    let ghost before = notes@;
                    let ghost said = note@;
                    notes.push(note);
                    assert(notification_views(notes@) =~= notification_views(before).push(said));
                }
            }
            if event.sequence > reached {
                reached = event.sequence;
            }
            i += 1;
        }
        self.cursors.insert(repository.id.0, reached);
        let mut blocks = mark_blocks(
            &mut self.blocked,
            repository.id,
            name,
            &repository.block_reasons,
        );
        if enabled {
            let ghost first = notes@;
            let ghost second = blocks@;
            notes.append(&mut blocks);
            assert(notification_views(notes@) =~= notification_views(first) + notification_views(
                second,
            ));
        }
        notes
    }
}

proof fn lemma_cursor_covers(history: Seq<NewsEvent>, n: nat, cursor: u64, i: int)
    requires
        0 <= i < n <= history.len(),
    ensures
        history[i].sequence <= moved_cursor(history, n, cursor),
    decreases n,
{
    if i < n - 1 {
        lemma_cursor_covers(history, (n - 1) as nat, cursor, i);
    }
}

proof fn lemma_nothing_beyond(name: Seq<char>, history: Seq<NewsEvent>, n: nat, cursor: u64)
    requires
        n <= history.len(),
        forall|i: int| 0 <= i < n ==> (#[trigger] history[i]).sequence <= cursor,
    ensures
        failure_notes(name, history, n, cursor).len() == 0,
    decreases n,
{
    if n > 0 {
        lemma_nothing_beyond(name, history, (n - 1) as nat, cursor);
        assert(history[n - 1].sequence <= cursor);
    }
}

/// The user is told of a failure once: after a history has been read, reading it again
/// tells nothing.
pub proof fn law_failures_are_told_once(name: Seq<char>, history: Seq<NewsEvent>, cursor: u64)
    ensures
        failure_notes(
            name,
            history,
            history.len(),
            moved_cursor(history, history.len(), cursor),
        ).len() == 0,
{
    let reached = moved_cursor(history, history.len(), cursor);
    assert forall|i: int| 0 <= i < history.len() implies (#[trigger] history[i]).sequence
        <= reached by {
        lemma_cursor_covers(history, history.len(), cursor, i);
    }
    lemma_nothing_beyond(name, history, history.len(), reached);
}

/// The history is never read backwards.
pub proof fn law_cursors_never_go_back(history: Seq<NewsEvent>, n: nat, cursor: u64)
    requires
        n <= history.len(),
    ensures
        moved_cursor(history, n, cursor) >= cursor,
    decreases n,
{
    if n > 0 {
        law_cursors_never_go_back(history, (n - 1) as nat, cursor);
    }
}

proof fn lemma_seen_grow(id: RepositoryId, reasons: Seq<BlockReason>, n: nat, seen: Set<SeenBlock>)
    requires
        n <= reasons.len(),
    ensures
        seen.subset_of(seen_blocks(id, reasons, n, seen)),
        forall|i: int|
            0 <= i < n ==> seen_blocks(id, reasons, n, seen).contains(
                (id.0, (#[trigger] reasons[i]).code@),
            ),
    decreases n,
{
    if n > 0 {
        lemma_seen_grow(id, reasons, (n - 1) as nat, seen);
    }
}

proof fn lemma_no_blocks_beyond(
    id: RepositoryId,
    name: Seq<char>,
    reasons: Seq<BlockReason>,
    n: nat,
    seen: Set<SeenBlock>,
)
    requires
        n <= reasons.len(),
        forall|i: int| 0 <= i < n ==> seen.contains((id.0, (#[trigger] reasons[i]).code@)),
    ensures
        block_notes(id, name, reasons, n, seen).len() == 0,
    decreases n,
{
    if n > 0 {
        lemma_no_blocks_beyond(id, name, reasons, (n - 1) as nat, seen);
        lemma_seen_grow(id, reasons, (n - 1) as nat, seen);
        assert(seen.contains((id.0, reasons[n - 1].code@)));
    }
}

/// The user is told of a block once: after the blocks of a repository have been seen,
/// seeing them again tells nothing.
pub proof fn law_blocks_are_told_once(
    id: RepositoryId,
    name: Seq<char>,
    reasons: Seq<BlockReason>,
    seen: Set<SeenBlock>,
)
    ensures
        block_notes(
            id,
            name,
            reasons,
            reasons.len(),
            seen_blocks(id, reasons, reasons.len(), seen),
        ).len() == 0,
{
    lemma_seen_grow(id, reasons, reasons.len(), seen);
    lemma_no_blocks_beyond(
        id,
        name,
        reasons,
        reasons.len(),
        seen_blocks(id, reasons, reasons.len(), seen),
    );
}

/// What a repository is busy with.
#[derive(Clone, Debug, PartialEq, Eq)]
pub struct RepositoryActivity {
    pub active_runs: u64,
    pub queue: Vec<QueueItemState>,
}

/// An item is worked on.
pub open spec fn worked_on(state: QueueItemState) -> bool {
    state == QueueItemState::Preparing || state == QueueItemState::Running
}

impl RepositoryActivity {
    /// The repository is busy.
    pub open spec fn busy(self) -> bool {
        self.active_runs > 0 || exists|i: int|
            0 <= i < self.queue@.len() && worked_on(#[trigger] self.queue@[i])
    }

    /// Whether the repository is busy.
    pub fn is_busy(&self) -> (r: bool)
        ensures
            r == self.busy(),
    {
        if self.active_runs > 0 {
            return true;
        }
        let mut i: usize = 0;
        while i < self.queue.len()
            invariant
                i <= self.queue@.len(),
                forall|j: int| 0 <= j < i ==> !worked_on(#[trigger] self.queue@[j]),
            decreases self.queue@.len() - i,
        {
            let state = self.queue[i];
            if state == QueueItemState::Preparing || state == QueueItemState::Running {
                assert(worked_on(self.queue@[i as int]));
                return true;
            }
            i += 1;
        }
        false
    }
}

/// The app may quit.
pub open spec fn quits(repositories: Seq<RepositoryActivity>, confirmed: bool) -> bool {
    confirmed || forall|i: int|
        0 <= i < repositories.len() ==> !(#[trigger] repositories[i]).busy()
}

/// Whether the app may quit: nothing is worked on, or the user has confirmed.
pub fn may_quit(repositories: &Vec<RepositoryActivity>, confirmed: bool) -> (r: bool)
    ensures
        r == (confirmed || forall|i: int|
            0 <= i < repositories@.len() ==> !(#[trigger] repositories@[i]).busy()),
        r == quits(repositories@, confirmed),
{
    if confirmed {
        return true;
    }
    let mut i: usize = 0;
    while i < repositories.len()
        invariant
            i <= repositories@.len(),
            !confirmed,
            forall|j: int| 0 <= j < i ==> !(#[trigger] repositories@[j]).busy(),
        decreases repositories@.len() - i,
    {
        if repositories[i].is_busy() {
            return false;
        }
        i += 1;
    }
    true
}

/// The part of a path counts.
pub open spec fn is_component(part: Seq<char>) -> bool {
    part.len() > 0 && part != "."@
}

/// The parts of a path that count.
pub open spec fn components(path: Seq<char>) -> Seq<Seq<char>> {
    split_text(path, '/').filter(|part: Seq<char>| is_component(part))
}

/// The path leads to the executable of an installed app.
pub open spec fn leads_to_app(target: Seq<char>) -> bool {
    let parts = components(target);
    let n = parts.len();
    &&& is_absolute(target)
    &&& n >= 4
    &&& parts[n - 1] == "tg"@
    &&& parts[n - 2] == "MacOS"@
    &&& parts[n - 3] == "Contents"@
    &&& parts[n - 4] == "Tollgate.app"@
}

fn component_list(path: &str) -> (r: Vec<String>)
    ensures
        texts(r@) == components(path@),
{
    let parts = split_str(path, '/');
    let ghost all = split_text(path@, '/');
    let ghost counts = |part: Seq<char>| is_component(part);
    assert(all == texts(parts@));
    let mut out: Vec<String> = Vec::new();
    let mut i: usize = 0;
    proof {
        crate::seqs::lemma_filter_ends(all, counts);
        assert(texts(out@) =~= all.take(0).filter(counts));
    }
    while i < parts.len()
        invariant
            i <= parts@.len(),
            all == texts(parts@),
            counts == (|part: Seq<char>| is_component(part)),
            texts(out@) == all.take(i as int).filter(counts),
        decreases parts@.len() - i,
    {
        proof {
            crate::seqs::lemma_filter_step(all, counts, i as int);
            assert(all[i as int] == parts@[i as int]@);
        }
        let part = parts[i].as_str();
        if chars_of(part).len() > 0 && !str_equal(part, ".") {
            let ghost before = out@;
            out.push(part.to_owned());
            assert(texts(out@) =~= texts(before).push(part@));
        }
        i += 1;
    }
    proof {
        crate::seqs::lemma_filter_ends(all, counts);
    }
    out
}

/// Whether a link leads to the executable of an installed app, so that it may be
/// replaced.
pub fn is_repairable_link(target: &str) -> (r: bool)
    ensures
        r == leads_to_app(target@),
{
    if !absolute(target) {
        return false;
    }
    let parts = component_list(target);
    let ghost all = components(target@);
    let n: usize = parts.len();
    assert(all.len() == n);
    if n < 4 {
        return false;
    }
    assert(all[n - 1] == parts@[n - 1]@);
    assert(all[n - 2] == parts@[n - 2]@);
    assert(all[n - 3] == parts@[n - 3]@);
    assert(all[n - 4] == parts@[n - 4]@);
    str_equal(parts[n - 1].as_str(), "tg") && str_equal(parts[n - 2].as_str(), "MacOS")
        && str_equal(parts[n - 3].as_str(), "Contents") && str_equal(
        parts[n - 4].as_str(),
        "Tollgate.app",
    )
}

/// What stands where the executable is to be installed.
#[derive(Clone, Debug, PartialEq, Eq)]
#[allow(inconsistent_fields)]
pub enum InstalledFile {
    Nothing,
    /// What is to be installed.
    Bundled,
    /// A link to something else.
    Link { target: String },
    Other,
}

/// What is done to install the executable.
#[derive(Clone, Debug, PartialEq, Eq)]
pub enum InstallPlan {
    Keep,
    Create,
    Replace,
    Refuse(String),
}

/// What is done about what stands where the executable is to be installed.
pub open spec fn is_install_plan(found: InstalledFile, plan: InstallPlan) -> bool {
    match plan {
        InstallPlan::Create => found is Nothing,
        InstallPlan::Keep => found is Bundled,
        InstallPlan::Replace => found matches InstalledFile::Link { target } && leads_to_app(
            target@,
        ),
        InstallPlan::Refuse(_) => found is Other || (found matches InstalledFile::Link { target }
            && !leads_to_app(target@)),
    }
}

/// Decides what is done to install the executable: nothing that this app has not made
/// is replaced.
pub fn plan_install(found: &InstalledFile, destination: &str) -> (r: InstallPlan)
    ensures
        is_install_plan(*found, r),
        match *found {
            InstalledFile::Nothing => r == InstallPlan::Create,
            InstalledFile::Bundled => r == InstallPlan::Keep,
            InstalledFile::Link { target } => if leads_to_app(target@) {
                r == InstallPlan::Replace
            } else {
                r matches InstallPlan::Refuse(text) && text@ == destination@
                    + " already exists and was not created by Tollgate"@
            },
            InstalledFile::Other => r matches InstallPlan::Refuse(text) && text@ == destination@
                + " already exists and was not created by Tollgate"@,
        },
{
    match found {
        InstalledFile::Nothing => {
            return InstallPlan::Create;
        },
        InstalledFile::Bundled => {
            return InstallPlan::Keep;
        },
        InstalledFile::Link { target } => {
            if is_repairable_link(target.as_str()) {
                return InstallPlan::Replace;
            }
        },
        InstalledFile::Other => {},
    }
    InstallPlan::Refuse(
        destination.to_owned().concat(" already exists and was not created by Tollgate"),
    )
}

} // verus!
