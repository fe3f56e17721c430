//! What is decided where one answer rules out the others.

#[allow(unused_imports)]
use crate::artifact_table::{lists_expired, lists_retained, ArtifactInfo};
#[allow(unused_imports)]
use crate::buildset::{vote_fails, Judgement, Results};
#[allow(unused_imports)]
use crate::cli::{delay_after, frame_after};
#[allow(unused_imports)]
use crate::config_model::EffectiveConfig;
#[allow(unused_imports)]
use crate::event_table::{lists_after, EventInfo};
#[allow(unused_imports)]
use crate::frame::{FrameKind, FrameView};
#[allow(unused_imports)]
use crate::git_flow::{is_pushed, lease_text, refspec_text, release_plan, retention_plan, ReleasePlan};
#[allow(unused_imports)]
use crate::git_sync::{has_arrived, submission, tracking_move, zeros};
#[allow(unused_imports)]
use crate::git_worktree::CommandOutput;
#[allow(unused_imports)]
use crate::ids::{QueueItemId, RepositoryId};
#[allow(unused_imports)]
use crate::item_table::ItemRow;
#[allow(unused_imports)]
use crate::model::{QueueItem, Timestamp};
#[allow(unused_imports)]
use crate::notify::{
    is_install_plan, leads_to_app, quits, InstallPlan, InstalledFile, RepositoryActivity,
};
#[allow(unused_imports)]
use crate::oid::{GitOidView, ObjectFormat};
#[allow(unused_imports)]
use crate::promotion_table::{lists_promotions, PromotionInfo};
#[allow(unused_imports)]
use crate::queue::{
    active, dependencies_active, has_active, is_active, item_ids, lets_go, lists_active,
    source_queued, takes_on, takes_up,
};
#[allow(unused_imports)]
use crate::repository_reads::lists_by_number;
#[allow(unused_imports)]
use crate::seed_table::{lists_seeds, SeedInfo};
#[allow(unused_imports)]
use crate::session::{is_served, payload_tree, ServerStep};
#[allow(unused_imports)]
use crate::store::{room_to_open, SCHEMA_VERSION};
#[allow(unused_imports)]
use crate::text::text_before;
#[allow(unused_imports)]
use crate::worker::takes_too_much;
use vstd::prelude::*;

verus! {

/// A buildset passes exactly if no vote went against it and its workspace is still what was
/// tested; a warning stops nothing, and is told only of what passed.
pub proof fn law_only_sound_buildsets_pass(judgement: Judgement, other: Judgement, sound: bool)
    ensures
        judgement.voting_failed ==> !judgement.passes(sound),
        !judgement.passes(false),
        !judgement.voting_failed ==> judgement.passes(true),
        judgement.passes_with_warnings(sound) ==> judgement.passes(sound) && judgement.warning,
        judgement.passes(sound) && judgement.warning ==> judgement.passes_with_warnings(sound),
        other.voting_failed == judgement.voting_failed ==> other.passes(sound)
            == judgement.passes(sound),
{
}

/// The app may quit while nothing is worked on, and otherwise only if the user has said so.
pub proof fn law_work_is_not_left_unasked(
    repositories: Seq<RepositoryActivity>,
    confirmed: bool,
    i: int,
)
    ensures
        quits(repositories, true),
        0 <= i < repositories.len() && repositories[i].busy() ==> !quits(repositories, false),
        (forall|j: int| 0 <= j < repositories.len() ==> !(#[trigger] repositories[j]).busy())
            ==> quits(repositories, confirmed),
{
}

/// Only a link that leads to an installed app is replaced; what is there already is kept, and
/// what somebody else put there is refused.
pub proof fn law_only_own_links_are_replaced(found: InstalledFile, plan: InstallPlan)
    requires
        is_install_plan(found, plan),
    ensures
        plan is Create <==> found is Nothing,
        plan is Keep <==> found is Bundled,
        found is Other ==> plan is Refuse,
        found matches InstalledFile::Link { target } ==> (plan is Replace <==> leads_to_app(target@))
            && (plan is Refuse <==> !leads_to_app(target@)),
{
}

/// The integration branch is made where there is none, kept where it is right, and never
/// moved.
pub proof fn law_integration_branches_are_not_moved(
    master: GitOidView,
    release: Option<GitOidView>,
)
    ensures
        release_plan(master, release) == Some(ReleasePlan::Create) <==> release is None,
        release_plan(master, release) == Some(ReleasePlan::Keep) <==> release == Some(master),
        release is Some && release != Some(master) ==> release_plan(master, release) is None,
{
}

/// An object is retained once under a name, and the name is never given to another one.
pub proof fn law_retained_objects_stay(existing: Option<GitOidView>, oid: GitOidView)
    ensures
        existing is None ==> retention_plan(existing, oid) == Some(true),
        retention_plan(Some(oid), oid) == Some(false),
        existing is Some && existing != Some(oid) ==> retention_plan(existing, oid) is None,
{
}

/// A push has gone well only if the transport says so and the remote has the object; either
/// one alone is not enough.
pub proof fn law_pushes_are_seen_to_arrive(
    output: CommandOutput,
    observed: Option<GitOidView>,
    new_oid: GitOidView,
    other: GitOidView,
)
    ensures
        output.exit_code != Some(0i32) ==> !is_pushed(output, observed, new_oid),
        observed is None ==> !is_pushed(output, observed, new_oid),
        is_pushed(output, observed, new_oid) && is_pushed(output, observed, other) ==> new_oid
            == other,
        output.exit_code == Some(0i32) ==> is_pushed(output, Some(new_oid), new_oid),
{
}

/// A push leases and moves the same branch, from what is expected and to the new object, and
/// different expectations make different leases.
pub proof fn law_pushes_lease_what_they_move(
    branch: Seq<char>,
    expected: GitOidView,
    other: GitOidView,
    new_oid: GitOidView,
)
    ensures
        lease_text(branch, Some(expected)) == lease_text(branch, None) + expected.hex(),
        lease_text(branch, Some(expected)) == lease_text(branch, Some(other)) ==> expected.hex()
            == other.hex(),
        refspec_text(branch, new_oid) == new_oid.hex() + (seq![':'] + ("refs/heads/"@ + branch)),
{
    reveal_strlit(":");
    assert(":"@ =~= seq![':']);
    let none = lease_text(branch, None);
    assert(lease_text(branch, Some(expected)) =~= none + expected.hex());
    assert(lease_text(branch, Some(other)) =~= none + other.hex());
    if lease_text(branch, Some(expected)) == lease_text(branch, Some(other)) {
        let whole = none + expected.hex();
        assert(whole.skip(none.len() as int) =~= expected.hex());
        assert((none + other.hex()).skip(none.len() as int) =~= other.hex());
    }
    assert(refspec_text(branch, new_oid) =~= new_oid.hex() + (seq![':'] + ("refs/heads/"@
        + branch)));
}

/// The reference that tracks a remote is moved unless it is there already, from where it was
/// seen, or from nothing.
pub proof fn law_tracking_follows_the_remote(
    current: Option<GitOidView>,
    remote: GitOidView,
    format: ObjectFormat,
)
    ensures
        tracking_move(current, remote, format) is None <==> current == Some(remote),
        current matches Some(oid) ==> oid != remote ==> tracking_move(current, remote, format)
            == Some(oid.hex()),
        current is None ==> (tracking_move(current, remote, format) matches Some(from)
            && from.len() == 2 * format.width() && forall|i: int|
            0 <= i < from.len() ==> #[trigger] from[i] == '0'),
{
}

/// A branch has arrived only where it was meant to be, and only with its checkout.
pub proof fn law_branches_arrive_with_their_checkouts(
    checked_out: bool,
    head: Option<GitOidView>,
    master: GitOidView,
    tested: GitOidView,
)
    ensures
        has_arrived(checked_out, head, master, tested) ==> master == tested,
        has_arrived(true, head, master, tested) ==> head == Some(tested),
        has_arrived(false, head, tested, tested),
        has_arrived(true, Some(tested), tested, tested),
{
}

/// There is nothing to submit of a branch that is the validated one; of one that descends from
/// it there is, and of any other nothing may be submitted.
pub proof fn law_only_descendants_are_submitted(
    release: GitOidView,
    master: GitOidView,
    ancestor: bool,
)
    ensures
        submission(release, master, ancestor) == Some(false) <==> release == master,
        submission(release, master, ancestor) == Some(true) <==> release != master && ancestor,
        release != master && !ancestor ==> submission(release, master, ancestor) is None,
{
}

/// Nothing is done to a queue that has changed since it was looked at.
pub proof fn law_stale_requests_change_no_queue(
    items: Seq<QueueItem>,
    revision: u64,
    expected: u64,
    item: QueueItem,
    id: QueueItemId,
    ordered: Seq<QueueItemId>,
)
    requires
        revision != expected,
    ensures
        !takes_up(items, revision, item, expected),
        !lets_go(items, revision, id, expected),
        !takes_on(items, revision, ordered, expected),
{
}

/// A source that waits is not taken up a second time, nor is an item that depends on one that
/// does not wait; a source that does not wait is, and so is an item without dependencies.
pub proof fn law_sources_are_taken_up_once(
    items: Seq<QueueItem>,
    revision: u64,
    item: QueueItem,
    again: QueueItem,
    dependency: QueueItemId,
)
    ensures
        is_active(item) && again.source_oid@ == item.source_oid@ ==> !takes_up(
            items.push(item),
            revision,
            again,
            revision,
        ),
        item.dependencies@.contains(dependency) && !has_active(items, dependency) ==> !takes_up(
            items,
            revision,
            item,
            revision,
        ),
        items.len() == 0 && item.dependencies@.len() == 0 ==> takes_up(
            items,
            revision,
            item,
            revision,
        ),
        items.len() == 0 && item.dependencies@.len() > 0 ==> !takes_up(
            items,
            revision,
            item,
            revision,
        ),
{
    let after = items.push(item);
    assert(after[items.len() as int] == item);
    if is_active(item) && again.source_oid@ == item.source_oid@ {
        assert(source_queued(after, again.source_oid@));
    }
    if item.dependencies@.contains(dependency) && !has_active(items, dependency) {
        let d = choose|d: int|
            0 <= d < item.dependencies@.len() && item.dependencies@[d] == dependency;
        assert(!has_active(items, item.dependencies@[d]));
    }
    if items.len() == 0 && item.dependencies@.len() > 0 {
        assert(!has_active(items, item.dependencies@[0]));
    }
}

/// What waits can be let go, and nothing else can; an order that leaves out an item that
/// waits, or names one that does not, is not taken on.
pub proof fn law_orders_name_what_waits(
    items: Seq<QueueItem>,
    revision: u64,
    ordered: Seq<QueueItemId>,
    id: QueueItemId,
)
    ensures
        lets_go(items, revision, id, revision) <==> exists|i: int|
            0 <= i < items.len() && is_active(#[trigger] items[i]) && items[i].id == id,
        takes_on(items, revision, ordered, revision) ==> (ordered.contains(id) <==> has_active(
            items,
            id,
        )),
        takes_on(items, revision, ordered, revision) ==> ordered.len() == active(items).len(),
{
}

/// One waits longer each time, but never longer than the longest wait.
pub proof fn law_waits_grow_to_an_end(delay: nat)
    requires
        0 < delay <= 2_000,
    ensures
        delay <= delay_after(delay) <= 2_000,
        delay < 2_000 ==> delay_after(delay) > delay,
        delay < 1_000 ==> delay_after(delay) == 2 * delay,
        delay_after(2_000) == 2_000,
{
}

/// The next frame to ask for is never one that was shown, and never lies before the one that
/// was asked for.
pub proof fn law_frames_are_asked_for_once(sequence: nat, shown: nat)
    ensures
        frame_after(sequence, Some(shown)) > shown,
        frame_after(sequence, Some(shown)) >= sequence,
        shown >= sequence ==> frame_after(sequence, Some(shown)) == shown + 1,
        frame_after(sequence, None) == sequence + 1,
{
}

/// A database that is up to date, or not there yet, takes no room to open; any other one takes
/// more than it has.
pub proof fn law_only_migrations_take_room(version: Option<i64>, bytes: nat)
    requires
        bytes + 1_000_000_000_000 <= u64::MAX,
    ensures
        version is None ==> room_to_open(version, bytes) == 0,
        version == Some(SCHEMA_VERSION) ==> room_to_open(version, bytes) == 0,
        version is Some && version != Some(SCHEMA_VERSION) ==> room_to_open(version, bytes)
            > bytes,
{
}

/// A ping is answered with what it held, a request that can be read is carried out under its
/// own number, and everything else ends the conversation.
pub proof fn law_only_requests_are_carried_out(frame: FrameView, step: ServerStep)
    requires
        is_served(frame, step),
    ensures
        step is Reply <==> frame.kind == FrameKind::Ping,
        step matches ServerStep::Reply(reply) ==> reply@.kind == FrameKind::Pong
            && reply@.correlation_id == frame.correlation_id && reply@.payload == frame.payload,
        step is Execute ==> frame.kind == FrameKind::Request,
        step matches ServerStep::Execute { correlation_id, .. } ==> correlation_id
            == frame.correlation_id,
        frame.kind != FrameKind::Ping && frame.kind != FrameKind::Request ==> step is Close,
        payload_tree(frame) is None && frame.kind != FrameKind::Ping ==> step is Close,
{
}

/// A step is stopped for its memory only beyond its limit; without a limit, and without a
/// measure, it never is, and what is too much stays too much when it grows.
pub proof fn law_limits_are_not_exceeded(rss: u64, more: u64, limit: u64)
    ensures
        takes_too_much(Some(rss), Some(limit)) <==> rss > limit,
        !takes_too_much(Some(rss), None),
        !takes_too_much(None, Some(limit)),
        rss <= more && takes_too_much(Some(rss), Some(limit)) ==> takes_too_much(
            Some(more),
            Some(limit),
        ),
        !takes_too_much(Some(limit), Some(limit)),
{
}

/// The events that are listed are those after the number, in the order of their numbers.
pub proof fn law_events_are_listed_in_order(
    infos: Seq<EventInfo>,
    sequence: u64,
    listed: Seq<usize>,
    i: int,
    a: int,
    b: int,
)
    requires
        sequence <= i64::MAX,
        lists_after(infos, sequence, listed),
        infos.len() <= usize::MAX,
    ensures
        0 <= i < infos.len() ==> (listed.contains(i as usize) <==> infos[i].sequence > sequence),
        0 <= a < b < listed.len() ==> infos[listed[a] as int].sequence
            <= infos[listed[b] as int].sequence,
{
    if 0 <= i < infos.len() && listed.contains(i as usize) {
        let k = choose|k: int| 0 <= k < listed.len() && listed[k] == i as usize;
        assert(infos[listed[k] as int].sequence > sequence);
    }
    if 0 <= i < infos.len() && infos[i].sequence > sequence {
        assert(crate::event_table::is_after(infos[i], sequence));
    }
    if 0 <= a < b < listed.len() {
        let before = |x: usize, y: usize| infos[x as int].sequence < infos[y as int].sequence;
        assert(!before(listed[b], listed[a]));
    }
}

/// The artifacts that are listed as expired are those that are retained and whose time has
/// come, and those that are listed as kept are those that are retained or pinned; both in the
/// order of their places.
pub proof fn law_artifacts_are_listed(
    infos: Seq<ArtifactInfo>,
    now: Timestamp,
    expired: Seq<usize>,
    kept: Seq<usize>,
    i: usize,
    a: int,
    b: int,
)
    requires
        lists_expired(infos, now, expired),
        lists_retained(infos, kept),
        i < infos.len(),
    ensures
        expired.contains(i) <==> infos[i as int].retention_state == "retained"@
            && infos[i as int].expires_at.unix_nanos <= now.unix_nanos,
        kept.contains(i) <==> infos[i as int].retention_state == "retained"@
            || infos[i as int].retention_state == "pinned"@,
        expired.contains(i) ==> kept.contains(i),
        0 <= a < b < kept.len() ==> !text_before(
            infos[kept[b] as int].retained_path,
            infos[kept[a] as int].retained_path,
        ),
{
    let out = |k: usize| crate::artifact_table::is_expired(infos[k as int], now);
    let still = |k: usize| crate::artifact_table::is_kept(infos[k as int]);
    assert(out(i) ==> expired.contains(i));
    assert(still(i) ==> kept.contains(i));
    if expired.contains(i) {
        let k = choose|k: int| 0 <= k < expired.len() && expired[k] == i;
        assert(out(expired[k]));
    }
    if kept.contains(i) {
        let k = choose|k: int| 0 <= k < kept.len() && kept[k] == i;
        assert(still(kept[k]));
    }
    if 0 <= a < b < kept.len() {
        let before = |x: usize, y: usize|
            text_before(infos[x as int].retained_path, infos[y as int].retained_path);
        assert(!before(kept[b], kept[a]));
    }
}

/// The seeds that are listed of a repository are its own, the newest first.
pub proof fn law_seeds_are_listed_newest_first(
    infos: Seq<SeedInfo>,
    repository: RepositoryId,
    listed: Seq<usize>,
    i: usize,
    a: int,
    b: int,
)
    requires
        lists_seeds(infos, repository, listed),
        i < infos.len(),
    ensures
        listed.contains(i) <==> infos[i as int].repository_id == repository,
        0 <= a < b < listed.len() ==> infos[listed[a] as int].generation
            >= infos[listed[b] as int].generation,
{
    let own = |k: usize| infos[k as int].repository_id == repository;
    assert(own(i) ==> listed.contains(i));
    if listed.contains(i) {
        let k = choose|k: int| 0 <= k < listed.len() && listed[k] == i;
        assert(own(listed[k]));
    }
    if 0 <= a < b < listed.len() {
        let before = |x: usize, y: usize|
            infos[x as int].generation > infos[y as int].generation;
        assert(!before(listed[b], listed[a]));
    }
}

/// Every promotion is listed, the earlier ones first, and every item, by its number.
pub proof fn law_everything_is_listed_in_order(
    infos: Seq<PromotionInfo>,
    listed: Seq<usize>,
    rows: Seq<ItemRow>,
    numbered: Seq<usize>,
    a: int,
    b: int,
)
    requires
        lists_promotions(infos, listed),
        lists_by_number(rows, numbered),
    ensures
        0 <= a < b < listed.len() ==> infos[listed[a] as int].event_sequence
            <= infos[listed[b] as int].event_sequence,
        0 <= a < b < numbered.len() ==> rows[numbered[a] as int].number
            <= rows[numbered[b] as int].number,
        0 <= a < infos.len() && infos.len() <= usize::MAX ==> listed.contains(a as usize),
        0 <= a < rows.len() && rows.len() <= usize::MAX ==> numbered.contains(a as usize),
{
    if 0 <= a < b < listed.len() {
        let before = |x: usize, y: usize|
            infos[x as int].event_sequence < infos[y as int].event_sequence;
        assert(!before(listed[b], listed[a]));
    }
    if 0 <= a < b < numbered.len() {
        let before = |x: usize, y: usize| rows[x as int].number < rows[y as int].number;
        assert(!before(numbered[b], numbered[a]));
    }
    if 0 <= a < infos.len() && infos.len() <= usize::MAX {
        let all = |k: usize| true;
        assert(all(a as usize));
    }
}

} // verus!
