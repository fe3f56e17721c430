//! What is made of Git's answers, and what is done to the user's branch.

#[allow(unused_imports)]
use crate::git_flow::{cleanup_fault, LinkedWorktree};
#[allow(unused_imports)]
use crate::git_parse::{
    changes_from, checkouts, first_checkout, names_two, nul_fields, oids_on, worktree_field,
    ChangesFault, WorktreeField,
};
#[allow(unused_imports)]
use crate::git_sync::{
    checkout_fault, checkout_path, forward_plan, is_rebase_needed, rebase_plan, sync_plan,
    tracking_ref, MasterCheckout, RebaseCommand, RebasePlan, RebaseSight, SyncMove, SyncPlan,
    SyncView,
};
#[allow(unused_imports)]
use crate::git_worktree::{
    dirt, first_blank, ignored_directory, is_reserved, probe_fault, remote_object, says_absent,
    without_slashes, CommandOutput, ProbeOutput,
};
#[allow(unused_imports)]
use crate::oid::{oid_of_hex, GitOidView};
#[allow(unused_imports)]
use crate::scan::{lines_of, split_at, trimmed, words_of};
#[allow(unused_imports)]
use crate::seqs::lemma_filter_members;
use vstd::prelude::*;
#[allow(unused_imports)]
use vstd::utf8::{decode_utf8, valid_utf8};

verus! {

/// A checkout can be moved along with its branch.
pub open spec fn in_step(checkout: Option<MasterCheckout>, current: GitOidView) -> bool {
    checkout matches Some(held) ==> held.dirt is None && held.on_master && held.head@ == current
}

/// A branch that stands at the tested commit is current, and no other is; one that stands at
/// the source that was validated is moved at once; of every other the ancestry is asked.
pub proof fn law_the_branch_follows_the_release(
    checkout: Option<MasterCheckout>,
    current: GitOidView,
    tested: GitOidView,
    replace: Option<GitOidView>,
    plan: SyncPlan,
)
    requires
        sync_plan(checkout, Some(current), tested, replace, plan),
        in_step(checkout, current),
    ensures
        current == tested <==> plan is Settled,
        current == tested ==> (plan matches SyncPlan::Settled(outcome) && outcome@ == (
        SyncView::AlreadyCurrent { path: checkout_path(checkout) })),
        current != tested && replace == Some(current) ==> (plan matches SyncPlan::Move {
            kind: SyncMove::Project,
            current: from,
        } && from@ == current),
        current != tested && replace != Some(current) ==> (plan matches SyncPlan::AskAncestry {
            current: from,
        } && from@ == current),
{
}

/// The user is told where attention is needed: in the checkout, if there is one.
pub proof fn law_attention_is_asked_for_in_the_checkout(
    checkout: Option<MasterCheckout>,
    current: Option<GitOidView>,
    tested: GitOidView,
    replace: Option<GitOidView>,
    ancestor: bool,
    plan: SyncPlan,
    next: SyncPlan,
)
    requires
        sync_plan(checkout, current, tested, replace, plan),
        current is Some ==> forward_plan(
            checkout_path(checkout),
            current->0,
            tested,
            ancestor,
            next,
        ),
    ensures
        (current is None || !in_step(checkout, current->0)) ==> (plan matches SyncPlan::Settled(
            outcome,
        ) && outcome@ matches SyncView::NeedsAttention { path, .. } && path
            == match checkout {
            Some(held) => Some(held.path@),
            None => None,
        }),
        current is Some && !ancestor ==> (next matches SyncPlan::Settled(outcome)
            && outcome@ matches SyncView::NeedsAttention { path, .. } && path == match checkout {
            Some(held) => Some(held.path@),
            None => None,
        }),
        current is Some ==> (ancestor <==> next matches SyncPlan::Move {
            kind: SyncMove::FastForward,
            ..
        }),
{
}

/// A checkout that cannot be moved is said to be so for what is wrong with it, and one with
/// nothing wrong is not.
pub proof fn law_checkouts_are_faulted_for_cause(checkout: MasterCheckout, current: GitOidView)
    ensures
        checkout_fault(checkout, current) is None <==> in_step(Some(checkout), current),
        checkout.dirt matches Some(reason) ==> checkout_fault(checkout, current) == Some(
            "master worktree is dirty: "@ + reason@,
        ),
{
}

/// A branch without commits of its own is merged, one with commits is rebased; a branch that
/// holds the validated commit, or is it, is not touched; and where all goes well the branch
/// is where Git left it.
pub proof fn law_branches_with_commits_are_rebased(sight: RebaseSight)
    ensures
        rebase_plan(sight.own_commits) == RebasePlan::Merge <==> sight.own_commits == 0,
        sight.needed() <==> sight.release != sight.expected && !sight.contained,
        is_rebase_needed(sight.release, sight.expected, sight.contained) == sight.needed(),
        sight.may_start() <==> sight.clean && sight.on_master && sight.head == sight.expected
            && sight.master == sight.expected,
        sight.may_start() && sight.needed() && sight.linear ==> sight.commands().len() > 0
            && sight.commands()[0] == (if sight.own_commits == 0 {
            RebaseCommand::Merge
        } else {
            RebaseCommand::Rebase
        }),
        sight.commands().len() > 0 && sight.success ==> sight.commands().len() == 1,
        sight.commands().len() > 0 && sight.commands()[0] == RebaseCommand::Rebase
            && !sight.success ==> sight.commands().len() == 2 && sight.commands()[1]
            == RebaseCommand::Abort,
        sight.may_start() && sight.needed() && sight.linear && sight.success && sight.new_head
            == sight.new_master && sight.descends && sight.clean_after ==> sight.outcome() == Some(
            sight.new_master,
        ),
        sight.may_start() && !sight.needed() ==> sight.outcome() == Some(sight.expected),
{
}

/// A worktree is removed only if it belongs to the repository and it and its branch stand
/// where they were approved; and then nothing keeps it.
pub proof fn law_worktrees_are_removed_as_approved(
    worktree: LinkedWorktree,
    expected: GitOidView,
    other: GitOidView,
)
    ensures
        cleanup_fault(worktree, expected) is None <==> worktree.same_repository
            && worktree.head@ == expected && worktree.branch_oid@ == expected,
        cleanup_fault(worktree, expected) is None && cleanup_fault(worktree, other) is None
            ==> expected == other,
{
}

/// The branch that the user works on and the one that is integrated into are not for
/// features; all others are.
pub proof fn law_two_branches_are_reserved(branch: Seq<char>)
    ensures
        is_reserved(branch) <==> branch == "master"@ || branch == "release"@,
{
}

/// A worktree is clean exactly if nothing is staged, nothing modified and nothing untracked.
pub proof fn law_clean_worktrees_hold_no_changes(staged: bool, modified: bool, untracked: Seq<u8>)
    ensures
        dirt(staged, modified, untracked) is None <==> !staged && !modified && untracked.len()
            == 0,
{
}

/// What is approved is new and has exactly one parent, and can be tried as well; what is only
/// tried may be integrated already and may be without a parent, but never has several.
pub proof fn law_approval_asks_for_more_than_a_trial(output: ProbeOutput, again: ProbeOutput)
    ensures
        ({
            let parents = words_of(decode_utf8(output.parents@));
            &&& probe_fault(output, true) is None ==> !output.integrated && parents.len() == 1
                && oid_of_hex(parents[0]) is Some
            &&& probe_fault(output, true) is None ==> probe_fault(output, false) is None
            &&& probe_fault(output, false) is None && parents.len() == 1 && !output.integrated
                ==> probe_fault(output, true) is None
            &&& probe_fault(output, false) is None ==> parents.len() <= 1
            &&& again == (ProbeOutput { integrated: !output.integrated, ..output })
                ==> probe_fault(output, false) == probe_fault(again, false)
            &&& parents.len() > 1 ==> probe_fault(output, false) is Some && probe_fault(
                output,
                true,
            ) is Some
        }),
{
}

/// An answer of a remote speaks of one reference only: it is accepted for that one and for
/// no other, and only if it is a single line.
pub proof fn law_remotes_answer_for_one_reference(
    output: Seq<u8>,
    asked: Seq<char>,
    other: Seq<char>,
)
    ensures
        remote_object(output, asked) is Ok && remote_object(output, other) is Ok ==> asked
            == other,
        remote_object(output, asked) is Ok ==> valid_utf8(output) && lines_of(
            decode_utf8(output),
        ).len() == 1,
        remote_object(output, asked) is Ok && asked != other ==> remote_object(
            output,
            other,
        ) is Err,
{
}

/// A remote that names a reference behind an object is believed to mean that object.
pub proof fn law_remotes_are_taken_at_their_word(
    output: Seq<u8>,
    reference: Seq<char>,
    oid: GitOidView,
    i: int,
)
    requires
        valid_utf8(output),
        lines_of(decode_utf8(output)).len() == 1,
        first_blank(lines_of(decode_utf8(output))[0], i),
        trimmed(lines_of(decode_utf8(output))[0].skip(i + 1)) == reference,
        oid_of_hex(trimmed(lines_of(decode_utf8(output))[0].take(i))) == Some(oid),
    ensures
        remote_object(output, reference) is Ok,
        remote_object(output, reference)->Ok_0 == oid,
{
    let line = lines_of(decode_utf8(output))[0];
    let j = choose|j: int| first_blank(line, j);
    assert(first_blank(line, j));
    assert(i == j);
}

/// Only silence with the code for absence says that a remote has no such reference; an
/// answer or a complaint never does.
pub proof fn law_absence_is_silent(output: CommandOutput)
    ensures
        says_absent(output) ==> output.stdout@.len() == 0 && output.stderr@.len() == 0
            && output.exit_code == Some(2i32),
        output.stderr@.len() > 0 || output.stdout@.len() > 0 || output.exit_code != Some(2i32)
            ==> !says_absent(output),
        output.stdout@.len() == 0 && output.stderr@.len() == 0 && output.exit_code == Some(2i32)
            ==> says_absent(output),
{
}

proof fn lemma_changes_shift(
    before: Seq<Seq<u8>>,
    rest: Seq<Seq<u8>>,
    i: int,
    found: Seq<Seq<char>>,
)
    requires
        0 <= i,
    ensures
        changes_from(before + rest, before.len() + i, found) == changes_from(rest, i, found),
    decreases rest.len() - i,
{
    let all = before + rest;
    let n = before.len() as int;
    if i < rest.len() {
        assert(all[n + i] == rest[i]);
        if i + 1 < rest.len() {
            assert(all[n + i + 1] == rest[i + 1]);
            let once = found.push(decode_utf8(rest[i + 1]));
            lemma_changes_shift(before, rest, i + 2, once);
            if i + 2 < rest.len() {
                assert(all[n + i + 2] == rest[i + 2]);
                lemma_changes_shift(before, rest, i + 3, once.push(decode_utf8(rest[i + 2])));
            }
        }
    }
}

/// A change names its path; a rename and a copy name both, the old one first. No change is
/// lost, whatever stands before or behind it.
pub proof fn law_every_changed_path_is_told(
    status: Seq<u8>,
    old_path: Seq<u8>,
    new_path: Seq<u8>,
    rest: Seq<Seq<u8>>,
    found: Seq<Seq<char>>,
)
    requires
        valid_utf8(old_path),
        valid_utf8(new_path),
    ensures
        ({
            let renamed = status.len() > 0 && (status[0] == 82 || status[0] == 67);
            &&& !renamed ==> changes_from(seq![status, new_path] + rest, 0, found)
                == changes_from(rest, 0, found.push(decode_utf8(new_path)))
            &&& renamed ==> changes_from(seq![status, old_path, new_path] + rest, 0, found)
                == changes_from(
                rest,
                0,
                found.push(decode_utf8(old_path)).push(decode_utf8(new_path)),
            )
        }),
{
    let once = found.push(decode_utf8(new_path));
    let twice = found.push(decode_utf8(old_path)).push(decode_utf8(new_path));
    lemma_changes_shift(seq![status, new_path], rest, 0, once);
    lemma_changes_shift(seq![status, old_path, new_path], rest, 0, twice);
    let one = seq![status, new_path] + rest;
    let two = seq![status, old_path, new_path] + rest;
    assert(one[0] == status && one[1] == new_path);
    assert(two[0] == status && two[1] == old_path && two[2] == new_path);
}

/// Nothing changed names no path, and a status without its path is no answer.
pub proof fn law_statuses_come_with_paths(status: Seq<u8>, found: Seq<Seq<char>>)
    ensures
        changes_from(Seq::empty(), 0, found) == Ok::<Seq<Seq<char>>, ChangesFault>(found),
        changes_from(seq![status], 0, found) is Err,
{
}

/// Field `j` says that the branch is checked out.
pub open spec fn holds_branch(fields: Seq<Seq<u8>>, branch: Seq<u8>, j: int) -> bool {
    worktree_field(fields[j]) == (WorktreeField::Branch { name: branch })
}

/// A branch is checked out somewhere exactly if the list of worktrees says so of it, and the
/// two ways of reading the list agree on that.
pub proof fn law_checkouts_are_found(
    fields: Seq<Seq<u8>>,
    branch: Seq<u8>,
    i: int,
    place: Seq<char>,
    current: Option<Seq<char>>,
    found: Seq<Seq<char>>,
)
    requires
        0 <= i,
    ensures
        first_checkout(fields, branch, i, place) is Some <==> exists|j: int|
            i <= j < fields.len() && #[trigger] holds_branch(fields, branch, j),
        checkouts(fields, branch, i, current, found) matches Some(all) ==> {
            &&& all.len() >= found.len()
            &&& all.take(found.len() as int) == found
            &&& all.len() == found.len() <==> first_checkout(fields, branch, i, place) is None
        },
    decreases fields.len() - i,
{
    if i >= fields.len() {
        assert(found.take(found.len() as int) =~= found);
    } else {
        match worktree_field(fields[i]) {
            WorktreeField::End => {
                law_checkouts_are_found(fields, branch, i + 1, place, None, found);
            },
            WorktreeField::Path { path } => {
                law_checkouts_are_found(fields, branch, i + 1, path, Some(path), found);
            },
            WorktreeField::Branch { name } => {
                if name == branch {
                    assert(holds_branch(fields, branch, i));
                    if let Some(path) = current {
                        let more = found.push(path);
                        law_checkouts_are_found(fields, branch, i + 1, place, current, more);
                        if let Some(all) = checkouts(fields, branch, i + 1, current, more) {
                            assert(all.take(found.len() as int) =~= all.take(
                                more.len() as int,
                            ).take(found.len() as int));
                            assert(more.take(found.len() as int) =~= found);
                        }
                    }
                } else {
                    law_checkouts_are_found(fields, branch, i + 1, place, current, found);
                }
            },
            WorktreeField::Other => {
                law_checkouts_are_found(fields, branch, i + 1, place, current, found);
            },
        }
        if exists|j: int| i <= j < fields.len() && #[trigger] holds_branch(fields, branch, j) {
            let j = choose|j: int|
                i <= j < fields.len() && #[trigger] holds_branch(fields, branch, j);
            if j > i {
                assert(i + 1 <= j < fields.len() && holds_branch(fields, branch, j));
            }
        }
    }
}

/// Of output that NUL bytes separate, every field that is not empty is kept.
pub proof fn law_fields_are_kept(bytes: Seq<u8>, i: int)
    requires
        0 <= i < split_at(bytes, 0).len(),
    ensures
        split_at(bytes, 0)[i].len() > 0 <==> nul_fields(bytes).contains(split_at(bytes, 0)[i]),
{
    lemma_filter_members(
        split_at(bytes, 0),
        |field: Seq<u8>| crate::git_parse::filled(field),
    );
}

/// A list of identifiers has one for each line that is not empty, in order; a line that is
/// none spoils the list.
pub proof fn law_lines_name_objects(lines: Seq<Seq<char>>, i: int, line: Seq<char>)
    requires
        0 <= i <= lines.len(),
    ensures
        i < lines.len() && lines[i].len() == 0 ==> oids_on(lines, i) == oids_on(lines, i + 1),
        i < lines.len() && lines[i].len() > 0 && oid_of_hex(lines[i]) is None ==> oids_on(
            lines,
            i,
        ) is None,
        i < lines.len() && lines[i].len() > 0 ==> (oids_on(lines, i) matches Some(all) ==> all.len()
            > 0 && Some(all[0]) == oid_of_hex(lines[i]) && Some(all.drop_first()) == oids_on(
            lines,
            i + 1,
        )),
        oids_on(lines, lines.len() as int) == Some(Seq::<GitOidView>::empty()),
{
    if i < lines.len() && lines[i].len() > 0 {
        if let Some(all) = oids_on(lines, i) {
            assert(all.drop_first() =~= oids_on(lines, i + 1)->0);
        }
    }
}

/// A directory is named without the slashes behind it; nothing else of the path is lost.
pub proof fn law_slashes_behind_a_path_do_not_count(path: Seq<char>)
    ensures
        without_slashes(path.push('/')) == without_slashes(path),
        without_slashes(path).len() > 0 ==> without_slashes(path).last() != '/',
        without_slashes(path).len() <= path.len(),
        without_slashes(path) == path.take(without_slashes(path).len() as int),
        path.len() > 0 && path.last() != '/' ==> without_slashes(path) == path,
    decreases path.len(),
{
    assert(path.push('/').drop_last() =~= path);
    if path.len() > 0 && path.last() == '/' {
        law_slashes_behind_a_path_do_not_count(path.drop_last());
        let kept = without_slashes(path);
        assert(path.drop_last().take(kept.len() as int) =~= path.take(kept.len() as int));
    } else {
        assert(path.take(path.len() as int) =~= path);
    }
}

} // verus!
