//! Decisions on references and worktrees, each taken on what Git has said.

use crate::git_error::{invalid_output, GitError};
use crate::git_parse::{output_text, parse_oid, parse_oids};
#[allow(unused_imports)]
use crate::git_parse::{oid_in, oids_in, unreadable_oid};
#[allow(unused_imports)]
use crate::git_sync::optional_oid;
#[allow(unused_imports)]
use crate::git_worktree::is_reserved;
use crate::git_worktree::{reserved_branch, CommandOutput};
use crate::ids::QueueItemId;
use crate::oid::GitOid;
#[allow(unused_imports)]
use crate::oid::{oid_views, GitOidView};
use crate::outside::lossy_text;
#[allow(unused_imports)]
use crate::outside::{lossy_text_of, uuid_text};
use crate::scan::trim_str;
#[allow(unused_imports)]
use crate::scan::trimmed;
use crate::text::{chars_of, concat3, str_equal};
use vstd::prelude::*;
#[allow(unused_imports)]
use vstd::utf8::{decode_utf8, valid_utf8};

verus! {

/// The error says that a command failed and what it wrote.
pub open spec fn reports_command(error: GitError, command: Seq<char>, stderr: Seq<u8>) -> bool {
    error matches GitError::Command { command: said, stderr: written } && said@ == command
        && written@ == trimmed(lossy_text_of(stderr))
}

/// The error of a command that failed.
pub fn command_failure(command: &str, stderr: &[u8]) -> (r: GitError)
    ensures
        reports_command(r, command@, stderr@),
{
    GitError::Command {
        command: command.to_owned(),
        stderr: trim_str(lossy_text(stderr).as_str()),
    }
}

/// The command succeeded.
pub open spec fn succeeded(output: CommandOutput) -> bool {
    output.exit_code == Some(0i32)
}

/// Judges whether a reference exists, by how the question for it ended.
pub fn ref_exists(output: &CommandOutput, reference: &str) -> (r: Result<bool, GitError>)
    ensures
        succeeded(*output) ==> r == Ok::<bool, GitError>(true),
        !succeeded(*output) && output.exit_code == Some(1i32) && output.stderr@.len() == 0 ==> r
            == Ok::<bool, GitError>(false),
        !succeeded(*output) && !(output.exit_code == Some(1i32) && output.stderr@.len() == 0) ==> (
        r matches Err(error) && reports_command(
            error,
            "git show-ref --verify --quiet "@ + reference@,
            output.stderr@,
        )),
{
    match output.exit_code {
        Some(0) => {
            return Ok(true);
        },
        Some(1) => {
            if output.stderr.len() == 0 {
                return Ok(false);
            }
        },
        _ => {},
    }
    let command = "git show-ref --verify --quiet ".to_owned().concat(reference);
    Err(command_failure(command.as_str(), output.stderr.as_slice()))
}

/// Reads what a reference that exists points to.
pub fn ref_target(output: &CommandOutput, reference: &str) -> (r: Result<GitOid, GitError>)
    ensures
        r is Ok <==> succeeded(*output) && oid_in(output.stdout@) is Some,
        r matches Ok(oid) ==> oid.wf() && oid_in(output.stdout@) == Some(oid@),
        r matches Err(error) ==> if succeeded(*output) {
            unreadable_oid(error, output.stdout@)
        } else {
            reports_command(
                error,
                "git show-ref --verify --hash "@ + reference@,
                output.stderr@,
            )
        },
{
    if let Some(0) = output.exit_code {
        return parse_oid(output.stdout.as_slice());
    }
    let command = "git show-ref --verify --hash ".to_owned().concat(reference);
    Err(command_failure(command.as_str(), output.stderr.as_slice()))
}

/// Reads the branch that a worktree is on, if it is on one.
pub fn current_branch(output: &[u8]) -> (r: Result<Option<String>, GitError>)
    ensures
        r is Ok <==> valid_utf8(output@),
        r matches Ok(None) ==> trimmed(decode_utf8(output@)).len() == 0,
        r matches Ok(Some(branch)) ==> branch@ == trimmed(decode_utf8(output@)) && branch@.len()
            > 0,
        r matches Err(error) ==> error is InvalidOutput,
{
    let text = match output_text(output) {
        Ok(text) => text,
        Err(error) => {
            return Err(error);
        },
    };
    let branch = trim_str(text.as_str());
    if chars_of(branch.as_str()).len() == 0 {
        return Ok(None);
    }
    Ok(Some(branch))
}

/// The commits between two that are asked for only if the older one is not already
/// part of the newer one.
pub fn unmerged_first_parent_ancestors(merged: bool, output: &[u8]) -> (r: Result<
    Vec<GitOid>,
    GitError,
>)
    ensures
        merged ==> (r matches Ok(oids) && oids@.len() == 0),
        !merged ==> (r is Ok <==> oids_in(output@) is Some),
        !merged ==> (r matches Ok(oids) ==> oids_in(output@) == Some(oid_views(oids@))),
        r matches Err(error) ==> if valid_utf8(output@) {
            error is Oid
        } else {
            error is InvalidOutput
        },
{
    if merged {
        return Ok(Vec::new());
    }
    parse_oids(output)
}

/// The name of the reference that keeps a source.
pub open spec fn source_ref(item: QueueItemId) -> Seq<char> {
    "refs/tollgate/sources/"@ + uuid_text(item.0)
}

/// The name of the reference that keeps the source of an item.
pub fn source_ref_name(item: QueueItemId) -> (r: String)
    ensures
        r@ == source_ref(item),
{
    "refs/tollgate/sources/".to_owned().concat(item.to_text().as_str())
}

fn expect_oid(observed: &GitOid, expected: &GitOid, complaint: &str) -> (r: Result<(), GitError>)
    ensures
        r is Ok <==> observed@ == expected@,
        r matches Err(error) ==> error.bad_output(complaint@),
{
    if observed.same(expected) {
        Ok(())
    } else {
        Err(invalid_output(complaint))
    }
}

/// Checks that the reference that keeps a source points to it.
pub fn confirm_source_ref(observed: &GitOid, source: &GitOid) -> (r: Result<(), GitError>)
    ensures
        r is Ok <==> observed@ == source@,
        r matches Err(error) ==> error.bad_output("source retention ref mismatch"@),
{
    expect_oid(observed, source, "source retention ref mismatch")
}

/// Checks that the reference that kept a source is gone.
pub fn confirm_source_ref_deleted(remaining: &Option<GitOid>) -> (r: Result<(), GitError>)
    ensures
        r is Ok <==> remaining is None,
        r matches Err(error) ==> error.bad_output(
            "source retention ref still exists after asserted deletion"@,
        ),
{
    match remaining {
        None => Ok(()),
        Some(_) => Err(
            invalid_output("source retention ref still exists after asserted deletion"),
        ),
    }
}

/// Checks that the integration branch has been moved.
pub fn confirm_release(observed: &GitOid, tested_new: &GitOid) -> (r: Result<(), GitError>)
    ensures
        r is Ok <==> observed@ == tested_new@,
        r matches Err(error) ==> error.bad_output("release CAS result mismatch"@),
{
    expect_oid(observed, tested_new, "release CAS result mismatch")
}

/// What is to be done about the integration branch.
#[derive(Clone, Debug, PartialEq, Eq)]
pub enum ReleasePlan {
    /// It already is where it should be.
    Keep,
    /// It is to be made.
    Create,
}

/// What is done about the integration branch, given where the user's branch is. `None` says
/// that it is somewhere else, and is left there.
pub open spec fn release_plan(master: GitOidView, release: Option<GitOidView>) -> Option<
    ReleasePlan,
> {
    match release {
        None => Some(ReleasePlan::Create),
        Some(oid) => if oid == master {
            Some(ReleasePlan::Keep)
        } else {
            None
        },
    }
}

/// Decides about the integration branch when a repository is first registered: it
/// starts where the user's branch is, and is never overwritten.
pub fn plan_release(master: &GitOid, release: &Option<GitOid>) -> (r: Result<
    ReleasePlan,
    GitError,
>)
    requires
        master.wf(),
        release matches Some(oid) ==> oid.wf(),
    ensures
        match release_plan(master@, optional_oid(*release)) {
            Some(plan) => r == Ok::<ReleasePlan, GitError>(plan),
            None => r is Err,
        },
        match optional_oid(*release) {
            None => r == Ok::<ReleasePlan, GitError>(ReleasePlan::Create),
            Some(oid) => if oid == master@ {
                r == Ok::<ReleasePlan, GitError>(ReleasePlan::Keep)
            } else {
                r matches Err(error) && error.bad_output(
                    "local `release` already exists at "@ + oid.hex().take(10)
                        + ", but `master` is "@ + master@.hex().take(10)
                        + "; Tollgate will not overwrite it"@,
                )
            },
        },
{
    let release = match release {
        Some(release) => release,
        None => {
            return Ok(ReleasePlan::Create);
        },
    };
    if release.same(master) {
        return Ok(ReleasePlan::Keep);
    }
    let mut text = concat3(
        "local `release` already exists at ",
        release.short().as_str(),
        ", but `master` is ",
    );
    text.append(master.short().as_str());
    text.append("; Tollgate will not overwrite it");
    Err(GitError::InvalidOutput(text))
}

/// Checks that the integration branch was made where the user's branch is.
pub fn confirm_release_created(observed: &GitOid, master: &GitOid) -> (r: Result<(), GitError>)
    ensures
        r is Ok <==> observed@ == master@,
        r matches Err(error) ==> error.bad_output(
            "release initialization did not preserve the exact master OID"@,
        ),
{
    expect_oid(observed, master, "release initialization did not preserve the exact master OID")
}

/// Decides about the integration branch when a repository moves to having one.
pub fn plan_migration(master: &GitOid, release: &Option<GitOid>) -> (r: Result<
    ReleasePlan,
    GitError,
>)
    requires
        master.wf(),
        release matches Some(oid) ==> oid.wf(),
    ensures
        match release_plan(master@, optional_oid(*release)) {
            Some(plan) => r == Ok::<ReleasePlan, GitError>(plan),
            None => r is Err,
        },
        match optional_oid(*release) {
            None => r == Ok::<ReleasePlan, GitError>(ReleasePlan::Create),
            Some(oid) => if oid == master@ {
                r == Ok::<ReleasePlan, GitError>(ReleasePlan::Keep)
            } else {
                r matches Err(error) && error.bad_output(
                    "cannot migrate Tollgate authority: existing `release` "@ + oid.hex().take(10)
                        + " differs from legacy `master` "@ + master@.hex().take(10),
                )
            },
        },
{
    let release = match release {
        Some(release) => release,
        None => {
            return Ok(ReleasePlan::Create);
        },
    };
    if release.same(master) {
        return Ok(ReleasePlan::Keep);
    }
    let mut text = concat3(
        "cannot migrate Tollgate authority: existing `release` ",
        release.short().as_str(),
        " differs from legacy `master` ",
    );
    text.append(master.short().as_str());
    Err(GitError::InvalidOutput(text))
}

/// Checks that a worktree for a feature may be made.
pub fn check_feature_worktree(
    branch: &str,
    destination: &str,
    exists: bool,
    valid_name: bool,
) -> (r: Result<(), GitError>)
    ensures
        r is Ok <==> !exists && valid_name && !is_reserved(branch@),
        r matches Err(error) ==> error.bad_output(
            if exists {
                "worktree destination already exists: "@ + destination@
            } else {
                "feature branch name is invalid or reserved"@
            },
        ),
{
    if exists {
        return Err(
            GitError::InvalidOutput(
                "worktree destination already exists: ".to_owned().concat(destination),
            ),
        );
    }
    if !valid_name || reserved_branch(branch) {
        return Err(invalid_output("feature branch name is invalid or reserved"));
    }
    Ok(())
}

/// Checks that a worktree for a feature stands where it was made.
pub fn confirm_feature_worktree(same_repository: bool, head: &GitOid, release: &GitOid) -> (r:
    Result<(), GitError>)
    ensures
        r is Ok <==> same_repository && head@ == release@,
        r matches Err(error) ==> error.bad_output(
            "created worktree identity did not match the gated release"@,
        ),
{
    if same_repository && head.same(release) {
        Ok(())
    } else {
        Err(invalid_output("created worktree identity did not match the gated release"))
    }
}

/// Checks that a branch is one that can be updated.
pub fn check_feature_branch(branch: &Option<String>) -> (r: Result<(), GitError>)
    ensures
        r is Ok <==> branch is Some && !is_reserved(branch->0@),
        r matches Err(error) ==> error.bad_output(
            if branch is None {
                "feature update requires a checked-out branch"@
            } else {
                "feature update cannot operate on master or release"@
            },
        ),
{
    match branch {
        None => Err(invalid_output("feature update requires a checked-out branch")),
        Some(branch) => if reserved_branch(branch.as_str()) {
            Err(invalid_output("feature update cannot operate on master or release"))
        } else {
            Ok(())
        },
    }
}

/// Checks that a feature has one commit of its own.
pub fn check_one_commit(count: &[u8]) -> (r: Result<(), GitError>)
    ensures
        r is Ok <==> valid_utf8(count@) && trimmed(decode_utf8(count@)) == "1"@,
        r matches Err(error) ==> if valid_utf8(count@) {
            error.bad_output("feature update requires exactly one unique source commit"@)
        } else {
            error is InvalidOutput
        },
{
    let text = match output_text(count) {
        Ok(text) => text,
        Err(error) => {
            return Err(error);
        },
    };
    if !str_equal(trim_str(text.as_str()).as_str(), "1") {
        return Err(invalid_output("feature update requires exactly one unique source commit"));
    }
    Ok(())
}

/// Judges how a feature was put onto the integration branch.
pub fn confirm_feature_update(success: bool, new_parent: &Option<GitOid>, release: &GitOid) -> (r:
    Result<(), GitError>)
    ensures
        r is Ok <==> success && optional_oid(*new_parent) == Some(release@),
        r matches Err(error) ==> if !success {
            error is Unmergeable
        } else {
            error.bad_output("updated feature does not have current release as its exact parent"@)
        },
{
    if !success {
        return Err(GitError::Unmergeable);
    }
    if let Some(parent) = new_parent {
        if parent.same(release) {
            return Ok(());
        }
    }
    Err(invalid_output("updated feature does not have current release as its exact parent"))
}

/// Whether an object is still to be retained under a name. `None` says that the name is
/// taken by another object.
pub open spec fn retention_plan(existing: Option<GitOidView>, oid: GitOidView) -> Option<bool> {
    match existing {
        None => Some(true),
        Some(held) => if held == oid {
            Some(false)
        } else {
            None
        },
    }
}

/// Decides whether an object is still to be kept under a reference, which may exist.
pub fn plan_retention(destination: &str, existing: &Option<GitOid>, oid: &GitOid) -> (r: Result<
    bool,
    GitError,
>)
    ensures
        match retention_plan(optional_oid(*existing), oid@) {
            Some(update) => r == Ok::<bool, GitError>(update),
            None => r is Err,
        },
        match optional_oid(*existing) {
            None => r == Ok::<bool, GitError>(true),
            Some(held) => if held == oid@ {
                r == Ok::<bool, GitError>(false)
            } else {
                r matches Err(error) && error.bad_output(
                    "retained-object ref "@ + destination@
                        + " already records a different object"@,
                )
            },
        },
{
    let existing = match existing {
        Some(existing) => existing,
        None => {
            return Ok(true);
        },
    };
    if existing.same(oid) {
        return Ok(false);
    }
    Err(
        GitError::InvalidOutput(
            concat3(
                "retained-object ref ",
                destination,
                " already records a different object",
            ),
        ),
    )
}

/// Judges how an object was put under a reference. A failure does not matter if the
/// reference points to the object all the same.
pub fn confirm_retention(
    update: Result<(), GitError>,
    observed: Result<GitOid, GitError>,
    oid: &GitOid,
) -> (r: Result<(), GitError>)
    ensures
        r is Ok <==> (observed matches Ok(held) && held@ == oid@),
        r matches Err(error) ==> match update {
            Err(failure) => error == failure,
            Ok(_) => match observed {
                Err(failure) => error == failure,
                Ok(_) => error.bad_output("tested object retention mismatch"@),
            },
        },
{
    match update {
        Err(failure) => {
            if let Ok(held) = observed {
                if held.same(oid) {
                    return Ok(());
                }
            }
            Err(failure)
        },
        Ok(_) => match observed {
            Err(failure) => Err(failure),
            Ok(held) => if held.same(oid) {
                Ok(())
            } else {
                Err(invalid_output("tested object retention mismatch"))
            },
        },
    }
}

/// What an object that was tested is kept under.
pub fn tested_ref(buildset_ref: &str) -> (r: String)
    ensures
        r@ == "refs/tollgate/tested/"@ + buildset_ref@,
{
    "refs/tollgate/tested/".to_owned().concat(buildset_ref)
}

/// What an object that was projected is kept under.
pub fn projected_ref(generation_ref: &str) -> (r: String)
    ensures
        r@ == "refs/tollgate/projected/"@ + generation_ref@,
{
    "refs/tollgate/projected/".to_owned().concat(generation_ref)
}

/// A worktree that may have to be cleaned up.
#[derive(Clone, Debug, PartialEq, Eq)]
pub struct LinkedWorktree {
    pub same_repository: bool,
    pub head: GitOid,
    pub branch_oid: GitOid,
}

/// Whether a worktree is one that is never removed: the repository's own, or one of a
/// reserved branch.
pub fn keeps_worktree(is_own_root: bool, branch: &str) -> (r: bool)
    ensures
        r == (is_own_root || is_reserved(branch@)),
{
    is_own_root || reserved_branch(branch)
}

/// What keeps a worktree from being removed.
pub open spec fn cleanup_fault(worktree: LinkedWorktree, expected: GitOidView) -> Option<
    Seq<char>,
> {
    if !worktree.same_repository {
        Some("cleanup worktree belongs to a different repository"@)
    } else if worktree.head@ != expected {
        Some("cleanup worktree moved after approval"@)
    } else if worktree.branch_oid@ != expected {
        Some("cleanup branch moved after approval"@)
    } else {
        None
    }
}

/// Checks that a worktree may be removed.
pub fn check_cleanup(worktree: &LinkedWorktree, expected_source: &GitOid) -> (r: Result<
    (),
    GitError,
>)
    ensures
        match cleanup_fault(*worktree, expected_source@) {
            None => r is Ok,
            Some(text) => r matches Err(error) && error.bad_output(text),
        },
{
    if !worktree.same_repository {
        return Err(invalid_output("cleanup worktree belongs to a different repository"));
    }
    match expect_oid(&worktree.head, expected_source, "cleanup worktree moved after approval") {
        Ok(()) => {},
        Err(error) => {
            return Err(error);
        },
    }
    expect_oid(&worktree.branch_oid, expected_source, "cleanup branch moved after approval")
}

/// Checks that what was fetched is what the remote said.
pub fn confirm_fetch(observed: &GitOid, fetched: &Option<GitOid>) -> (r: Result<(), GitError>)
    ensures
        r is Ok <==> optional_oid(*fetched) == Some(observed@),
        r matches Err(error) ==> error.bad_output(
            if fetched is None {
                "fetched observation ref is absent"@
            } else {
                "remote changed while its exact ref was being fetched"@
            },
        ),
{
    match fetched {
        None => Err(invalid_output("fetched observation ref is absent")),
        Some(fetched) => expect_oid(
            fetched,
            observed,
            "remote changed while its exact ref was being fetched",
        ),
    }
}

/// How a branch of a remote is pushed only if it still is where it was seen.
#[derive(Clone, Debug, PartialEq, Eq)]
pub struct PushArguments {
    pub lease: String,
    pub refspec: String,
}

/// What a push leases: the branch, from the object that is expected there, or from nothing.
pub open spec fn lease_text(branch: Seq<char>, expected: Option<GitOidView>) -> Seq<char> {
    "--force-with-lease="@ + ("refs/heads/"@ + branch) + ":"@ + match expected {
        Some(oid) => oid.hex(),
        None => Seq::empty(),
    }
}

/// What a push moves: an object, to the branch.
pub open spec fn refspec_text(branch: Seq<char>, new_oid: GitOidView) -> Seq<char> {
    new_oid.hex() + ":"@ + ("refs/heads/"@ + branch)
}

/// How a branch of a remote is pushed.
pub fn push_arguments(branch: &str, expected: &Option<GitOid>, new_oid: &GitOid) -> (r:
    PushArguments)
    ensures
        r.lease@ == lease_text(branch@, optional_oid(*expected)),
        r.refspec@ == refspec_text(branch@, new_oid@),
        r.lease@ == "--force-with-lease="@ + ("refs/heads/"@ + branch@) + ":"@ + match optional_oid(
            *expected,
        ) {
            Some(oid) => oid.hex(),
            None => Seq::empty(),
        },
        r.refspec@ == new_oid@.hex() + ":"@ + ("refs/heads/"@ + branch@),
{
    let reference = "refs/heads/".to_owned().concat(branch);
    let mut lease = concat3("--force-with-lease=", reference.as_str(), ":");
    match expected {
        Some(oid) => lease.append(oid.to_hex().as_str()),
        None => {
            proof {
                assert(lease@ + Seq::empty() =~= lease@);
            }
        },
    }
    let refspec = concat3(new_oid.to_hex().as_str(), ":", reference.as_str());
    PushArguments { lease, refspec }
}

/// The object has been pushed: the transport succeeded, and the remote has it.
pub open spec fn is_pushed(
    output: CommandOutput,
    observed: Option<GitOidView>,
    new_oid: GitOidView,
) -> bool {
    succeeded(output) && observed == Some(new_oid)
}

/// Judges how pushing ended.
pub fn confirm_push(
    remote: &str,
    branch: &str,
    output: &CommandOutput,
    observed: &Option<GitOid>,
    new_oid: &GitOid,
) -> (r: Result<(), GitError>)
    ensures
        r is Ok <==> is_pushed(*output, optional_oid(*observed), new_oid@),
        r is Ok <==> succeeded(*output) && optional_oid(*observed) == Some(new_oid@),
        r matches Err(error) ==> if succeeded(*output) {
            error.bad_output(
                "remote did not contain the exact pushed object after transport success"@,
            )
        } else {
            reports_command(
                error,
                "git push --force-with-lease "@ + remote@ + " "@ + ("refs/heads/"@ + branch@),
                output.stderr@,
            )
        },
{
    if let Some(0) = output.exit_code {
        if let Some(observed) = observed {
            if observed.same(new_oid) {
                return Ok(());
            }
        }
        return Err(
            invalid_output(
                "remote did not contain the exact pushed object after transport success",
            ),
        );
    }
    let command = concat3("git push --force-with-lease ", remote, " ").concat(
        "refs/heads/".to_owned().concat(branch).as_str(),
    );
    Err(command_failure(command.as_str(), output.stderr.as_slice()))
}

/// Checks that a slot may be put aside: it is a directory, and its new place is free.
pub fn check_quarantine(is_symlink: bool, is_directory: bool, destination_exists: bool) -> (r:
    Result<(), GitError>)
    ensures
        r is Ok <==> !is_symlink && is_directory && !destination_exists,
        r matches Err(error) ==> error.bad_output(
            "slot quarantine requires an existing real directory and absent destination"@,
        ),
{
    if is_symlink || !is_directory || destination_exists {
        return Err(
            invalid_output(
                "slot quarantine requires an existing real directory and absent destination",
            ),
        );
    }
    Ok(())
}

/// Checks that a slot has been put aside.
pub fn confirm_quarantine(slot_exists: bool, destination_exists: bool) -> (r: Result<(), GitError>)
    ensures
        r is Ok <==> !slot_exists && destination_exists,
        r matches Err(error) ==> error.bad_output(
            "slot quarantine path identities did not settle as expected"@,
        ),
{
    if slot_exists || !destination_exists {
        return Err(invalid_output("slot quarantine path identities did not settle as expected"));
    }
    Ok(())
}

} // verus!
