//! Bringing the user's own branch in line with what has been validated.

use crate::git_error::{invalid_output, GitError};
use crate::git_parse::parse_single_parent;
#[allow(unused_imports)]
use crate::git_parse::{no_single_parent, single_parent_in};
use crate::oid::{GitOid, ObjectFormat};
#[allow(unused_imports)]
use crate::oid::GitOidView;
use crate::text::concat3;
#[allow(unused_imports)]
use crate::text::optional_text;
use vstd::prelude::*;
#[allow(unused_imports)]
use vstd::utf8::valid_utf8;

verus! {

/// What has become of the user's branch.
#[derive(Clone, Debug, PartialEq, Eq)]
#[allow(inconsistent_fields)]
pub enum UserMasterSyncOutcome {
    UpdatedCheckout { path: String },
    UpdatedRef,
    AlreadyCurrent { path: Option<String> },
    NeedsAttention { path: Option<String>, reason: String },
}

/// What an outcome says.
#[verifier::ext_equal]
#[allow(inconsistent_fields)]
pub enum SyncView {
    UpdatedCheckout { path: Seq<char> },
    UpdatedRef,
    AlreadyCurrent { path: Option<Seq<char>> },
    NeedsAttention { path: Option<Seq<char>>, reason: Seq<char> },
}

fn copy_optional(text: &Option<String>) -> (r: Option<String>)
    ensures
        optional_text(r) == optional_text(*text),
{
    match text {
        Some(text) => Some(text.as_str().to_owned()),
        None => None,
    }
}

impl View for UserMasterSyncOutcome {
    type V = SyncView;

    open spec fn view(&self) -> SyncView {
        match self {
            UserMasterSyncOutcome::UpdatedCheckout { path } => SyncView::UpdatedCheckout {
                path: path@,
            },
            UserMasterSyncOutcome::UpdatedRef => SyncView::UpdatedRef,
            UserMasterSyncOutcome::AlreadyCurrent { path } => SyncView::AlreadyCurrent {
                path: optional_text(*path),
            },
            UserMasterSyncOutcome::NeedsAttention { path, reason } => SyncView::NeedsAttention {
                path: optional_text(*path),
                reason: reason@,
            },
        }
    }
}

/// What an optional identifier holds.
pub open spec fn optional_oid(oid: Option<GitOid>) -> Option<GitOidView> {
    match oid {
        Some(oid) => Some(oid@),
        None => None,
    }
}

/// As many zeros as the notation of an identifier has digits.
pub open spec fn zeros(format: ObjectFormat) -> Seq<char> {
    Seq::new(2 * format.width(), |i: int| '0')
}

/// The identifier of nothing: a reference is expected not to exist.
pub fn zero_oid(format: ObjectFormat) -> (r: String)
    ensures
        r@ == zeros(format),
{
    let mut out = String::new();
    let count: usize = 2 * format.byte_len();
    let mut i: usize = 0;
    while i < count
        invariant
            i <= count,
            count == 2 * format.width(),
            out@ == Seq::new(i as nat, |k: int| '0'),
        decreases count - i,
    {
        out.append("0");
        i += 1;
        proof {
            reveal_strlit("0");
            assert(out@ =~= Seq::new(i as nat, |k: int| '0'));
        }
    }
    assert(out@ =~= zeros(format));
    out
}

/// What is to be done about the reference that tracks the remote.
#[derive(Clone, Debug, PartialEq, Eq)]
#[allow(inconsistent_fields)]
pub enum TrackingPlan {
    /// The reference has no valid name.
    Refused(UserMasterSyncOutcome),
    /// It is as it should be.
    Keep,
    /// It is to be moved, from what is expected.
    Update { reference: String, new: String, expected: String },
}

/// The name of the reference that tracks a branch of a remote.
pub open spec fn tracking_ref(remote: Seq<char>, branch: Seq<char>) -> Seq<char> {
    "refs/remotes/"@ + remote + "/"@ + branch
}

/// The name of the reference that tracks a branch of a remote.
pub fn tracking_reference(remote: &str, branch: &str) -> (r: String)
    ensures
        r@ == tracking_ref(remote@, branch@),
{
    concat3("refs/remotes/", remote, "/").concat(branch)
}

/// From what the reference that tracks the remote is to be moved, if it is not there yet.
pub open spec fn tracking_move(
    current: Option<GitOidView>,
    remote: GitOidView,
    format: ObjectFormat,
) -> Option<Seq<char>> {
    match current {
        Some(oid) => if oid == remote {
            None
        } else {
            Some(oid.hex())
        },
        None => Some(zeros(format)),
    }
}

/// Decides what is to be done about the reference that tracks the remote.
pub fn plan_tracking(
    remote: &str,
    branch: &str,
    remote_oid: &GitOid,
    valid: bool,
    current: &Option<GitOid>,
    format: ObjectFormat,
) -> (r: TrackingPlan)
    ensures
        r is Refused <==> !valid,
        valid ==> match tracking_move(optional_oid(*current), remote_oid@, format) {
            None => r is Keep,
            Some(from) => r matches TrackingPlan::Update { expected, new, .. } && expected@ == from
                && new@ == remote_oid@.hex(),
        },
        match r {
            TrackingPlan::Refused(outcome) => !valid && outcome@ == (SyncView::NeedsAttention {
                path: None,
                reason: "remote-tracking ref `"@ + tracking_ref(remote@, branch@)
                    + "` is invalid"@,
            }),
            TrackingPlan::Keep => valid && optional_oid(*current) == Some(remote_oid@),
            TrackingPlan::Update { reference, new, expected } => {
                &&& valid && optional_oid(*current) != Some(remote_oid@)
                &&& reference@ == tracking_ref(remote@, branch@)
                &&& new@ == remote_oid@.hex()
                &&& expected@ == match optional_oid(*current) {
                    Some(oid) => oid.hex(),
                    None => zeros(format),
                }
            },
        },
{
    let reference = tracking_reference(remote, branch);
    if !valid {
        let reason = concat3("remote-tracking ref `", reference.as_str(), "` is invalid");
        return TrackingPlan::Refused(UserMasterSyncOutcome::NeedsAttention { path: None, reason });
    }
    let expected = match current {
        Some(oid) => {
            if oid.same(remote_oid) {
                return TrackingPlan::Keep;
            }
            oid.to_hex()
        },
        None => zero_oid(format),
    };
    TrackingPlan::Update { reference, new: remote_oid.to_hex(), expected }
}

/// A checkout of the user's branch.
#[derive(Clone, Debug, PartialEq, Eq)]
pub struct MasterCheckout {
    pub path: String,
    pub same_repository: bool,
    pub dirt: Option<String>,
    pub on_master: bool,
    pub head: GitOid,
}

/// How the user's branch is moved.
#[derive(Clone, Copy, Debug, PartialEq, Eq, Structural)]
pub enum SyncMove {
    /// The branch stands at the source that was validated.
    Project,
    /// The branch is fast-forwarded.
    FastForward,
}

/// What is to be done about the user's branch.
#[derive(Clone, Debug, PartialEq, Eq)]
#[allow(inconsistent_fields)]
pub enum SyncPlan {
    /// Nothing: this is the outcome.
    Settled(UserMasterSyncOutcome),
    /// Find out whether the branch can be fast-forwarded.
    AskAncestry { current: GitOid },
    /// Move the branch, in its checkout if there is one.
    Move { kind: SyncMove, current: GitOid },
}

/// What keeps a checkout of the user's branch from being moved.
pub open spec fn checkout_fault(checkout: MasterCheckout, current: GitOidView) -> Option<
    Seq<char>,
> {
    match checkout.dirt {
        Some(reason) => Some("master worktree is dirty: "@ + reason@),
        None => if !checkout.on_master || checkout.head@ != current {
            Some("master worktree HEAD does not match the local master ref"@)
        } else {
            None
        },
    }
}

/// Where the checkout lies.
pub open spec fn checkout_path(checkout: Option<MasterCheckout>) -> Option<Seq<char>> {
    match checkout {
        Some(checkout) => Some(checkout.path@),
        None => None,
    }
}

/// What is to be done about the user's branch, by what is known before its ancestry is.
pub open spec fn sync_plan(
    checkout: Option<MasterCheckout>,
    current: Option<GitOidView>,
    tested: GitOidView,
    replace: Option<GitOidView>,
    plan: SyncPlan,
) -> bool {
    let path = checkout_path(checkout);
    match current {
        None => plan matches SyncPlan::Settled(outcome) && outcome@ == (SyncView::NeedsAttention {
            path,
            reason: "local `master` does not exist"@,
        }),
        Some(oid) => if checkout is Some && checkout_fault(checkout->0, oid) is Some {
            plan matches SyncPlan::Settled(outcome) && outcome@ == (SyncView::NeedsAttention {
                path,
                reason: checkout_fault(checkout->0, oid)->0,
            })
        } else if oid == tested {
            plan matches SyncPlan::Settled(outcome) && outcome@ == (SyncView::AlreadyCurrent {
                path,
            })
        } else if replace == Some(oid) {
            plan matches SyncPlan::Move { kind, current } && kind == SyncMove::Project && current@
                == oid
        } else {
            plan matches SyncPlan::AskAncestry { current } && current@ == oid
        },
    }
}

fn attention(path: Option<String>, reason: &str) -> (r: SyncPlan)
    ensures
        r matches SyncPlan::Settled(outcome) && outcome@ == (SyncView::NeedsAttention {
            path: optional_text(path),
            reason: reason@,
        }),
{
    SyncPlan::Settled(UserMasterSyncOutcome::NeedsAttention { path, reason: reason.to_owned() })
}

/// Decides what is to be done about the user's branch, before its ancestry is known.
pub fn plan_sync(
    checkout: &Option<MasterCheckout>,
    current: Option<GitOid>,
    tested_new: &GitOid,
    replace_source: &Option<GitOid>,
) -> (r: Result<SyncPlan, GitError>)
    ensures
        ({
            let foreign = current is Some && checkout is Some && !checkout->0.same_repository;
            match r {
                Ok(plan) => !foreign && sync_plan(
                    *checkout,
                    optional_oid(current),
                    tested_new@,
                    optional_oid(*replace_source),
                    plan,
                ),
                Err(error) => foreign && error.bad_output(
                    "master worktree belongs to a different repository"@,
                ),
            }
        }),
{
    let path = match checkout {
        Some(checkout) => Some(checkout.path.as_str().to_owned()),
        None => None,
    };
    let current = match current {
        Some(current) => current,
        None => {
            return Ok(attention(path, "local `master` does not exist"));
        },
    };
    if let Some(checkout) = checkout {
        if !checkout.same_repository {
            return Err(invalid_output("master worktree belongs to a different repository"));
        }
        if let Some(reason) = &checkout.dirt {
            let reason = "master worktree is dirty: ".to_owned().concat(reason.as_str());
            return Ok(attention(path, reason.as_str()));
        }
        if !checkout.on_master || !checkout.head.same(&current) {
            return Ok(
                attention(path, "master worktree HEAD does not match the local master ref"),
            );
        }
    }
    if current.same(tested_new) {
        return Ok(SyncPlan::Settled(UserMasterSyncOutcome::AlreadyCurrent { path }));
    }
    if let Some(source) = replace_source {
        if source.same(&current) {
            return Ok(SyncPlan::Move { kind: SyncMove::Project, current });
        }
    }
    Ok(SyncPlan::AskAncestry { current })
}

/// What is to be done about the user's branch, once its ancestry is known.
pub open spec fn forward_plan(
    path: Option<Seq<char>>,
    current: GitOidView,
    tested: GitOidView,
    ancestor: bool,
    plan: SyncPlan,
) -> bool {
    if ancestor {
        plan matches SyncPlan::Move { kind, current: from } && kind == SyncMove::FastForward && from@
            == current
    } else {
        plan matches SyncPlan::Settled(outcome) && outcome@ == (SyncView::NeedsAttention {
            path,
            reason: "local master "@ + current.hex().take(10)
                + " cannot fast-forward to certified release "@ + tested.hex().take(10),
        })
    }
}

/// Decides what is to be done about the user's branch, once its ancestry is known.
pub fn plan_fast_forward(
    path: &Option<String>,
    current: GitOid,
    tested_new: &GitOid,
    ancestor: bool,
) -> (r: SyncPlan)
    requires
        current.wf(),
        tested_new.wf(),
    ensures
        forward_plan(optional_text(*path), current@, tested_new@, ancestor, r),
{
    if ancestor {
        return SyncPlan::Move { kind: SyncMove::FastForward, current };
    }
    let reason = concat3(
        "local master ",
        current.short().as_str(),
        " cannot fast-forward to certified release ",
    ).concat(tested_new.short().as_str());
    attention(copy_optional(path), reason.as_str())
}

/// What is said when the branch does not stand where it was moved to.
pub open spec fn mismatch_text(kind: SyncMove, checked_out: bool) -> Seq<char> {
    match (kind, checked_out) {
        (SyncMove::Project, true) => "projected master checkout result mismatch"@,
        (SyncMove::Project, false) => "projected master ref result mismatch"@,
        (SyncMove::FastForward, true) => "checked-out master fast-forward result mismatch"@,
        (SyncMove::FastForward, false) => "user master CAS result mismatch"@,
    }
}

/// The branch has arrived, and so has its checkout, if there is one.
pub open spec fn has_arrived(
    checked_out: bool,
    head: Option<GitOidView>,
    master: GitOidView,
    tested: GitOidView,
) -> bool {
    master == tested && (checked_out ==> head == Some(tested))
}

/// Checks that the branch stands where it was moved to. `head` is where its checkout
/// stands.
pub fn confirm_sync(
    kind: SyncMove,
    path: Option<String>,
    head: &Option<GitOid>,
    master: &GitOid,
    tested_new: &GitOid,
) -> (r: Result<UserMasterSyncOutcome, GitError>)
    ensures
        r is Ok <==> has_arrived(path is Some, optional_oid(*head), master@, tested_new@),
        ({
            let arrived = master@ == tested_new@ && (path is Some ==> optional_oid(*head) == Some(
                tested_new@,
            ));
            match r {
                Ok(outcome) => arrived && outcome@ == match path {
                    Some(path) => SyncView::UpdatedCheckout { path: path@ },
                    None => SyncView::UpdatedRef,
                },
                Err(error) => !arrived && error.bad_output(mismatch_text(kind, path is Some)),
            }
        }),
{
    match path {
        Some(path) => {
            let settled = match head {
                Some(head) => head.same(tested_new),
                None => false,
            };
            if settled && master.same(tested_new) {
                Ok(UserMasterSyncOutcome::UpdatedCheckout { path })
            } else {
                match kind {
                    SyncMove::Project => Err(
                        invalid_output("projected master checkout result mismatch"),
                    ),
                    SyncMove::FastForward => Err(
                        invalid_output("checked-out master fast-forward result mismatch"),
                    ),
                }
            }
        },
        None => {
            if master.same(tested_new) {
                Ok(UserMasterSyncOutcome::UpdatedRef)
            } else {
                match kind {
                    SyncMove::Project => Err(
                        invalid_output("projected master ref result mismatch"),
                    ),
                    SyncMove::FastForward => Err(
                        invalid_output("user master CAS result mismatch"),
                    ),
                }
            }
        },
    }
}

/// The user's branch is moved without asking for its ancestry only from the source that
/// was validated, and in a checkout only if that is clean and stands at the branch.
pub proof fn law_only_the_validated_source_is_replaced(
    checkout: Option<MasterCheckout>,
    current: Option<GitOidView>,
    tested: GitOidView,
    replace: Option<GitOidView>,
    plan: SyncPlan,
)
    requires
        sync_plan(checkout, current, tested, replace, plan),
        plan is Move,
    ensures
        current is Some && current == replace,
        checkout matches Some(held) ==> held.dirt is None && held.on_master && Some(held.head@)
            == current,
{
}

/// Nothing is moved, and the user is asked for attention.
pub open spec fn asks_for_attention(plan: SyncPlan) -> bool {
    plan matches SyncPlan::Settled(outcome) && outcome@ is NeedsAttention
}

/// A branch that is checked out with changes, that does not stand where its checkout does,
/// or that cannot be fast-forwarded is left untouched, and attention is asked for. `next` is
/// what is decided when `plan` asks for the ancestry.
pub proof fn law_a_branch_of_the_users_own_is_left_alone(
    checkout: Option<MasterCheckout>,
    current: GitOidView,
    tested: GitOidView,
    replace: Option<GitOidView>,
    ancestor: bool,
    plan: SyncPlan,
    next: SyncPlan,
)
    requires
        sync_plan(checkout, Some(current), tested, replace, plan),
        plan is AskAncestry ==> forward_plan(
            checkout_path(checkout),
            current,
            tested,
            ancestor,
            next,
        ),
    ensures
        checkout matches Some(held) ==> (held.dirt is Some || !held.on_master || held.head@
            != current) ==> asks_for_attention(plan),
        plan is AskAncestry && !ancestor ==> asks_for_attention(next),
        plan is AskAncestry && ancestor ==> (next matches SyncPlan::Move { kind, current: from }
            && kind == SyncMove::FastForward && from@ == current),
{
}

/// What a range of commits is read for.
#[derive(Clone, Copy, Debug, PartialEq, Eq, Structural)]
pub enum RangeUse {
    Rebase,
    Submit,
}

/// A range of commits, each of which has the one before it as its only parent.
pub struct LinearRange {
    last: GitOid,
    used_for: RangeUse,
}

/// What a `LinearRange` denotes.
pub struct RangeView {
    pub last: GitOidView,
    pub used_for: RangeUse,
}

impl View for LinearRange {
    type V = RangeView;

    closed spec fn view(&self) -> RangeView {
        RangeView { last: self.last@, used_for: self.used_for }
    }
}

/// What is said of a commit that does not follow the one before it.
pub open spec fn unlinked_text(commit: GitOidView, before: GitOidView, used_for: RangeUse) -> Seq<
    char,
> {
    "master commit "@ + commit.hex().take(10) + " does not directly follow "@
        + before.hex().take(10) + match used_for {
        RangeUse::Rebase => "; only a linear, merge-free master range can be rebased"@,
        RangeUse::Submit => "; only a linear, merge-free master range can be submitted"@,
    }
}

impl LinearRange {
    /// The identifier of the last commit is well formed.
    pub closed spec fn wf(self) -> bool {
        self.last.wf()
    }

    /// The empty range after a commit.
    pub fn new(start: GitOid, used_for: RangeUse) -> (r: LinearRange)
        requires
            start.wf(),
        ensures
            r.wf(),
            r@ == (RangeView { last: start@, used_for }),
    {
        LinearRange { last: start, used_for }
    }

    /// Adds a commit, by what Git says of its parents.
    pub fn follow(&mut self, commit: &GitOid, parents: &[u8]) -> (r: Result<(), GitError>)
        requires
            old(self).wf(),
            commit.wf(),
        ensures
            final(self).wf(),
            final(self)@.used_for == old(self)@.used_for,
            r is Ok <==> single_parent_in(parents@) == Some(old(self)@.last),
            r is Ok ==> final(self)@.last == commit@,
            r is Err ==> final(self)@ == old(self)@,
            r matches Err(error) ==> (single_parent_in(parents@) is Some ==> error.bad_output(
                unlinked_text(commit@, old(self)@.last, old(self)@.used_for),
            )),
            r matches Err(error) ==> (single_parent_in(parents@) is None ==> no_single_parent(
                error,
                parents@,
            )),
    {
        let parent = match parse_single_parent(parents) {
            Ok(parent) => parent,
            Err(error) => {
                return Err(error);
            },
        };
        if !parent.same(&self.last) {
            let mut text = concat3(
                "master commit ",
                commit.short().as_str(),
                " does not directly follow ",
            );
            text.append(self.last.short().as_str());
            match self.used_for {
                RangeUse::Rebase => text.append(
                    "; only a linear, merge-free master range can be rebased",
                ),
                RangeUse::Submit => text.append(
                    "; only a linear, merge-free master range can be submitted",
                ),
            }
            return Err(GitError::InvalidOutput(text));
        }
        self.last = commit.duplicate();
        Ok(())
    }

    /// Checks that the range leads to the user's branch.
    pub fn reaches(&self, master: &GitOid) -> (r: Result<(), GitError>)
        ensures
            r is Ok <==> self@.last == master@,
            r matches Err(error) ==> error.bad_output(
                "master range did not resolve to the local master tip"@,
            ),
    {
        if self.last.same(master) {
            Ok(())
        } else {
            Err(invalid_output("master range did not resolve to the local master tip"))
        }
    }
}

/// Whether the user's branch has commits that may be submitted. `None` says that it does not
/// descend from the validated one.
pub open spec fn submission(release: GitOidView, master: GitOidView, ancestor: bool) -> Option<
    bool,
> {
    if release == master {
        Some(false)
    } else if ancestor {
        Some(true)
    } else {
        None
    }
}

/// Decides whether the commits of the user's branch may be submitted: it must descend
/// from the validated one. `false` says that there are none.
pub fn unmerged_range(release: &GitOid, master: &GitOid, ancestor: bool) -> (r: Result<
    bool,
    GitError,
>)
    requires
        release.wf(),
        master.wf(),
    ensures
        match submission(release@, master@, ancestor) {
            Some(some) => r == Ok::<bool, GitError>(some),
            None => r is Err,
        },
        match r {
            Ok(some) => some == (release@ != master@) && (some ==> ancestor),
            Err(error) => release@ != master@ && !ancestor && error.bad_output(
                "local master "@ + master@.hex().take(10)
                    + " is not a descendant of certified release "@ + release@.hex().take(10)
                    + "; reconcile the branches before pushing master"@,
            ),
        },
{
    if release.same(master) {
        return Ok(false);
    }
    if !ancestor {
        let mut text = concat3(
            "local master ",
            master.short().as_str(),
            " is not a descendant of certified release ",
        );
        text.append(release.short().as_str());
        text.append("; reconcile the branches before pushing master");
        return Err(GitError::InvalidOutput(text));
    }
    Ok(true)
}

/// The user's branch is checked out and still is where it was seen.
pub open spec fn master_unmoved(
    on_master: bool,
    head: GitOidView,
    master: GitOidView,
    expected: GitOidView,
) -> bool {
    on_master && head == expected && master == expected
}

/// Checks that the user's branch still is where it was seen.
pub fn check_master_unmoved(
    on_master: bool,
    head: &GitOid,
    master: &GitOid,
    expected: &GitOid,
) -> (r: Result<(), GitError>)
    ensures
        r is Ok <==> master_unmoved(on_master, head@, master@, expected@),
        r matches Err(error) ==> error.bad_output("master moved after push preflight"@),
{
    if on_master && head.same(expected) && master.same(expected) {
        Ok(())
    } else {
        Err(invalid_output("master moved after push preflight"))
    }
}

/// The user's branch has to be put onto the validated one: it neither is that one nor has
/// it among its ancestors.
pub open spec fn is_rebase_needed(
    release: GitOidView,
    expected: GitOidView,
    contained: bool,
) -> bool {
    !(release == expected || contained)
}

/// Decides whether the user's branch has to be put onto the validated one. `contained`
/// says whether it has that one among its ancestors.
pub fn rebase_needed(release: &GitOid, expected: &GitOid, contained: bool) -> (r: bool)
    ensures
        r == is_rebase_needed(release@, expected@, contained),
{
    !(release.same(expected) || contained)
}

/// How the user's branch is put onto the validated one.
#[derive(Clone, Copy, Debug, PartialEq, Eq, Structural)]
pub enum RebasePlan {
    /// It has no commits of its own: merge.
    Merge,
    /// Rebase its commits.
    Rebase,
}

/// How a branch with so many commits of its own is put onto the validated one.
pub open spec fn rebase_plan(own_commits: nat) -> RebasePlan {
    if own_commits == 0 {
        RebasePlan::Merge
    } else {
        RebasePlan::Rebase
    }
}

/// Decides how the user's branch is put onto the validated one.
pub fn plan_rebase(own_commits: usize) -> (r: RebasePlan)
    ensures
        r == rebase_plan(own_commits as nat),
{
    if own_commits == 0 {
        RebasePlan::Merge
    } else {
        RebasePlan::Rebase
    }
}

/// The user's branch has been put onto the validated one.
pub open spec fn rebase_went_well(success: bool, head_is_master: bool, descends: bool) -> bool {
    success && head_is_master && descends
}

/// A rebase that Git could not finish is given up.
pub open spec fn is_given_up(plan: RebasePlan, success: bool) -> bool {
    plan == RebasePlan::Rebase && !success
}

/// Judges how putting the user's branch onto the validated one has ended. The flag says
/// whether a rebase is to be given up.
pub fn confirm_rebase(
    plan: RebasePlan,
    success: bool,
    head_is_master: bool,
    descends: bool,
) -> (r: Result<(), (bool, GitError)>)
    ensures
        r is Ok <==> rebase_went_well(success, head_is_master, descends),
        r matches Err(failure) ==> if !success {
            failure.0 == is_given_up(plan, success) && failure.1 is Unmergeable
        } else {
            !failure.0 && failure.1.bad_output(
                "rebased master did not descend from certified release"@,
            )
        },
{
    if !success {
        let abort = match plan {
            RebasePlan::Merge => false,
            RebasePlan::Rebase => true,
        };
        return Err((abort, GitError::Unmergeable));
    }
    if !head_is_master || !descends {
        return Err(
            (false, invalid_output("rebased master did not descend from certified release")),
        );
    }
    Ok(())
}

/// All that is seen while the user's branch is put onto the validated one: before it,
/// the files, the branch and how the two lie to each other; after it, how Git ended and
/// where the branch is.
pub struct RebaseSight {
    pub clean: bool,
    pub on_master: bool,
    pub head: GitOidView,
    pub master: GitOidView,
    pub expected: GitOidView,
    pub release: GitOidView,
    pub contained: bool,
    pub linear: bool,
    pub own_commits: nat,
    pub success: bool,
    pub new_head: GitOidView,
    pub new_master: GitOidView,
    pub descends: bool,
    pub clean_after: bool,
}

/// What Git is told to do to the user's branch.
pub enum RebaseCommand {
    Merge,
    Rebase,
    Abort,
}

impl RebaseSight {
    /// The branch may be touched.
    pub open spec fn may_start(self) -> bool {
        self.clean && master_unmoved(self.on_master, self.head, self.master, self.expected)
    }

    /// The branch has to be put onto the validated one.
    pub open spec fn needed(self) -> bool {
        is_rebase_needed(self.release, self.expected, self.contained)
    }

    /// What Git is told to do, in order.
    pub open spec fn commands(self) -> Seq<RebaseCommand> {
        if !self.may_start() || !self.needed() || !self.linear {
            seq![]
        } else {
            match rebase_plan(self.own_commits) {
                RebasePlan::Merge => seq![RebaseCommand::Merge],
                RebasePlan::Rebase => if is_given_up(RebasePlan::Rebase, self.success) {
                    seq![RebaseCommand::Rebase, RebaseCommand::Abort]
                } else {
                    seq![RebaseCommand::Rebase]
                },
            }
        }
    }

    /// Where the branch is said to be, if all went well.
    pub open spec fn outcome(self) -> Option<GitOidView> {
        if !self.may_start() {
            None
        } else if !self.needed() {
            Some(self.expected)
        } else if self.linear && rebase_went_well(
            self.success,
            self.new_head == self.new_master,
            self.descends,
        ) && self.clean_after {
            Some(self.new_master)
        } else {
            None
        }
    }
}

/// Where the branch is said to be, it is checked out, its files are as they were
/// committed, and it has the validated one among its ancestors or is that one; it has not
/// moved where there was no need. A branch with changed files, one that has moved and one
/// with merges are left alone, and a rebase that ran into a conflict is taken back.
pub proof fn law_a_branch_is_put_onto_the_validated_one_or_left(sight: RebaseSight)
    ensures
        sight.outcome() matches Some(oid) ==> if sight.needed() {
            oid == sight.new_master && oid == sight.new_head && sight.descends
                && sight.clean_after
        } else {
            oid == sight.expected && oid == sight.master && oid == sight.head && sight.clean && (
            oid == sight.release || sight.contained) && sight.commands().len() == 0
        },
        !sight.clean || sight.master != sight.expected || sight.head != sight.expected
            || !sight.on_master ==> sight.outcome() is None && sight.commands().len() == 0,
        sight.needed() && !sight.linear ==> sight.outcome() is None && sight.commands().len() == 0,
        sight.commands().len() > 0 && !sight.success ==> sight.outcome() is None && (
        sight.commands() =~= seq![RebaseCommand::Merge] || sight.commands().last()
            == RebaseCommand::Abort),
{
}

} // verus!
