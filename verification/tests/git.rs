use tollgate::git_error::GitError;
use tollgate::git_flow::{
    check_cleanup, check_feature_branch, check_feature_worktree, check_one_commit,
    check_quarantine, command_failure, confirm_feature_update, confirm_feature_worktree,
    confirm_fetch, confirm_push, confirm_quarantine, confirm_release, confirm_release_created,
    confirm_retention, confirm_source_ref, confirm_source_ref_deleted, current_branch,
    keeps_worktree, plan_migration, plan_release, plan_retention, projected_ref, push_arguments,
    ref_exists, ref_target, source_ref_name, tested_ref, unmerged_first_parent_ancestors,
    LinkedWorktree, ReleasePlan,
};
use tollgate::git_parse::{
    changed_paths, ensure_integration_not_checked_out, nul_delimited_strings, parse_oid,
    parse_oids, parse_single_parent, worktree_for_branch,
};
use tollgate::git_prefix::{PrefixAction, PrefixRun};
use tollgate::git_sync::{
    check_master_unmoved, confirm_rebase, confirm_sync, plan_fast_forward, plan_rebase,
    plan_sync, plan_tracking, rebase_needed, unmerged_range, zero_oid, LinearRange,
    MasterCheckout, RangeUse, RebasePlan, SyncMove, SyncPlan, TrackingPlan, UserMasterSyncOutcome,
};
use tollgate::git_worktree::{
    check_patch_size, describe_git, ensure_clean, ignored_candidates, observe_remote_ref,
    outermost_directories, probe_revision, remote_url, reserved_branch, CommandOutput,
    ProbeOutput,
};
use tollgate::ids::QueueItemId;
use tollgate::oid::{GitOid, ObjectFormat};
use tollgate::raw_commit::RawCommit;

fn oid(digit: char) -> GitOid {
    GitOid::from_hex(&digit.to_string().repeat(40)).unwrap()
}

fn hex(digit: char) -> String {
    digit.to_string().repeat(40)
}

fn line(digit: char) -> Vec<u8> {
    format!("{}\n", hex(digit)).into_bytes()
}

fn output(exit_code: i32, stdout: &str, stderr: &str) -> CommandOutput {
    CommandOutput {
        exit_code: Some(exit_code),
        stdout: stdout.as_bytes().to_vec(),
        stderr: stderr.as_bytes().to_vec(),
    }
}

fn raw(tree: char, parent: char, message: &str) -> Vec<u8> {
    format!(
        "tree {}\nparent {}\nauthor A <a@b> 1 +0000\ncommitter C <c@d> 2 +0000\n\n{message}\n",
        hex(tree),
        hex(parent)
    )
    .into_bytes()
}

#[test]
fn raw_commit_rewrite_strips_signature_and_preserves_message_bytes() {
    let raw = b"tree 111\nparent 222\nauthor A <a@b> 1 +0000\ncommitter C <c@d> 2 +0000\ngpgsig sig\n continuation\n\nmessage\xff\n";
    let parsed = RawCommit::parse(raw).unwrap();
    let rewritten = parsed.rewrite("aaa", "bbb");
    assert!(!rewritten.windows(6).any(|value| value == b"gpgsig"));
    assert!(rewritten.ends_with(b"message\xff\n"));
}

#[test]
fn raw_commits_are_read_strictly() {
    let rewritten = RawCommit::parse(b"tree 1\nparent 2\nauthor A\ncommitter C\nencoding latin1\n\nm")
        .unwrap()
        .rewrite("3", "4");
    assert_eq!(
        rewritten,
        b"tree 3\nparent 4\nauthor A\ncommitter C\nencoding latin1\n\nm"
    );
    for bad in [
        &b"tree 1\nparent 2\nauthor A\ncommitter C"[..],
        b" x\ntree 1\n\nm",
        b"tree\n\nm",
        b"tree 1\ntree 1\nparent 2\nauthor A\ncommitter C\n\nm",
        b"tree 1\nparent 2\ncommitter C\n\nm",
        b"tree 1\nparent 2\nauthor A\n\nm",
    ] {
        assert!(matches!(
            RawCommit::parse(bad),
            Err(GitError::MalformedCommit(_))
        ));
    }
    assert!(matches!(
        RawCommit::parse(b"tree 1\nauthor A\ncommitter C\n\nm"),
        Err(GitError::InvalidSourceShape)
    ));
}

#[test]
fn initializes_release_without_moving_the_checked_out_master_branch() {
    assert_eq!(plan_release(&oid('1'), &None).ok(), Some(ReleasePlan::Create));
    assert_eq!(
        plan_release(&oid('1'), &Some(oid('1'))).ok(),
        Some(ReleasePlan::Keep)
    );
    assert_eq!(
        plan_migration(&oid('1'), &None).ok(),
        Some(ReleasePlan::Create)
    );
}

#[test]
fn refuses_to_overwrite_an_existing_divergent_release_branch() {
    let error = plan_release(&oid('1'), &Some(oid('2'))).unwrap_err();
    assert!(error.message().contains("will not overwrite"));
}

#[test]
fn lists_unmerged_master_commits_oldest_first() {
    assert_eq!(unmerged_range(&oid('1'), &oid('3'), true).ok(), Some(true));
    assert_eq!(unmerged_range(&oid('1'), &oid('1'), true).ok(), Some(false));
    let commits = parse_oids(format!("{}\n{}\n", hex('2'), hex('3')).as_bytes())
        .ok()
        .unwrap();
    let mut range = LinearRange::new(oid('1'), RangeUse::Submit);
    assert!(range.follow(&commits[0], &line('1')).is_ok());
    assert!(range.follow(&commits[1], &line('2')).is_ok());
    assert!(range.reaches(&oid('3')).is_ok());
    assert_eq!(commits, [oid('2'), oid('3')]);
}

#[test]
fn rejects_a_master_range_containing_a_merge_commit() {
    let mut range = LinearRange::new(oid('1'), RangeUse::Submit);
    let parents = format!("{} {}\n", hex('1'), hex('9'));
    let error = range.follow(&oid('2'), parents.as_bytes()).unwrap_err();
    assert!(matches!(error, GitError::InvalidSourceShape));
}

#[test]
fn rejects_master_that_diverged_from_release() {
    let error = unmerged_range(&oid('1'), &oid('2'), false).unwrap_err();
    assert!(error.message().contains("is not a descendant"));
}

#[test]
fn rebases_diverged_master_commits_onto_release() {
    assert!(rebase_needed(&oid('1'), &oid('2'), false));
    assert!(!rebase_needed(&oid('1'), &oid('2'), true));
    assert!(!rebase_needed(&oid('1'), &oid('1'), false));
    assert_eq!(plan_rebase(0), RebasePlan::Merge);
    assert_eq!(plan_rebase(2), RebasePlan::Rebase);
    assert!(check_master_unmoved(true, &oid('1'), &oid('1'), &oid('1')).is_ok());
    assert!(check_master_unmoved(true, &oid('1'), &oid('1'), &oid('2')).is_err());
    assert!(check_master_unmoved(false, &oid('1'), &oid('1'), &oid('1')).is_err());
    assert!(confirm_rebase(RebasePlan::Rebase, true, true, true).is_ok());
    assert!(confirm_rebase(RebasePlan::Rebase, false, true, true).is_err());
    assert!(confirm_rebase(RebasePlan::Merge, true, true, false).is_err());
}

fn checkout(head: char, dirt: Option<&str>) -> MasterCheckout {
    MasterCheckout {
        path: "/repository".into(),
        same_repository: true,
        dirt: dirt.map(|text| text.to_string()),
        on_master: true,
        head: oid(head),
    }
}

#[test]
fn projects_an_unchanged_master_source_to_its_tested_commit() {
    let plan = plan_sync(
        &Some(checkout('2', None)),
        Some(oid('2')),
        &oid('3'),
        &Some(oid('2')),
    )
    .ok()
    .unwrap();
    assert!(matches!(
        plan,
        SyncPlan::Move { kind: SyncMove::Project, ref current } if current == &oid('2')
    ));
    assert!(matches!(
        confirm_sync(
            SyncMove::Project,
            Some("/repository".into()),
            &Some(oid('3')),
            &oid('3'),
            &oid('3')
        ),
        Ok(UserMasterSyncOutcome::UpdatedCheckout { .. })
    ));
}

#[test]
fn synchronizes_checked_out_master_and_its_files_by_fast_forward() {
    let plan = plan_sync(&Some(checkout('1', None)), Some(oid('1')), &oid('2'), &None)
        .ok()
        .unwrap();
    assert!(matches!(plan, SyncPlan::AskAncestry { ref current } if current == &oid('1')));
    let plan = plan_fast_forward(&Some("/repository".into()), oid('1'), &oid('2'), true);
    assert!(matches!(
        plan,
        SyncPlan::Move { kind: SyncMove::FastForward, .. }
    ));
    assert!(matches!(
        plan_fast_forward(&None, oid('1'), &oid('2'), false),
        SyncPlan::Settled(UserMasterSyncOutcome::NeedsAttention { path: None, .. })
    ));
    assert!(matches!(
        plan_tracking("origin", "master", &oid('2'), true, &None, ObjectFormat::Sha1),
        TrackingPlan::Update { ref reference, ref expected, .. }
            if reference == "refs/remotes/origin/master" && expected == &zero_oid(ObjectFormat::Sha1)
    ));
    assert!(matches!(
        plan_tracking("origin", "master", &oid('2'), true, &Some(oid('2')), ObjectFormat::Sha1),
        TrackingPlan::Keep
    ));
    assert!(matches!(
        plan_tracking("origin", "bad..name", &oid('2'), false, &None, ObjectFormat::Sha1),
        TrackingPlan::Refused(_)
    ));
}

#[test]
fn leaves_a_dirty_checked_out_master_untouched() {
    let plan = plan_sync(
        &Some(checkout('1', Some("tracked files are dirty"))),
        Some(oid('1')),
        &oid('2'),
        &None,
    )
    .ok()
    .unwrap();
    assert!(matches!(
        plan,
        SyncPlan::Settled(UserMasterSyncOutcome::NeedsAttention { ref reason, .. })
            if reason.contains("dirty")
    ));
}

#[test]
fn synchronizes_an_unchecked_out_master_with_an_exact_ref_cas() {
    let plan = plan_sync(&None, Some(oid('1')), &oid('2'), &None).ok().unwrap();
    assert!(matches!(plan, SyncPlan::AskAncestry { .. }));
    assert!(matches!(
        confirm_sync(SyncMove::FastForward, None, &None, &oid('2'), &oid('2')),
        Ok(UserMasterSyncOutcome::UpdatedRef)
    ));
    assert!(confirm_sync(SyncMove::FastForward, None, &None, &oid('1'), &oid('2')).is_err());
    assert!(matches!(
        plan_sync(&None, Some(oid('2')), &oid('2'), &None),
        Ok(SyncPlan::Settled(UserMasterSyncOutcome::AlreadyCurrent { path: None }))
    ));
}

#[test]
fn constructs_a_shared_synthetic_prefix_with_preserved_parent_chain() {
    let (mut run, action) = PrefixRun::start(oid('1'), vec![oid('2'), oid('3')]);
    assert!(matches!(action, PrefixAction::ReadParents(ref source) if source == &oid('2')));
    for (source, parent, tree, tip_tree, commit) in
        [('2', '1', 'a', 'f', 'c'), ('3', '1', 'b', 'a', 'd')]
    {
        let action = run.parents(&line(parent)).ok().unwrap();
        assert!(matches!(action, PrefixAction::CherryPick(ref oid) if oid.to_hex() == hex(source)));
        assert!(matches!(run.picked(true, b""), PrefixAction::WriteTree));
        assert!(matches!(run.tree(&line(tree)), Ok(PrefixAction::ReadTree(_))));
        assert!(matches!(run.tip_tree(&line(tip_tree)), Ok(PrefixAction::ReadCommit(_))));
        let action = run.source_commit(&raw('9', parent, "message")).ok().unwrap();
        let expected_parent = if source == '2' { '1' } else { 'c' };
        assert!(matches!(
            action,
            PrefixAction::WriteCommit(ref bytes) if bytes == &raw(tree, expected_parent, "message")
        ));
        assert!(matches!(run.written(&line(commit)), Ok(PrefixAction::Reset(_))));
        run.moved();
    }
    let commits = run.finish();
    assert_eq!(commits.len(), 2);
    assert_eq!(commits[0].parent_oid, oid('1'));
    assert_eq!(commits[0].oid, oid('c'));
    assert_eq!(commits[1].parent_oid, commits[0].oid);
    assert_eq!(commits[1].source_oid, oid('3'));
    assert_eq!(commits[1].tree_oid, oid('b'));
}

#[test]
fn reports_conflicting_paths_and_source_base_when_prefix_synthesis_fails() {
    let (mut run, _) = PrefixRun::start(oid('1'), vec![oid('2')]);
    run.parents(&line('3')).ok().unwrap();
    assert!(matches!(run.picked(false, b"conflict"), PrefixAction::ListConflicts));
    assert!(matches!(run.conflicts(b"messages.json\0"), PrefixAction::ReadTree(_)));
    let failure = run.failed(&line('f')).ok().unwrap();
    assert_eq!(failure.reset_to, oid('1'));
    assert!(matches!(
        &failure.error,
        GitError::SyntheticConflict {
            source_oid,
            source_parent_oid,
            prefix_oid,
            conflicting_paths,
        } if source_oid == &oid('2')
            && source_parent_oid == &oid('3')
            && prefix_oid == &oid('1')
            && conflicting_paths == &["messages.json"]
    ));
    assert!(failure.error.is_synthetic_rejection());
    let message = failure.error.message();
    assert!(message.contains("messages.json"));
    assert!(message.contains(&hex('3')));
    assert!(message.contains(&hex('1')));
    assert!(message.contains("rebase onto the latest release"));
}

#[test]
fn distinguishes_an_empty_synthetic_patch_from_a_conflict() {
    let (mut run, _) = PrefixRun::start(oid('2'), vec![oid('2')]);
    run.parents(&line('1')).ok().unwrap();
    run.picked(false, b"nothing to commit");
    assert!(matches!(run.conflicts(b""), PrefixAction::WriteTree));
    run.attempted(&line('f')).ok().unwrap();
    let failure = run.failed(&line('f')).ok().unwrap();
    assert!(matches!(
        failure.error,
        GitError::SyntheticEmpty {
            source_oid,
            source_parent_oid,
            prefix_oid,
        } if source_oid == oid('2') && source_parent_oid == oid('1') && prefix_oid == oid('2')
    ));
}

#[test]
fn tested_object_ref_never_overwrites_contradictory_owned_evidence() {
    assert_eq!(tested_ref("buildset"), "refs/tollgate/tested/buildset");
    let error = plan_retention("refs/tollgate/tested/buildset", &Some(oid('1')), &oid('2'))
        .unwrap_err();
    assert!(error.message().contains("different object"));
    assert_eq!(
        plan_retention("refs/tollgate/tested/buildset", &Some(oid('2')), &oid('2')).ok(),
        plan_retention("refs/tollgate/tested/other", &Some(oid('2')), &oid('2')).ok()
    );
}

#[test]
fn output_of_git_is_read() {
    assert_eq!(parse_oid(&line('1')).ok(), Some(oid('1')));
    assert!(matches!(parse_oid(b"xyz\n"), Err(GitError::Oid(_))));
    assert!(matches!(parse_oid(b"\xff"), Err(GitError::InvalidOutput(_))));
    assert!(matches!(
        parse_single_parent(b""),
        Err(GitError::InvalidSourceShape)
    ));
    assert_eq!(nul_delimited_strings(b"a\0\0b\xff\0"), ["a", "b\u{fffd}"]);
    let changed = changed_paths(b"M\0src/a.rs\0R100\0old.rs\0new.rs\0").ok().unwrap();
    assert_eq!(changed, ["new.rs", "old.rs", "src/a.rs"]);
    assert!(changed_paths(b"M\0").is_err());
}

#[test]
fn worktrees_are_found_by_their_branch() {
    let listing = b"worktree /a\0HEAD 1\0branch refs/heads/master\0\0worktree /b\0HEAD 2\0branch refs/heads/task\0\0";
    assert_eq!(
        worktree_for_branch(listing, "refs/heads/task").ok(),
        Some(Some("/b".into()))
    );
    assert_eq!(
        worktree_for_branch(listing, "refs/heads/none").ok(),
        Some(None)
    );
    assert!(ensure_integration_not_checked_out(listing).is_ok());
    assert!(matches!(
        ensure_integration_not_checked_out(b"worktree /r\0branch refs/heads/release\0\0"),
        Err(GitError::IntegrationCheckedOut(_))
    ));
}

#[test]
fn a_worktree_must_be_clean() {
    assert!(ensure_clean(false, false, b"").is_ok());
    assert!(matches!(
        ensure_clean(true, false, b""),
        Err(GitError::DirtyWorktree(_))
    ));
    assert!(matches!(
        ensure_clean(false, true, b""),
        Err(GitError::DirtyWorktree(_))
    ));
    assert!(matches!(
        ensure_clean(false, false, b"new.txt\0"),
        Err(GitError::DirtyWorktree(_))
    ));
}

#[test]
fn a_source_has_one_parent_and_is_not_yet_integrated() {
    let probe = ProbeOutput {
        integrated: false,
        parents: line('1'),
        metadata: b"subject\0Author\0a@b\0".to_vec(),
        branch: b"task\n".to_vec(),
        raw_commit: raw('9', '1', "message"),
    };
    let read = probe_revision(oid('2'), &probe, true).ok().unwrap();
    assert_eq!(read.parent_oid, oid('1'));
    assert_eq!(read.subject, "subject");
    assert_eq!(read.branch.as_deref(), Some("task"));
    assert_eq!(read.message_hash.len(), 64);
    let mut merged = probe.clone();
    merged.integrated = true;
    assert!(probe_revision(oid('2'), &merged, true).is_err());
    let mut merge = probe;
    merge.parents = format!("{} {}\n", hex('1'), hex('3')).into_bytes();
    assert!(matches!(
        probe_revision(oid('2'), &merge, true),
        Err(GitError::InvalidSourceShape)
    ));
}

#[test]
fn a_remote_is_observed() {
    let listing = format!("{}\trefs/heads/master\n", hex('1'));
    assert_eq!(
        observe_remote_ref(&output(0, &listing, ""), "origin", "master").ok(),
        Some(Some(oid('1')))
    );
    assert_eq!(
        observe_remote_ref(&output(2, "", ""), "origin", "master").ok(),
        Some(None)
    );
    assert!(observe_remote_ref(&output(128, "", "no route"), "origin", "master").is_err());
    assert_eq!(
        remote_url(b"https://example.com/r.git\n", "origin").ok(),
        Some("https://example.com/r.git".into())
    );
    assert!(remote_url(b"\n", "origin").is_err());
}

#[test]
fn a_push_keeps_to_its_lease() {
    let arguments = push_arguments("master", &Some(oid('1')), &oid('2'));
    assert!(arguments.lease.contains(&hex('1')));
    assert!(arguments.refspec.contains(&hex('2')));
    assert!(confirm_push("origin", "master", &output(0, "", ""), &Some(oid('2')), &oid('2')).is_ok());
    assert!(confirm_push("origin", "master", &output(0, "", ""), &Some(oid('1')), &oid('2')).is_err());
    assert!(confirm_push("origin", "master", &output(1, "", "denied"), &None, &oid('2')).is_err());
}

#[test]
fn references_are_read_and_confirmed() {
    assert_eq!(ref_exists(&output(0, "", ""), "refs/heads/a").ok(), Some(true));
    assert_eq!(ref_exists(&output(1, "", ""), "refs/heads/a").ok(), Some(false));
    assert!(ref_exists(&output(128, "", "broken"), "refs/heads/a").is_err());
    assert_eq!(current_branch(b"task\n").ok(), Some(Some("task".into())));
    assert_eq!(current_branch(b"\n").ok(), Some(None));
    assert!(source_ref_name(QueueItemId(1)).starts_with("refs/tollgate/sources/"));
    assert!(confirm_source_ref(&oid('1'), &oid('1')).is_ok());
    assert!(confirm_source_ref(&oid('1'), &oid('2')).is_err());
    assert!(check_one_commit(b"1\n").is_ok());
    assert!(check_one_commit(b"2\n").is_err());
    assert!(command_failure("git x", b" boom \n").message().contains("boom"));
}

#[test]
fn worktrees_are_only_cleaned_up_when_unchanged() {
    assert!(keeps_worktree(true, "task"));
    assert!(!keeps_worktree(false, "task"));
    let worktree = LinkedWorktree {
        same_repository: true,
        head: oid('1'),
        branch_oid: oid('1'),
    };
    assert!(check_cleanup(&worktree, &oid('1')).is_ok());
    assert!(check_cleanup(&worktree, &oid('2')).is_err());
    assert!(check_quarantine(false, true, false).is_ok());
    assert!(check_quarantine(true, true, false).is_err());
    assert!(check_quarantine(false, true, true).is_err());
}

#[test]
fn ignored_directories_are_taken_whole() {
    let ignored = ignored_candidates(b"target/\0node_modules/\0a.log\0");
    assert_eq!(ignored.len(), 3);
    let outer = outermost_directories(&vec![
        "target/debug".into(),
        "target".into(),
        "node_modules".into(),
        "target-x".into(),
    ]);
    assert_eq!(outer, ["node_modules", "target", "target-x"]);
    assert!(reserved_branch("master"));
    assert!(!reserved_branch("task"));
    assert!(check_patch_size(10, 10).is_ok());
    assert!(check_patch_size(11, 10).is_err());
}

#[test]
fn the_way_git_works_is_pinned() {
    let a = describe_git("/usr/bin/git", b"git version 2.50.0\n", b"sha1\n").ok().unwrap();
    let b = describe_git("/usr/bin/git", b"git version 2.51.0\n", b"sha1\n").ok().unwrap();
    assert_eq!(a.version, "git version 2.50.0");
    assert_eq!(a.object_format, ObjectFormat::Sha1);
    assert_ne!(a.digest, b.digest);
    assert!(matches!(
        describe_git("/usr/bin/git", b"git version 2.50.0\n", b"sha512\n"),
        Err(GitError::UnsupportedObjectFormat(_))
    ));
}

fn told(result: Result<(), GitError>) -> String {
    match result {
        Err(GitError::InvalidOutput(reason)) => reason,
        other => panic!("{other:?}"),
    }
}

#[test]
fn what_git_did_is_confirmed() {
    let (a, b) = (oid('a'), oid('b'));
    assert_eq!(confirm_release(&a, &a), Ok(()));
    assert_eq!(told(confirm_release(&a, &b)), "release CAS result mismatch");
    assert_eq!(confirm_release_created(&a, &a), Ok(()));
    assert!(confirm_release_created(&a, &b).is_err());
    assert_eq!(confirm_source_ref_deleted(&None), Ok(()));
    assert_eq!(
        told(confirm_source_ref_deleted(&Some(a.clone()))),
        "source retention ref still exists after asserted deletion"
    );
    assert_eq!(confirm_fetch(&a, &Some(a.clone())), Ok(()));
    assert_eq!(
        told(confirm_fetch(&a, &None)),
        "fetched observation ref is absent"
    );
    assert_eq!(
        told(confirm_fetch(&a, &Some(b.clone()))),
        "remote changed while its exact ref was being fetched"
    );
    assert_eq!(confirm_quarantine(false, true), Ok(()));
    assert!(confirm_quarantine(true, true).is_err());
    assert!(confirm_quarantine(false, false).is_err());
    assert_eq!(
        confirm_retention(Err(GitError::Unmergeable), Ok(a.clone()), &a),
        Ok(())
    );
    assert_eq!(
        confirm_retention(Err(GitError::Unmergeable), Ok(b.clone()), &a),
        Err(GitError::Unmergeable)
    );
    assert_eq!(
        told(confirm_retention(Ok(()), Ok(b.clone()), &a)),
        "tested object retention mismatch"
    );
    assert_eq!(projected_ref("g"), "refs/tollgate/projected/g");
    assert_eq!(
        ref_target(&output(0, &hex('a'), ""), "refs/heads/master"),
        Ok(a)
    );
    assert_eq!(
        ref_target(&output(1, "", "no"), "refs/heads/master"),
        Err(command_failure(
            "git show-ref --verify --hash refs/heads/master",
            b"no"
        ))
    );
    assert_eq!(
        unmerged_first_parent_ancestors(true, b"not read"),
        Ok(Vec::new())
    );
    assert_eq!(
        unmerged_first_parent_ancestors(false, &line('b')),
        Ok(vec![b])
    );
}

#[test]
fn features_are_checked_before_and_after() {
    let (a, b) = (oid('a'), oid('b'));
    assert_eq!(check_feature_worktree("task", "/w", false, true), Ok(()));
    assert_eq!(
        told(check_feature_worktree("task", "/w", true, true)),
        "worktree destination already exists: /w"
    );
    assert_eq!(
        told(check_feature_worktree("master", "/w", false, true)),
        "feature branch name is invalid or reserved"
    );
    assert!(check_feature_worktree("a..b", "/w", false, false).is_err());
    assert_eq!(confirm_feature_worktree(true, &a, &a), Ok(()));
    assert!(confirm_feature_worktree(false, &a, &a).is_err());
    assert!(confirm_feature_worktree(true, &a, &b).is_err());
    assert_eq!(check_feature_branch(&Some("task".into())), Ok(()));
    assert_eq!(
        told(check_feature_branch(&None)),
        "feature update requires a checked-out branch"
    );
    assert_eq!(
        told(check_feature_branch(&Some("release".into()))),
        "feature update cannot operate on master or release"
    );
    assert_eq!(confirm_feature_update(true, &Some(a.clone()), &a), Ok(()));
    assert_eq!(
        confirm_feature_update(false, &Some(a.clone()), &a),
        Err(GitError::Unmergeable)
    );
    assert!(confirm_feature_update(true, &Some(b), &a).is_err());
    assert!(confirm_feature_update(true, &None, &a).is_err());
}

#[test]
fn directories_are_ordered_by_their_parts() {
    let outer = outermost_directories(&vec![
        "/c//b".into(),
        "/c/a".into(),
        "/c/./d/".into(),
        "/c/d/e".into(),
        "/c-x".into(),
        "/c/a/".into(),
    ]);
    assert_eq!(outer, ["/c/a", "/c//b", "/c/./d/", "/c-x"]);
    // A directory that is named twice stands once, as it was named first.
    let twice = outermost_directories(&vec!["a/b/".into(), "a//b".into()]);
    assert_eq!(twice, ["a/b/"]);
    assert_eq!(
        outermost_directories(&vec!["x/../y".into(), "x".into()]),
        ["x"]
    );
}
