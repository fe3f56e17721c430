use tollgate::artifacts::{
    step_log_name, step_resources, verify_required_artifacts, verify_workspace, WorkspaceEntry,
    WorkspaceState,
};
use tollgate::buildset::{BuildsetAction, BuildsetResult, BuildsetRun};
use tollgate::clone_tree::FileKind;
use tollgate::config_model::{EffectiveCommand, EffectiveConfig};
use tollgate::diagnostics::read_step_diagnostics;
use tollgate::environment::{login_shell_mode, read_environment, EnvironmentSnapshot};
use tollgate::ids::StepAttemptId;
use tollgate::oid::GitOid;
use tollgate::runner::{
    containment_diagnostics, externally_terminated, validate_step_diagnostic, RepairCommand,
    RunnerError, SealedLog, StepDiagnostic, StepResult, StepResultClass,
};
use tollgate::step_run::{
    choose_runner, command_argv, conclude_direct, conclude_worker, diagnostics_path,
    layer_environment, spawn_failure_text, with_diagnostics, StepRunner, Termination,
};
use tollgate::text_map::TextMap;
use tollgate::worker_output::WorkerOutput;

fn step_result(class: StepResultClass) -> StepResult {
    StepResult {
        attempt_id: StepAttemptId(1),
        class,
        exit_code: Some(0),
        signal: None,
        elapsed_ms: 1,
        log: SealedLog {
            stdout_end: 0,
            stderr_end: 0,
            broker_sequence_end: 0,
            hash: "hash".into(),
            path: "step.tlog".into(),
        },
        diagnostics: Vec::new(),
    }
}

/// Runs all steps, each of which ends as given, and records which ran side by side.
fn run_all(
    config: &EffectiveConfig,
    changed: &[String],
    ends: &dyn Fn(&str) -> StepResultClass,
    missing: Vec<bool>,
) -> (BuildsetResult, Vec<Vec<String>>) {
    let mut run = BuildsetRun::start(config, changed).unwrap();
    let mut rounds: Vec<Vec<String>> = Vec::new();
    loop {
        match run.next(config).unwrap() {
            BuildsetAction::Run { steps } => {
                rounds.push(
                    steps
                        .iter()
                        .map(|step| config.steps[*step].name.clone())
                        .collect(),
                );
                let outcomes = steps
                    .iter()
                    .map(|step| Ok(step_result(ends(&config.steps[*step].name))))
                    .collect();
                run.finish(config, outcomes).unwrap();
            }
            BuildsetAction::Conclude => {
                let judgement = run.judge(config, &missing);
                return (run.seal(judgement, None), rounds);
            }
        }
    }
}

fn terminal(exit_code: Option<i32>, signal: Option<i32>) -> WorkerOutput {
    WorkerOutput::Terminal {
        nonce: "n".into(),
        exit_code,
        signal,
        timed_out: false,
        canceled: false,
        pipes_eof: true,
        process_group_reaped: true,
        rss_exceeded: false,
        containment_escaped: false,
        containment_diagnostic: None,
    }
}

#[test]
fn shell_wrapped_external_control_signals_are_interruptions() {
    let config =
        EffectiveConfig::parse("version=1\n[[step]]\nname=\"ci\"\nrun=\"true\"\n").unwrap();
    let command = &config.steps[0].command;

    assert!(externally_terminated(command, Some(143), None));
    assert!(externally_terminated(command, Some(137), None));
    assert!(externally_terminated(command, None, Some(15)));
    assert!(!externally_terminated(command, Some(1), None));
    assert!(!externally_terminated(command, Some(139), None));
}

#[test]
fn containment_failure_has_structured_diagnostic_evidence() {
    let diagnostics = containment_diagnostics(Some(
        "Tollgate rejected an unsupported session escape by descendant PID 42.".into(),
    ));

    assert_eq!(diagnostics.len(), 1);
    assert_eq!(diagnostics[0].code, "tollgate.containment-escape");
    assert!(diagnostics[0].message.contains("PID 42"));
    assert!(diagnostics[0].paths.is_empty());
    assert!(diagnostics[0].repair.is_none());
}

#[test]
fn no_containment_failure_has_no_evidence() {
    assert!(containment_diagnostics(None).is_empty());
}

#[test]
fn captures_bounded_structured_diagnostics_without_scraping_logs() {
    let diagnostics = read_step_diagnostics(
        b"{\"code\":\"generated-output-drift\",\"message\":\"Generated report is stale\",\"paths\":[\"reports/current.csv\"],\"repair\":{\"kind\":\"argv\",\"argv\":[\"tool\",\"generate\"]}}\n",
    );
    let result = with_diagnostics(step_result(StepResultClass::ExitFailure), diagnostics);
    assert_eq!(result.class, StepResultClass::ExitFailure);
    assert_eq!(result.diagnostics.len(), 1);
    assert_eq!(result.diagnostics[0].code, "generated-output-drift");
    assert_eq!(result.diagnostics[0].paths, vec!["reports/current.csv"]);
    assert_eq!(
        result.diagnostics[0].repair,
        Some(RepairCommand::Argv {
            argv: vec!["tool".into(), "generate".into()]
        })
    );
}

#[test]
fn malformed_diagnostic_contract_fails_a_successful_step() {
    let diagnostics = read_step_diagnostics(
        b"{\"code\":\"BAD CODE\",\"message\":\"unsafe\",\"paths\":[\"../escape\"]}\n",
    );
    let result = with_diagnostics(step_result(StepResultClass::Success), diagnostics);
    assert_eq!(result.class, StepResultClass::ExitFailure);
    assert_eq!(result.diagnostics[0].code, "tollgate.diagnostics-invalid");
}

#[test]
fn diagnostics_are_bounded() {
    assert_eq!(read_step_diagnostics(b""), Ok(Vec::new()));
    assert!(read_step_diagnostics(b"\xff\n").is_err());
    assert!(read_step_diagnostics(b"{}\n").is_err());
    let many = "{\"code\":\"a\",\"message\":\"m\"}\n".repeat(129);
    assert!(read_step_diagnostics(many.as_bytes()).is_err());
}

#[test]
fn a_diagnostic_keeps_to_the_workspace() {
    let good = StepDiagnostic {
        code: "a.b-c".into(),
        message: "m".into(),
        paths: vec!["src/lib.rs".into()],
        repair: None,
    };
    assert!(validate_step_diagnostic(&good).is_ok());
    let mut bad = good.clone();
    bad.paths = vec!["/etc/passwd".into()];
    assert!(validate_step_diagnostic(&bad).is_err());
    let mut bad = good.clone();
    bad.message = String::new();
    assert!(validate_step_diagnostic(&bad).is_err());
    let mut bad = good;
    bad.repair = Some(RepairCommand::Argv { argv: Vec::new() });
    assert!(validate_step_diagnostic(&bad).is_err());
}

#[test]
fn timeout_is_a_conclusive_classification() {
    let config = EffectiveConfig::parse(
        "version=1\n[[step]]\nname=\"ci\"\nrun=\"sleep 2\"\ntimeout=\"1s\"\n",
    )
    .unwrap();
    assert_eq!(config.steps[0].timeout_ns, 1_000_000_000);
    let end = conclude_direct(&config.steps[0].command, &Termination::TimedOut);
    assert_eq!(end.class, StepResultClass::Timeout);
}

#[test]
fn the_end_of_a_step_is_classified() {
    let command = EffectiveCommand::Shell { script: "true".into() };
    let end = |exit_code: Option<i32>, signal: Option<i32>| {
        conclude_direct(&command, &Termination::Exited { exit_code, signal }).class
    };
    assert_eq!(end(Some(0), None), StepResultClass::Success);
    assert_eq!(end(Some(1), None), StepResultClass::ExitFailure);
    assert_eq!(end(None, Some(9)), StepResultClass::Interrupted);
    assert_eq!(
        conclude_direct(&command, &Termination::SpawnFailed).class,
        StepResultClass::SpawnFailure
    );
    assert_eq!(
        conclude_direct(&command, &Termination::Canceled).class,
        StepResultClass::Canceled
    );
}

#[test]
fn a_worker_must_prove_that_nothing_is_left() {
    let command = EffectiveCommand::Shell { script: "true".into() };
    let end = conclude_worker(&command, terminal(Some(0), None), true, b"").unwrap();
    assert_eq!(end.class, StepResultClass::Success);
    assert_eq!(
        conclude_worker(&command, terminal(Some(0), None), false, b" broken \n"),
        Err(RunnerError::Interrupted(
            "worker exited unsuccessfully: broken".into()
        ))
    );
    let unreaped = WorkerOutput::Terminal {
        nonce: "n".into(),
        exit_code: Some(0),
        signal: None,
        timed_out: false,
        canceled: false,
        pipes_eof: true,
        process_group_reaped: false,
        rss_exceeded: false,
        containment_escaped: false,
        containment_diagnostic: None,
    };
    assert_eq!(
        conclude_worker(&command, unreaped, true, b""),
        Err(RunnerError::Interrupted(
            "worker could not prove pipe EOF and process-group reaping".into()
        ))
    );
}

#[test]
fn an_escape_fails_a_step_that_exits_cleanly() {
    let command = EffectiveCommand::Shell { script: "true".into() };
    let report = WorkerOutput::Terminal {
        nonce: "n".into(),
        exit_code: Some(0),
        signal: None,
        timed_out: false,
        canceled: false,
        pipes_eof: true,
        process_group_reaped: true,
        rss_exceeded: false,
        containment_escaped: true,
        containment_diagnostic: Some("left".into()),
    };
    let end = conclude_worker(&command, report, true, b"").unwrap();
    assert_eq!(end.class, StepResultClass::ExitFailure);
    assert_eq!(end.diagnostics.len(), 1);
    assert_eq!(end.diagnostics[0].message, "left");
}

#[test]
fn forward_dependencies_run_before_their_dependents() {
    let config = EffectiveConfig::parse("version=1\n[[step]]\nname=\"gate\"\nrun=\"test -f ready\"\nneeds=[\"setup\"]\n[[step]]\nname=\"setup\"\nrun=\"touch ready\"\n").unwrap();
    let (result, _) = run_all(
        &config,
        &[],
        &|_| StepResultClass::Success,
        vec![false, false],
    );
    assert!(result.passed);
    assert_eq!(
        result
            .steps
            .iter()
            .map(|(name, _)| name.as_str())
            .collect::<Vec<_>>(),
        ["setup", "gate"]
    );
}

#[test]
fn explicitly_unconnected_roots_can_run_concurrently() {
    let config = EffectiveConfig::parse(
        r#"version=1
allow_concurrent_roots=true
[[step]]
name="a"
run="true"
voting=false
[[step]]
name="b"
run="true"
voting=false
[[step]]
name="gate"
run="true"
needs=["a","b"]
"#,
    )
    .unwrap();
    let (result, rounds) = run_all(
        &config,
        &[],
        &|_| StepResultClass::Success,
        vec![false, false, false],
    );
    assert!(result.passed);
    assert!(result
        .steps
        .iter()
        .all(|(_, step)| step.class == StepResultClass::Success));
    assert_eq!(rounds[0], ["a", "b"]);
    assert_eq!(rounds[1], ["gate"]);
}

#[test]
fn missing_required_artifact_fails_the_buildset() {
    let config = EffectiveConfig::parse("version=1\n[[step]]\nname=\"gate\"\nrun=\"true\"\n[[step.artifact]]\nname=\"report\"\npatterns=[\"reports/*.xml\"]\nrequired=true\n").unwrap();
    let missing = verify_required_artifacts(&config.steps[0], &Vec::new()).is_err();
    assert!(missing);
    let (result, _) = run_all(&config, &[], &|_| StepResultClass::Success, vec![missing]);
    assert!(!result.passed);
}

#[test]
fn a_required_artifact_may_lie_deep_in_the_workspace() {
    let config = EffectiveConfig::parse("version=1\n[[step]]\nname=\"gate\"\nrun=\"true\"\n[[step.artifact]]\nname=\"report\"\npatterns=[\"reports/*.xml\"]\nrequired=true\n").unwrap();
    let entries = vec![
        WorkspaceEntry {
            path: "reports".into(),
            kind: FileKind::Directory,
        },
        WorkspaceEntry {
            path: "reports/unit.xml".into(),
            kind: FileKind::File,
        },
    ];
    assert!(verify_required_artifacts(&config.steps[0], &entries).is_ok());
}

#[test]
fn filtered_voting_steps_do_not_authorize_a_no_job_pass() {
    let config = EffectiveConfig::parse(
        "version=1\n[[step]]\nname=\"gate\"\nrun=\"true\"\ninclude=[\"src/**\"]\n",
    )
    .unwrap();
    let (result, rounds) = run_all(
        &config,
        &["docs/readme.md".into()],
        &|_| StepResultClass::Success,
        vec![false],
    );
    assert!(!result.passed);
    assert!(rounds.is_empty());
    assert_eq!(result.skipped, ["gate"]);
}

#[test]
fn a_filtered_step_runs_when_its_files_change() {
    let config = EffectiveConfig::parse(
        "version=1\n[[step]]\nname=\"gate\"\nrun=\"true\"\ninclude=[\"src/**\"]\n",
    )
    .unwrap();
    let (result, rounds) = run_all(
        &config,
        &["src/lib.rs".into()],
        &|_| StepResultClass::Success,
        vec![false],
    );
    assert!(result.passed);
    assert_eq!(rounds, [["gate"]]);
}

#[test]
fn finalizer_cannot_remove_a_required_retained_artifact() {
    let config = EffectiveConfig::parse(
        "version=1\n[[step]]\nname=\"gate\"\nrun=\"touch report\"\n[[step.artifact]]\nname=\"report\"\npatterns=[\"report\"]\nrequired=true\n[[step]]\nname=\"cleanup\"\nrun=\"rm report\"\nfinal=true\n",
    )
    .unwrap();
    let missing = vec![
        verify_required_artifacts(&config.steps[0], &Vec::new()).is_err(),
        verify_required_artifacts(&config.steps[1], &Vec::new()).is_err(),
    ];
    let (result, rounds) = run_all(&config, &[], &|_| StepResultClass::Success, missing);
    assert_eq!(rounds.last().unwrap(), &["cleanup"]);
    assert!(!result.passed);
}

#[test]
fn required_artifact_rejects_symbolic_links() {
    let config = EffectiveConfig::parse("version=1\n[[step]]\nname=\"gate\"\nrun=\"true\"\n[[step.artifact]]\nname=\"report\"\npatterns=[\"report\"]\nrequired=true\n").unwrap();
    let entries = vec![WorkspaceEntry {
        path: "report".into(),
        kind: FileKind::Symlink,
    }];
    assert_eq!(
        verify_required_artifacts(&config.steps[0], &entries),
        Err(RunnerError::WorkspaceDirty(
            "artifact path `report` is a symbolic link".into()
        ))
    );
}

#[test]
fn a_failed_step_stops_what_needs_it() {
    let config = EffectiveConfig::parse("version=1\n[[step]]\nname=\"build\"\nrun=\"build\"\n[[step]]\nname=\"test\"\nrun=\"test\"\n").unwrap();
    let (result, rounds) = run_all(
        &config,
        &[],
        &|_| StepResultClass::ExitFailure,
        vec![false, false],
    );
    assert!(!result.passed);
    assert_eq!(rounds, [["build"]]);
    assert_eq!(result.skipped, ["test"]);
}

#[test]
fn a_step_without_a_vote_only_warns() {
    let config = EffectiveConfig::parse("version=1\nallow_concurrent_roots=true\n[[step]]\nname=\"setup\"\nrun=\"setup\"\n[[step]]\nname=\"lint\"\nrun=\"lint\"\nvoting=false\nneeds=[\"setup\"]\n[[step]]\nname=\"gate\"\nrun=\"gate\"\nneeds=[\"setup\"]\n").unwrap();
    let (result, _) = run_all(
        &config,
        &[],
        &|name| {
            if name == "lint" {
                StepResultClass::ExitFailure
            } else {
                StepResultClass::Success
            }
        },
        vec![false, false, false],
    );
    assert!(result.passed);
    assert!(result.passed_with_warnings);
}

#[test]
fn successful_voting_step_with_large_stderr_reports_checkout_attestation_failure() {
    let config =
        EffectiveConfig::parse("version=1\n[[step]]\nname=\"review\"\nrun=\"review\"\n").unwrap();
    let mut run = BuildsetRun::start(&config, &[]).unwrap();
    run.next(&config).unwrap();
    let mut step = step_result(StepResultClass::Success);
    step.log.stderr_end = 409_600;
    run.finish(&config, vec![Ok(step)]).unwrap();
    assert_eq!(run.next(&config), Ok(BuildsetAction::Conclude));
    let judgement = run.judge(&config, &vec![false]);
    let oid = GitOid::from_hex("1111111111111111111111111111111111111111").unwrap();
    let error = verify_workspace(
        &WorkspaceState {
            head: Some(b"1111111111111111111111111111111111111111\n".to_vec()),
            index_clean: true,
            files_clean: false,
            merging: false,
            cherry_picking: false,
            rebasing: false,
        },
        &oid,
    )
    .unwrap_err();
    let result = run.seal(judgement, Some(error.message()));

    assert!(!result.passed);
    assert!(!result.workspace_verified);
    assert_eq!(result.steps.len(), 1);
    assert_eq!(result.steps[0].1.class, StepResultClass::Success);
    assert!(result.steps[0].1.log.stderr_end >= 400_000);
    assert_eq!(
        result.workspace_verification_error.as_deref(),
        Some("workspace verification failed: tracked worktree differs from index")
    );
}

#[test]
fn a_workspace_must_be_at_the_tested_commit() {
    let oid = GitOid::from_hex("1111111111111111111111111111111111111111").unwrap();
    let clean = WorkspaceState {
        head: Some(b"1111111111111111111111111111111111111111\n".to_vec()),
        index_clean: true,
        files_clean: true,
        merging: false,
        cherry_picking: false,
        rebasing: false,
    };
    assert!(verify_workspace(&clean, &oid).is_ok());
    let mut moved = clean.clone();
    moved.head = Some(b"2222222222222222222222222222222222222222\n".to_vec());
    assert!(verify_workspace(&moved, &oid).is_err());
    let mut merging = clean;
    merging.merging = true;
    assert!(verify_workspace(&merging, &oid).is_err());
}

#[test]
fn the_environment_is_layered() {
    let mut base: TextMap<String> = TextMap::new();
    base.insert("PATH".into(), "/bin".into());
    base.insert("HOME".into(), "/home".into());
    let mut additions: TextMap<String> = TextMap::new();
    additions.insert("PATH".into(), "/usr/bin".into());
    let mut fixed: TextMap<String> = TextMap::new();
    fixed.insert("TOLLGATE".into(), "1".into());
    let layered = layer_environment(&base, &additions, &vec!["HOME".into()], &fixed);
    assert_eq!(layered.get("PATH"), Some(&"/usr/bin".to_string()));
    assert_eq!(layered.get("HOME"), None);
    assert_eq!(layered.get("TOLLGATE"), Some(&"1".to_string()));
}

#[test]
fn a_shell_step_runs_under_the_runner() {
    let config =
        EffectiveConfig::parse("version=1\n[[step]]\nname=\"ci\"\nrun=\"echo hi\"\n").unwrap();
    assert_eq!(
        command_argv(&config.steps[0], &config.runner),
        ["/bin/sh", "-c", "echo hi"]
    );
    assert_eq!(step_log_name(&config.steps[0]), "ci.tlog");
    assert_eq!(
        step_resources(&config.steps[0]).cpu_tokens,
        config.steps[0].cpu_tokens
    );
}

#[test]
fn the_worker_is_preferred() {
    assert_eq!(choose_runner(true, false), Ok(StepRunner::Worker));
    assert_eq!(choose_runner(false, true), Ok(StepRunner::Direct));
    assert!(choose_runner(false, false).is_err());
    assert!(diagnostics_path("/logs/step.tlog").starts_with("/logs/step"));
    assert!(spawn_failure_text("no such file").contains("no such file"));
}

#[test]
fn the_login_environment_is_read_between_its_marks() {
    assert_eq!(login_shell_mode("zsh"), "-ilc");
    assert_eq!(login_shell_mode("fish"), "-lc");
    let read = read_environment(
        b"noise\x1eTOLLGATE_ENV_V1\0PATH=/bin\0A=1=2\0\x1eTOLLGATE_ENV_END\0noise",
    )
    .unwrap();
    assert_eq!(read.get("PATH"), Some(&"/bin".to_string()));
    assert_eq!(read.get("A"), Some(&"1=2".to_string()));
    assert_eq!(
        read_environment(b"PATH=/bin\0"),
        Err(RunnerError::Environment(
            "environment start frame missing".into()
        ))
    );
    assert_eq!(
        read_environment(b"\x1eTOLLGATE_ENV_V1\0PATH=/bin\0"),
        Err(RunnerError::Environment(
            "environment end frame missing".into()
        ))
    );
    assert_eq!(
        read_environment(b"\x1eTOLLGATE_ENV_V1\0PATH\0\x1eTOLLGATE_ENV_END\0"),
        Err(RunnerError::Environment(
            "environment entry omitted '='".into()
        ))
    );
    assert_eq!(
        read_environment(b"\x1eTOLLGATE_ENV_V1\0A=1\0\x1eTOLLGATE_ENV_END\0"),
        Err(RunnerError::Environment(
            "login shell did not provide PATH".into()
        ))
    );
    let mut variables: TextMap<String> = TextMap::new();
    variables.insert("PATH".into(), "/bin".into());
    let a = EnvironmentSnapshot::from_variables("env-1".into(), variables.clone());
    let b = EnvironmentSnapshot::from_variables("env-1".into(), variables.clone());
    assert_eq!(a.fingerprint, b.fingerprint);
    assert_eq!(
        a.fingerprint,
        blake3::hash(b"env-1PATH\0/bin\xff").to_hex().to_string()
    );
    variables.insert("HOME".into(), "/home".into());
    let c = EnvironmentSnapshot::from_variables("env-1".into(), variables);
    assert_ne!(a.fingerprint, c.fingerprint);
}

#[test]
fn every_step_is_told_of_once() {
    let config = EffectiveConfig::parse(&concat_lines(&[
        "version=1",
        "allow_concurrent_roots=true",
        "[[step]]",
        "name=\"a\"",
        "run=\"a\"",
        "[[step]]",
        "name=\"b\"",
        "run=\"b\"",
        "needs=[\"a\"]",
        "[[step]]",
        "name=\"c\"",
        "run=\"c\"",
        "needs=[\"b\"]",
        "[[step]]",
        "name=\"d\"",
        "run=\"d\"",
        "include=[\"docs/**\"]",
        "[[step]]",
        "name=\"e\"",
        "run=\"e\"",
        "final=true",
    ]))
    .unwrap();
    let (result, rounds) = run_all(
        &config,
        &["src/lib.rs".to_string()],
        &|name| {
            if name == "a" {
                StepResultClass::ExitFailure
            } else {
                StepResultClass::Success
            }
        },
        vec![false; 5],
    );
    assert_eq!(rounds, [vec!["a".to_string()], vec!["e".to_string()]]);
    let mut names: Vec<String> = result.steps.iter().map(|step| step.0.clone()).collect();
    assert_eq!(names, ["a", "e"]);
    assert_eq!(result.skipped, ["d", "b", "c"]);
    names.extend(result.skipped);
    names.sort();
    assert_eq!(names, ["a", "b", "c", "d", "e"]);
}

fn concat_lines(lines: &[&str]) -> String {
    lines.join("\n")
}

#[test]
fn results_come_in_the_order_of_the_dependencies() {
    let config = EffectiveConfig::parse(&concat_lines(&[
        "version=1",
        "allow_concurrent_roots=true",
        "[[step]]",
        "name=\"report\"",
        "run=\"report\"",
        "final=true",
        "needs=[\"test\"]",
        "[[step]]",
        "name=\"test\"",
        "run=\"test\"",
        "needs=[\"build\", \"fetch\"]",
        "[[step]]",
        "name=\"build\"",
        "run=\"build\"",
        "needs=[\"fetch\"]",
        "[[step]]",
        "name=\"fetch\"",
        "run=\"fetch\"",
        "[[step]]",
        "name=\"lint\"",
        "run=\"lint\"",
    ]))
    .unwrap();
    let names = |fails: &str| {
        let (result, _) = run_all(
            &config,
            &["src/lib.rs".to_string()],
            &|name| {
                if name == fails {
                    StepResultClass::ExitFailure
                } else {
                    StepResultClass::Success
                }
            },
            vec![false; 5],
        );
        let names: Vec<String> = result.steps.iter().map(|step| step.0.clone()).collect();
        names
    };
    assert_eq!(names(""), ["fetch", "lint", "build", "test", "report"]);
    // A final step runs though what it needs was passed over.
    assert_eq!(names("build"), ["fetch", "lint", "build", "report"]);
}
