use tollgate::cli::{
    advance_log, answered_item, classify_exit, connect_step, exit_for_item, log_is_done,
    next_reconnect_delay, plan, select_repository, wait_step, waits_for_validation, writes_log,
    AnswerFault, AnswerKind, CliCommand, CliPlan, ConnectEvent, ConnectStep, ItemOutcome,
    QueuedItem, RepositoryKey, SelectedRepository, WaitReport, WaitStep,
};
use tollgate::cli_text::{
    approved_text, artifact_text, cache_snapshot_text, canceled_text, candidate_text, check_text,
    configuration_applied_text, configuration_regenerated_text, configuration_text,
    environment_reloaded_text, environment_text, event_text, finding_text, initialized_text,
    item_status_text, message_text, missing_item_text, paused_text, queue_heading,
    queue_item_text, reconciled_text, removed_text, reordered_text, repository_status_text,
    repository_text, retried_text, short_oid, slot_reset_text, slot_text, step_text,
    updated_text, worktree_created_text, worktree_removed_text, GenerationSummary, ItemSummary,
    RepositorySummary,
};
use tollgate::document::Document;
use tollgate::event::Actor;
use tollgate::frame::{Frame, FrameKind};
use tollgate::ids::{CommandId, QueueItemId, RepositoryId, SlotId};
use tollgate::ipc_command::IpcCommand;
use tollgate::oid::GitOid;
use tollgate::state::{CleanupState, QueueItemState, RemoteState, RepositoryExecutionState};

fn json(text: &str) -> Document {
    Frame::control(FrameKind::Request, 1, text.as_bytes().to_vec())
        .unwrap()
        .decode_json()
        .unwrap()
}

fn outcome(state: QueueItemState) -> ItemOutcome {
    ItemOutcome {
        state,
        remote_state: RemoteState::Disabled,
        cleanup_state: CleanupState::NotEligible,
    }
}

fn selected() -> SelectedRepository {
    SelectedRepository {
        id: RepositoryId(9),
        queue_revision: 5,
    }
}

fn planned(command: CliCommand) -> CliPlan {
    plan(command, selected(), "/work".into(), CommandId(3))
}

#[test]
fn commands_become_requests() {
    assert!(matches!(
        planned(CliCommand::Approve { revision: "HEAD".into(), wait: true }),
        CliPlan::Request(IpcCommand::Approve {
            repository_id: RepositoryId(9),
            command_id: CommandId(3),
            ref revision,
            ..
        }) if revision == "HEAD"
    ));
    assert!(matches!(
        planned(CliCommand::Cancel { id: QueueItemId(4) }),
        CliPlan::Request(IpcCommand::Cancel { expected_revision: 5, item_id: QueueItemId(4), .. })
    ));
    assert!(matches!(
        planned(CliCommand::Update),
        CliPlan::Request(IpcCommand::Update { ref worktree_path, .. }) if worktree_path == "/work"
    ));
    assert!(matches!(planned(CliCommand::Queue), CliPlan::Show));
    assert!(matches!(
        planned(CliCommand::SlotReset { id: "no slot".into() }),
        CliPlan::BadSlot
    ));
    assert!(matches!(
        planned(CliCommand::SlotReset { id: SlotId(6).to_text() }),
        CliPlan::Request(IpcCommand::ResetSlot { slot_id: SlotId(6), .. })
    ));
}

#[test]
fn candidates_can_keep_their_worktree() {
    for keep in [false, true] {
        assert!(matches!(
            planned(CliCommand::Candidate {
                revision: "HEAD".into(),
                wait: false,
                retain_worktree: keep,
            }),
            CliPlan::Request(IpcCommand::Candidate {
                retain_worktree,
                repository_id: RepositoryId(9),
                ..
            }) if retain_worktree == keep
        ));
    }
}

#[test]
fn failures_are_diagnosed_on_request() {
    assert!(matches!(
        planned(CliCommand::Diagnose {
            id: QueueItemId(4),
            replay: true,
            verify_repair: false,
        }),
        CliPlan::Request(IpcCommand::Diagnose {
            repository_id: RepositoryId(9),
            item_id: QueueItemId(4),
            replay: true,
            verify_repair: false,
            command_id: CommandId(3),
        })
    ));
}

#[test]
fn the_status_of_one_item_is_read_by_itself_in_json() {
    let status = |id, json| CliCommand::Status {
        id,
        json,
        repository: None,
    };
    let one = status(Some(QueueItemId(4)), true);
    assert!(!one.needs_repository());
    assert!(matches!(
        planned(one),
        CliPlan::Request(IpcCommand::ItemDetails {
            repository_id: None,
            item_id: QueueItemId(4),
        })
    ));
    for shown in [status(None, true), status(Some(QueueItemId(4)), false)] {
        assert!(shown.needs_repository());
        assert!(matches!(planned(shown), CliPlan::Show));
    }
}

#[test]
fn only_changes_are_written_while_waiting() {
    let mut report = WaitReport::new();
    assert!(report.look("queued", false));
    assert!(!report.look("queued", false));
    assert!(report.look("queued", true));
    assert!(report.look("running", true));
    assert!(!report.look("running", true));
    assert!(report.look("queued", true));
}

#[test]
fn commands_about_no_repository_need_none() {
    assert!(!CliCommand::RepoList.needs_repository());
    assert!(CliCommand::Queue.needs_repository());
}

#[test]
fn the_repository_is_named_or_found() {
    let repositories = vec![
        RepositoryKey {
            id: RepositoryId(1),
            path: "/a".into(),
        },
        RepositoryKey {
            id: RepositoryId(2),
            path: "/b".into(),
        },
    ];
    assert_eq!(
        select_repository(&repositories, Some(RepositoryId(2)), &None),
        Ok(1)
    );
    assert_eq!(
        select_repository(&repositories, None, &Some("/a/src".into())),
        Ok(0)
    );
    assert!(select_repository(&repositories, None, &Some("/ab".into())).is_err());
    assert!(select_repository(&repositories, Some(RepositoryId(3)), &None).is_err());
    assert_eq!(select_repository(&repositories[..1].to_vec(), None, &None), Ok(0));
}

#[test]
fn an_item_decides_the_exit_code() {
    assert_eq!(exit_for_item(&outcome(QueueItemState::Promoted)), 0);
    assert_eq!(exit_for_item(&outcome(QueueItemState::Failed)), 1);
    assert_eq!(exit_for_item(&outcome(QueueItemState::Canceled)), 3);
    assert_eq!(
        exit_for_item(&outcome(QueueItemState::InfrastructureExhausted)),
        5
    );
    let mut blocked = outcome(QueueItemState::Promoted);
    blocked.remote_state = RemoteState::PushBlocked;
    assert_eq!(exit_for_item(&blocked), 4);
    let mut untidy = outcome(QueueItemState::Promoted);
    untidy.cleanup_state = CleanupState::NeedsAttention;
    assert_eq!(exit_for_item(&untidy), 4);
}

#[test]
fn an_error_decides_the_exit_code() {
    assert_eq!(classify_exit("configuration is bad"), 2);
    assert_eq!(classify_exit("item not found"), 2);
    assert_eq!(classify_exit("repository is blocked"), 4);
    assert_eq!(classify_exit("boom"), 5);
}

#[test]
fn waiting_ends_when_the_item_does() {
    assert_eq!(
        wait_step(&outcome(QueueItemState::Running), false, false),
        WaitStep::Again
    );
    assert_eq!(
        wait_step(&outcome(QueueItemState::Running), false, true),
        WaitStep::Blocked
    );
    assert_eq!(
        wait_step(&outcome(QueueItemState::Failed), false, true),
        WaitStep::Exit(1)
    );
    assert_eq!(
        wait_step(&outcome(QueueItemState::Ready), true, false),
        WaitStep::Exit(0)
    );
    assert_eq!(
        wait_step(&outcome(QueueItemState::Ready), false, false),
        WaitStep::Again
    );
}

#[test]
fn candidates_are_waited_for_until_they_are_valid() {
    let queue = vec![
        QueuedItem {
            id: QueueItemId(1),
            promotion_authorized: false,
        },
        QueuedItem {
            id: QueueItemId(2),
            promotion_authorized: true,
        },
    ];
    assert!(waits_for_validation(&queue, QueueItemId(1)));
    assert!(!waits_for_validation(&queue, QueueItemId(2)));
    assert!(!waits_for_validation(&queue, QueueItemId(3)));
}

#[test]
fn answers_name_their_item() {
    let id = QueueItemId(0x0190_0000_0000_7000_8000_0000_0000_0002);
    let answer = json(&format!("{{\"item_id\":\"{}\"}}", id.to_text()));
    assert_eq!(answered_item(AnswerKind::Approval, &answer), Ok(id));
    assert!(matches!(
        answered_item(AnswerKind::Check, &json("{}")),
        Err(AnswerFault::Omitted(_))
    ));
    assert!(matches!(
        answered_item(AnswerKind::Candidate, &json("{\"item_id\":\"x\"}")),
        Err(AnswerFault::Unreadable)
    ));
}

#[test]
fn a_log_is_followed_from_frame_to_frame() {
    assert_eq!(advance_log(1, Some(4)), 5);
    assert!(log_is_done(false, true, true));
    assert!(!log_is_done(true, true, true));
    assert!(log_is_done(true, false, true));
    assert!(!log_is_done(true, false, false));
    assert!(writes_log(QueueItemState::Running));
    assert!(!writes_log(QueueItemState::Promoted));
}

#[test]
fn reconnecting_backs_off() {
    assert_eq!(next_reconnect_delay(100), 200);
    assert_eq!(next_reconnect_delay(1_600), 2_000);
    assert_eq!(next_reconnect_delay(2_000), 2_000);
}

#[test]
fn the_app_is_launched_unless_told_otherwise() {
    assert!(matches!(
        connect_step(&ConnectEvent::Refused { error: "e".into(), no_launch: false }),
        ConnectStep::Launch
    ));
    assert!(matches!(
        connect_step(&ConnectEvent::Refused { error: "e".into(), no_launch: true }),
        ConnectStep::Fail(ref text) if text == "Tollgate app is unavailable (--no-launch): e"
    ));
    assert!(matches!(
        connect_step(&ConnectEvent::Launched { success: true, first_error: "e".into() }),
        ConnectStep::Connect
    ));
    assert!(matches!(
        connect_step(&ConnectEvent::StillRefused { error: "e".into(), elapsed_ms: 9_999 }),
        ConnectStep::Wait { milliseconds: 100 }
    ));
    assert!(matches!(
        connect_step(&ConnectEvent::StillRefused { error: "e".into(), elapsed_ms: 10_000 }),
        ConnectStep::Fail(_)
    ));
}

#[test]
fn answers_are_shown_in_words() {
    assert_eq!(short_oid("0123456789abcdef"), "0123456789");
    assert_eq!(short_oid("abc"), "abc");
    assert_eq!(
        paused_text(true, true),
        "{\"execution_state\":\"paused\"}"
    );
    assert!(removed_text(RepositoryId(1), false).contains(&RepositoryId(1).to_text()));
    assert!(canceled_text(QueueItemId(1), true).contains(&QueueItemId(1).to_text()));
    assert!(artifact_text("a1", "retained", 5, "out/report.xml").contains("out/report.xml"));
    assert!(event_text(7, "queue.reordered", Actor::Ui).contains("queue.reordered"));
    let approved = approved_text(&json(
        "{\"item_id\":\"i\",\"queue_revision\":12,\"source_oid\":\"s\"}",
    ));
    assert!(approved.contains("12"));
}

#[test]
fn the_queue_is_shown_item_by_item() {
    let oid = GitOid::from_hex("1111111111111111111111111111111111111111").unwrap();
    let item = ItemSummary {
        id: QueueItemId(1),
        state: QueueItemState::Running,
        promotion_authorized: false,
        source_oid: oid.clone(),
        branch: Some("task".into()),
        subject: "do it".into(),
        generation: Some(GenerationSummary {
            tested_oid: oid.clone(),
            expected_parent_oid: oid.clone(),
            identity_digest: "0123456789abcdef".into(),
        }),
        certified: false,
    };
    assert!(queue_heading("demo", 3, &oid).contains("demo"));
    assert!(queue_item_text(1, &item).contains("do it"));
    assert!(item_status_text(&item).contains("  state       Running\n"));
}

#[test]
fn every_answer_has_its_words() {
    let oid = "{\"format\":\"sha1\",\"bytes\":\"0123456789abcdef\"}";
    let both = |a: &str, b: &str, rest: &str| {
        json(&format!("{{\"{a}\":{oid},\"{b}\":{oid}{rest}}}"))
    };
    assert_eq!(
        candidate_text(&both(
            "source_oid",
            "tested_oid",
            ",\"item_id\":\"i\",\"queue_revision\":4"
        )),
        "Candidate i submitted without promotion authority\n  source  0123456789\n  tested  \
         0123456789\n  queue revision 4"
    );
    assert_eq!(
        check_text(&both("source_oid", "tested_oid", "")),
        "Independent check started ?\n  source  0123456789\n  tested  0123456789"
    );
    let id = QueueItemId(1);
    assert_eq!(
        retried_text(id, &json("{\"item_id\":\"j\"}"), true),
        format!("Retried {} as j at the queue tail with a cold slot.", id.to_text())
    );
    assert_eq!(
        reordered_text(&json("{\"queue_revision\":5,\"restarted_item_ids\":[1]}")),
        "Queue reordered at revision 5. 1 affected item received a new validation generation."
    );
    assert_eq!(
        reordered_text(&json("{\"queue_revision\":5}")),
        "Queue reordered at revision 5. 0 affected items received a new validation generation."
    );
    assert_eq!(
        reconciled_text(&json("{\"queue_revision\":6}")),
        "Repository reconciled.\n  adopted release ?\n  queue revision  6"
    );
    assert_eq!(
        updated_text(&both("old_oid", "new_oid", "")),
        "Feature updated.\n  old  0123456789\n  new  0123456789"
    );
    assert_eq!(
        worktree_created_text(&json("{\"path\":\"/w\",\"branch\":\"b\"}")),
        "Worktree created.\n  path    /w\n  branch  b"
    );
    assert_eq!(
        worktree_removed_text(&json("{\"message\":\"Gone.\",\"path\":\"/w\"}")),
        "Gone.\n  removed  /w"
    );
    assert_eq!(
        environment_reloaded_text(&json("{\"snapshot_id\":\"s\"}")),
        "Environment reloaded for future buildsets.\n  snapshot     s\n  fingerprint  ?"
    );
    assert_eq!(
        environment_text("s", "f", 3, "/bin"),
        "Shell environment\n  snapshot     s\n  fingerprint  f\n  variables    3\n  PATH         \
         /bin"
    );
    assert_eq!(
        configuration_text(&json(
            "{\"digest\":\"d\",\"runner\":[\"sh\",1,\"-c\"]}"
        )),
        "Configuration valid\n  digest  d\n  graph   ?\n  runner  sh -c"
    );
    assert_eq!(
        step_text(&json(
            "{\"name\":\"test\",\"voting\":true,\"timeout_ns\":120000000000}"
        )),
        "  step    test               voting=true timeout=2m"
    );
    assert_eq!(
        configuration_applied_text(&json(
            "{\"configuration\":{\"digest\":\"d\"},\"state\":{\"queue_revision\":8}}"
        )),
        "Configuration applied.\n  digest  d\n  queue revision  8"
    );
    assert_eq!(
        configuration_regenerated_text(&json("{\"digest\":\"d\",\"runner\":[\"sh\"]}")),
        "Configuration regenerated and awaits explicit apply.\n  digest  d\n  runner  sh"
    );
    assert_eq!(
        cache_snapshot_text(&json("{\"logical_bytes\":9}")),
        "Cache seed published.\n  logical bytes  9"
    );
    assert_eq!(message_text(&json("{}"), "Cache purged."), "Cache purged.");
    assert_eq!(
        finding_text(&json(
            "{\"name\":\"disk\",\"status\":\"low\",\"detail\":\"full\",\"recovery_action\":\"prune\"}"
        )),
        format!("  ! {:<28} full\n      recovery: prune", "disk")
    );
    assert_eq!(
        finding_text(&json("{\"name\":\"git\",\"status\":\"healthy\"}")),
        format!("  ✓ {:<28} ", "git")
    );
}

#[test]
fn repositories_and_slots_are_described() {
    let oid = GitOid::from_hex("1111111111111111111111111111111111111111").unwrap();
    let digest = "0123456789abcdef".repeat(4);
    let id = RepositoryId(7);
    assert_eq!(
        initialized_text(
            "demo",
            id,
            &oid,
            &digest,
            RepositoryExecutionState::Blocked,
            &None
        ),
        format!(
            "Initialized demo\n  repository  {}\n  release     1111111111\n  config      \
             0123456789ab\n\nGate needs attention: blocked",
            id.to_text()
        )
    );
    assert_eq!(
        repository_text("demo", id, "/demo"),
        format!("{:<20} {}  /demo", "demo", id.to_text())
    );
    assert_eq!(
        slot_text(SlotId(2), "idle", &Some(oid.clone())),
        format!("{}  idle      1111111111", SlotId(2).to_text())
    );
    assert_eq!(
        slot_text(SlotId(2), "idle", &None),
        format!("{}  idle      —", SlotId(2).to_text())
    );
    assert_eq!(
        slot_reset_text(&json("{\"id\":\"s\",\"health\":\"healthy\"}")),
        "Slot s was quarantined and recreated cold.\n  checkout  ?\n  health    healthy"
    );
    assert_eq!(
        missing_item_text(QueueItemId(3)),
        format!(
            "Queue item {} was not found in the recent snapshot.",
            QueueItemId(3).to_text()
        )
    );
    assert_eq!(
        repository_status_text(&RepositorySummary {
            name: "demo".into(),
            execution_state: RepositoryExecutionState::Active,
            release: oid,
            queued_items: 2,
            queue_revision: 3,
            active_runs: 1,
            queued_runs: 4,
            configuration_digest: digest,
        }),
        "demo\n  execution  Active\n  release    1111111111\n  queue      2 items · revision 3\n  \
         runs       1 active · 4 waiting\n  config     0123456789ab"
    );
}
