use tollgate::process_tree::{
    descendants_of, escape_message, memory_limit_message, parse_holders, parse_memory,
    parse_process_table, ProcessIdentity, ProcessInstance,
};
use tollgate::runner::{LogStream, RunnerError};
use tollgate::step_run::{Supervision, SupervisionAction};
use tollgate::text_map::TextMap;
use tollgate::worker::{accept_spec, accept_start, WorkerRun};
use tollgate::worker_input::WorkerInput;
use tollgate::worker_output::WorkerOutput;

fn process(pid: u32, parent: u32, process_group: u32, started_at: &str) -> ProcessIdentity {
    ProcessIdentity {
        pid,
        parent,
        process_group,
        started_at: started_at.into(),
    }
}

fn spec(nonce: &str, argv: Vec<String>) -> WorkerInput {
    let mut environment: TextMap<String> = TextMap::new();
    environment.insert("PATH".into(), "/usr/bin:/bin:/usr/sbin:/sbin".into());
    WorkerInput::Spec {
        nonce: nonce.into(),
        cwd: "/work".into(),
        argv,
        environment,
        timeout_ms: 5_000,
        termination_grace_ms: 200,
        rss_limit_bytes: None,
    }
}

#[test]
fn descendant_tracking_ignores_a_reused_observed_pid() {
    let root = process(10, 1, 10, "root");
    let old_child = process(20, 10, 10, "old-child");
    let observed = vec![old_child.instance()];
    let reused_pid = process(20, 1, 20, "unrelated-new-process");

    assert!(descendants_of(&root.instance(), &[root, reused_pid], &observed).is_empty());
}

#[test]
fn descendant_tracking_retains_a_reparented_process_instance() {
    let root = process(10, 1, 10, "root");
    let child = process(20, 10, 10, "child");
    let descendants = descendants_of(
        &root.instance(),
        &[root.clone(), child.clone()],
        &Vec::new(),
    );
    let observed = descendants
        .iter()
        .map(ProcessIdentity::instance)
        .collect::<Vec<ProcessInstance>>();
    let escaped = process(20, 1, 20, "child");

    let descendants = descendants_of(&root.instance(), &[escaped], &observed);
    assert_eq!(descendants.len(), 1);
    assert_eq!(descendants[0].pid, 20);
    assert_eq!(descendants[0].process_group, 20);
}

#[test]
fn descendants_are_followed_over_several_generations() {
    let root = process(10, 1, 10, "root");
    let table = [
        process(30, 20, 10, "grandchild"),
        root.clone(),
        process(20, 10, 10, "child"),
        process(40, 1, 40, "stranger"),
    ];
    let mut pids: Vec<u32> = descendants_of(&root.instance(), &table, &Vec::new())
        .iter()
        .map(|process| process.pid)
        .collect();
    pids.sort();
    assert_eq!(pids, [20, 30]);
}

#[test]
fn reparented_session_escape_is_failed_and_reaped() {
    let mut run = WorkerRun::new("containment-session-escape", 10, 10, None);
    let seen = run.watch(&[process(10, 5, 10, "root"), process(20, 10, 10, "child")]);
    assert_eq!(seen.len(), 1);
    let seen = run.watch(&[process(20, 1, 20, "child")]);
    let pids: Vec<u32> = seen.iter().map(|process| process.pid).collect();
    assert_eq!(pids, [20]);
    assert_eq!(run.judge_sessions(&pids, &vec![Some(20)]), [0]);
    let terminal = run.terminal(Some(0), None, true, true);
    assert!(matches!(
        terminal,
        WorkerOutput::Terminal {
            containment_escaped: true,
            process_group_reaped: true,
            containment_diagnostic: Some(ref diagnostic),
            ..
        } if diagnostic.contains("Tollgate rejected")
    ));
}

#[test]
fn connected_session_escape_is_failed_and_reaped() {
    let mut run = WorkerRun::new("containment-connected-session-escape", 10, 10, None);
    let seen = run.watch(&[process(10, 5, 10, "root"), process(20, 10, 20, "child")]);
    let pids: Vec<u32> = seen.iter().map(|process| process.pid).collect();
    assert_eq!(run.judge_sessions(&pids, &vec![Some(20)]), [0]);
    let terminal = run.terminal(None, Some(15), true, true);
    assert!(matches!(
        terminal,
        WorkerOutput::Terminal {
            containment_escaped: true,
            process_group_reaped: true,
            containment_diagnostic: Some(ref diagnostic),
            ..
        } if diagnostic.contains("session escape")
    ));
}

#[test]
fn same_session_subgroup_is_allowed_when_the_root_waits_for_it() {
    let mut run = WorkerRun::new("containment-same-session-subgroup", 10, 10, None);
    let seen = run.watch(&[process(10, 5, 10, "root"), process(20, 10, 20, "child")]);
    let pids: Vec<u32> = seen.iter().map(|process| process.pid).collect();
    assert_eq!(pids, [20]);
    assert!(run.judge_sessions(&pids, &vec![Some(10)]).is_empty());
    let terminal = run.terminal(Some(0), None, true, true);
    assert!(matches!(
        terminal,
        WorkerOutput::Terminal {
            exit_code: Some(0),
            signal: None,
            containment_escaped: false,
            containment_diagnostic: None,
            process_group_reaped: true,
            ..
        }
    ));
}

#[test]
fn timed_out_same_session_subgroup_is_reaped_without_a_containment_failure() {
    let mut run = WorkerRun::new("containment-timed-out-subgroup", 10, 10, None);
    let seen = run.watch(&[process(10, 5, 10, "root"), process(20, 10, 20, "child")]);
    let pids: Vec<u32> = seen.iter().map(|process| process.pid).collect();
    run.judge_sessions(&pids, &vec![Some(10)]);
    run.deadline();
    let terminal = run.terminal(None, Some(15), true, true);
    assert!(matches!(
        terminal,
        WorkerOutput::Terminal {
            timed_out: true,
            containment_escaped: false,
            containment_diagnostic: None,
            process_group_reaped: true,
            ..
        }
    ));
}

#[test]
fn a_process_that_is_gone_has_not_left_the_session() {
    let mut run = WorkerRun::new("n", 10, 10, None);
    assert!(run.judge_sessions(&vec![20], &vec![None]).is_empty());
    assert!(run.escape_report().is_none());
}

#[test]
fn memory_over_the_limit_is_told_once() {
    let mut run = WorkerRun::new("n", 10, 10, Some(1024));
    assert!(run.measured(Some(1024)).is_none());
    assert_eq!(run.measured(Some(1025)), Some(memory_limit_message(1024)));
    let terminal = run.terminal(None, Some(9), true, true);
    assert!(matches!(terminal, WorkerOutput::Terminal { rss_exceeded: true, .. }));
}

#[test]
fn only_the_own_nonce_ends_a_step() {
    let mut run = WorkerRun::new("mine", 10, 10, None);
    assert!(!run.ordered(&Some(WorkerInput::Terminate { nonce: "other".into() })));
    assert!(run.ordered(&Some(WorkerInput::Terminate { nonce: "mine".into() })));
    assert!(matches!(
        run.terminal(None, Some(15), true, true),
        WorkerOutput::Terminal { canceled: true, .. }
    ));
}

#[test]
fn orders_are_checked() {
    assert!(accept_spec("n", &spec("n", vec!["/bin/true".into()])).is_ok());
    assert_eq!(
        accept_spec("n", &spec("other", vec!["/bin/true".into()])),
        Err("worker nonce mismatch or empty argv".into())
    );
    assert_eq!(
        accept_spec("n", &spec("n", Vec::new())),
        Err("worker nonce mismatch or empty argv".into())
    );
    assert_eq!(
        accept_spec("n", &WorkerInput::Start { nonce: "n".into() }),
        Err("first worker frame must be spec".into())
    );
    assert!(accept_start("n", &WorkerInput::Start { nonce: "n".into() }).is_ok());
    assert!(accept_start("n", &WorkerInput::Start { nonce: "m".into() }).is_err());
    assert!(accept_start("n", &WorkerInput::Terminate { nonce: "n".into() }).is_err());
}

#[test]
fn output_reaches_the_log_as_it_was_written() {
    let run = WorkerRun::new("n", 10, 10, None);
    let mut supervision = Supervision::new("n", Some(7));
    assert!(matches!(
        supervision.report(WorkerOutput::Registered {
            nonce: "n".into(),
            worker_pid: 7
        }),
        SupervisionAction::SendStart
    ));
    let report = run.log_report(LogStream::Stderr, b"err\xff\n");
    assert!(matches!(
        report,
        WorkerOutput::Log { ref stream, ref payload_base64, .. }
            if stream == "stderr" && payload_base64 == "ZXJy/wo="
    ));
    assert!(matches!(
        supervision.report(report),
        SupervisionAction::Append { stream: LogStream::Stderr, ref payload }
            if payload == b"err\xff\n"
    ));
}

#[test]
fn reports_that_do_not_belong_end_the_supervision() {
    let mut supervision = Supervision::new("n", Some(7));
    assert!(matches!(
        supervision.report(WorkerOutput::Registered {
            nonce: "n".into(),
            worker_pid: 8
        }),
        SupervisionAction::GiveUp { group: None, .. }
    ));

    let mut supervision = Supervision::new("n", Some(7));
    supervision.report(WorkerOutput::Registered {
        nonce: "n".into(),
        worker_pid: 7,
    });
    assert!(matches!(
        supervision.report(WorkerOutput::Started {
            nonce: "n".into(),
            child_pid: 9,
            process_group_id: 9
        }),
        SupervisionAction::Wait
    ));
    assert!(matches!(
        supervision.report(WorkerOutput::Log {
            nonce: "n".into(),
            stream: "stdout".into(),
            payload_base64: "not base64!".into()
        }),
        SupervisionAction::GiveUp { error: RunnerError::Interrupted(reason), group: Some(9), .. }
            if reason.starts_with("worker log payload is malformed: ")
    ));
    assert!(matches!(
        supervision.report(WorkerOutput::Log {
            nonce: "n".into(),
            stream: "sideways".into(),
            payload_base64: "aGk=".into()
        }),
        SupervisionAction::GiveUp { group: Some(9), .. }
    ));
}

#[test]
fn a_process_listing_is_read_line_by_line() {
    let table = parse_process_table(
        "   10     1    10 Mon Jan  1 00:00:00 2024\n bad line\n 20 10 10 Tue\n 30 10 10\n",
    );
    assert_eq!(
        table,
        [
            process(10, 1, 10, "Mon Jan 1 00:00:00 2024"),
            process(20, 10, 10, "Tue"),
        ]
    );
}

#[test]
fn memory_is_summed_in_bytes() {
    assert_eq!(parse_memory("  10\n 20 \n"), Some(30 * 1024));
    assert_eq!(parse_memory(""), Some(0));
    assert_eq!(parse_memory("10\nmany\n"), None);
    assert_eq!(parse_memory("18446744073709551615\n1\n"), Some(u64::MAX));
}

#[test]
fn holders_of_a_pipe_are_found() {
    let listing = "p10\nn/tmp/a\np20\nn/tmp/b\np30\nn/tmp/a\n";
    assert_eq!(parse_holders(listing, &vec!["/tmp/a".into()], 30), [10]);
    assert!(parse_holders(listing, &vec!["/tmp/c".into()], 1).is_empty());
}

#[test]
fn messages_name_the_process_and_the_limit() {
    assert!(escape_message(42).contains("PID 42"));
    assert!(memory_limit_message(1024).contains("1024"));
}

#[test]
fn worker_frames_survive_the_channel() {
    let order = spec("n", vec!["/bin/echo".into(), "hi".into()]);
    let text = String::from_utf8(order.to_json()).unwrap();
    assert!(text.contains("\"type\":\"spec\""));
    let read = WorkerInput::read(&order.to_document()).unwrap();
    assert!(matches!(
        read,
        WorkerInput::Spec { ref nonce, ref argv, timeout_ms: 5_000, rss_limit_bytes: None, .. }
            if nonce == "n" && argv.len() == 2
    ));
    let report = WorkerOutput::Started {
        nonce: "n".into(),
        child_pid: 3,
        process_group_id: 3,
    };
    assert!(matches!(
        WorkerOutput::read(&report.to_document()),
        Some(WorkerOutput::Started { child_pid: 3, process_group_id: 3, .. })
    ));
}
