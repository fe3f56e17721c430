use tollgate::document::Document;
use tollgate::frame::{Frame, FrameKind};
use tollgate::ids::RepositoryId;
use tollgate::model::BlockReason;
use tollgate::notify::{
    is_repairable_link, may_quit, plan_install, FailureMonitor, InstallPlan, InstalledFile,
    NewsEvent, NotificationPreferences, RepositoryActivity, RepositoryNews,
};
use tollgate::state::QueueItemState;

fn json(text: &str) -> Document {
    Frame::control(FrameKind::Request, 1, text.as_bytes().to_vec())
        .unwrap()
        .decode_json()
        .unwrap()
}

fn news(events: Vec<NewsEvent>, block_reasons: Vec<BlockReason>) -> RepositoryNews {
    RepositoryNews {
        id: RepositoryId(1),
        name: "demo".into(),
        event_sequence: events.iter().map(|event| event.sequence).max().unwrap_or(0),
        history: events,
        block_reasons,
    }
}

fn failed(sequence: u64) -> NewsEvent {
    NewsEvent {
        sequence,
        kind: "queue.item-updated".into(),
        payload: json(
            "{\"state\":\"failed\",\"remote_state\":\"disabled\",\"terminal_reason\":\"tests failed\",\"metadata\":{\"subject\":\"do it\"}}",
        ),
    }
}

#[test]
fn failures_are_told_once() {
    let mut monitor = FailureMonitor::new();
    monitor.skip(&news(Vec::new(), Vec::new()));
    let told = monitor.observe(&news(vec![failed(1)], Vec::new()), true);
    assert_eq!(told.len(), 1);
    assert!(told[0].title.contains("demo") || told[0].body.contains("demo"));
    assert!(monitor
        .observe(&news(vec![failed(1)], Vec::new()), true)
        .is_empty());
    assert_eq!(
        monitor
            .observe(&news(vec![failed(1), failed(2)], Vec::new()), true)
            .len(),
        1
    );
}

#[test]
fn muted_repositories_are_not_told_of() {
    let preferences = NotificationPreferences {
        quiet_mode: false,
        muted_repositories: vec![RepositoryId(1)],
    };
    assert!(!preferences.notifications_enabled(RepositoryId(1)));
    assert!(preferences.notifications_enabled(RepositoryId(2)));
    let quiet = NotificationPreferences {
        quiet_mode: true,
        muted_repositories: Vec::new(),
    };
    assert!(!quiet.notifications_enabled(RepositoryId(2)));
    let mut monitor = FailureMonitor::new();
    monitor.skip(&news(Vec::new(), Vec::new()));
    assert!(monitor
        .observe(&news(vec![failed(1)], Vec::new()), false)
        .is_empty());
}

#[test]
fn blocks_are_told_once() {
    let block = BlockReason {
        code: "dirty".into(),
        message: "m".into(),
        recovery_action: "r".into(),
    };
    let mut monitor = FailureMonitor::new();
    monitor.skip(&news(Vec::new(), Vec::new()));
    assert_eq!(
        monitor.observe(&news(Vec::new(), vec![block.clone()]), true).len(),
        1
    );
    assert!(monitor
        .observe(&news(Vec::new(), vec![block.clone()]), true)
        .is_empty());
    monitor.observe(&news(Vec::new(), Vec::new()), true);
    assert!(monitor
        .observe(&news(Vec::new(), vec![block]), true)
        .is_empty());
}

#[test]
fn quitting_waits_for_work() {
    let idle = RepositoryActivity {
        active_runs: 0,
        queue: vec![QueueItemState::Promoted],
    };
    let busy = RepositoryActivity {
        active_runs: 1,
        queue: Vec::new(),
    };
    assert!(may_quit(&vec![idle.clone()], false));
    assert!(!may_quit(&vec![idle, busy.clone()], false));
    assert!(may_quit(&vec![busy], true));
}

#[test]
fn the_program_is_installed_without_overwriting_others() {
    assert_eq!(
        plan_install(&InstalledFile::Nothing, "/usr/local/bin/tg"),
        InstallPlan::Create
    );
    assert_eq!(
        plan_install(&InstalledFile::Bundled, "/usr/local/bin/tg"),
        InstallPlan::Keep
    );
    assert!(matches!(
        plan_install(&InstalledFile::Other, "/usr/local/bin/tg"),
        InstallPlan::Refuse(_)
    ));
    assert!(is_repairable_link("/Applications/Tollgate.app/Contents/MacOS/tg"));
    assert!(!is_repairable_link("/usr/bin/env"));
}
