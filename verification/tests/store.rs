use tollgate::artifact_table::ArtifactRecord;
use tollgate::content_digest::ContentDigest;
use tollgate::document::Document;
use tollgate::event::{Actor, DomainEvent};
use tollgate::event_table::Notice;
use tollgate::attempt_table::StepAttemptRecord;
use tollgate::ids::{
    BuildsetId, CertificateId, CommandId, EventId, QueueItemId, RepositoryId, StepAttemptId,
    StepId, ValidationGenerationId,
};
use tollgate::intent_table::{merged_evidence, IntentRow};
use tollgate::json::read_json;
use tollgate::model::{
    Buildset, PassCertificate, QueueItem, QueueItemKind, RepositoryState, SignatureState, SourceMetadata, Timestamp,
    ValidationGeneration,
};
use tollgate::oid::{GitOid, ObjectFormat};
use tollgate::repository_store::RepositoryStore;
use tollgate::result_table::Reply;
use tollgate::seed_table::{entry_count, manifest_hash, SeedRecord};
use tollgate::state::{
    BuildsetState, CleanupPolicy, CleanupState, QueueItemState, RemoteState, RepositoryExecutionState,
};
use tollgate::store::{
    artifact_size, backup_name, check_integrity, decode_time, encode_time, from_sqlite, migrate,
    migration_allowance, migration_name, missing_columns, to_sqlite, verify_sqlite_version,
    IntentState, MigrationPlan, StoreError, SCHEMA_VERSION,
};
use tollgate::stored_json::read_approval;
use tollgate::volume_table::{ReservationRow, VolumeRow};

/// An item as it is noted down.
const NOTED: &str = "{\"id\":\"00000000-0000-0000-0000-000000000005\",\
\"repository_id\":\"00000000-0000-0000-0000-000000000001\",\"kind\":\"gate\",\
\"admission_sequence\":null,\"enqueue_sequence\":1,\
\"source_oid\":{\"format\":\"sha1\",\"bytes\":\"0202020202020202020202020202020202020202\"},\
\"source_ref\":\"refs/tollgate/sources/5\",\"metadata\":{\"subject\":\"candidate\",\
\"message_hash\":\"message\",\"author_name\":\"Tollgate Test\",\
\"author_email\":\"test@example.com\",\"branch\":\"task\",\"worktree_path\":null,\
\"signature_state\":\"unknown\",\"approved_at\":[2024,60,12,30,0,5,1,30,0],\
\"purpose\":null},\"state\":\"queued\",\"terminal_reason\":null,\
\"remote_state\":\"disabled\",\"cleanup_state\":\"not-eligible\",\
\"cleanup_policy\":\"automatic\",\
\"dependencies\":[\"00000000-0000-0000-0000-000000000004\"],\
\"promotion_authorized\":false,\"promotion_authorized_at\":null,\
\"promotion_authorized_by\":null,\"current_generation_id\":null,\
\"buildset_id\":null,\"certificate_id\":null}";

fn noted_item() -> Document {
    read_json(NOTED.as_bytes()).unwrap()
}

fn oid(value: u8) -> GitOid {
    GitOid::new(ObjectFormat::Sha1, vec![value; 20]).unwrap()
}

fn state_named(name: &str, integration_ref: &str, master: u8) -> RepositoryState {
    RepositoryState {
        id: RepositoryId(1),
        name: name.into(),
        path: format!("/{name}"),
        integration_ref: integration_ref.into(),
        master_oid: oid(master),
        queue_revision: 0,
        event_sequence: 0,
        engine_epoch: 1,
        execution_state: RepositoryExecutionState::Active,
        block_reasons: Vec::new(),
        active_configuration_digest: "digest".into(),
        active_window: 20,
        active_window_floor: 3,
        active_window_ceiling: 20,
        remote_enabled: false,
    }
}

fn generation_of(state: &RepositoryState, id: u128, item_id: QueueItemId) -> ValidationGeneration {
    ValidationGeneration::derive(
        ValidationGenerationId(id),
        item_id,
        state.master_oid.clone(),
        vec![item_id],
        vec![oid(2)],
        vec![oid(2)],
        state.master_oid.clone(),
        oid(2),
        "digest".into(),
        "steps".into(),
        state.engine_epoch,
    )
}

fn item_of(
    state: &RepositoryState,
    item_id: QueueItemId,
    enqueue_sequence: u64,
    generation: Option<ValidationGenerationId>,
) -> QueueItem {
    QueueItem {
        id: item_id,
        repository_id: state.id,
        kind: QueueItemKind::Gate,
        admission_sequence: Some(enqueue_sequence),
        enqueue_sequence,
        source_oid: oid(2),
        source_ref: format!("refs/tollgate/sources/{}", item_id.to_text()),
        metadata: SourceMetadata {
            subject: "candidate".into(),
            message_hash: "message".into(),
            author_name: "Tollgate Test".into(),
            author_email: "test@example.com".into(),
            branch: Some("task".into()),
            worktree_path: Some(format!("{}/task", state.path)),
            signature_state: SignatureState::Unknown,
            approved_at: Timestamp { unix_nanos: 0 },
            purpose: Some("candidate".into()),
        },
        state: QueueItemState::Queued,
        terminal_reason: None,
        remote_state: RemoteState::Disabled,
        cleanup_state: CleanupState::NotEligible,
        cleanup_policy: CleanupPolicy::Automatic,
        dependencies: Vec::new(),
        promotion_authorized: false,
        promotion_authorized_at: None,
        promotion_authorized_by: None,
        current_generation_id: generation,
        buildset_id: None,
        certificate_id: None,
    }
}

fn notice(id: u128) -> Notice {
    Notice {
        id: EventId(id),
        payload: "{}".into(),
        created_at: Timestamp { unix_nanos: 7 },
    }
}

fn reply(digest: &str) -> Reply {
    Reply {
        request_digest: digest.into(),
        response: "{\"ok\":true}".into(),
    }
}

#[test]
fn initializes_and_reads_repository_state() {
    let mut store = RepositoryStore::open_in_memory();
    assert_eq!(store.repository_state(), Err(StoreError::RepositoryMissing));
    let state = state_named("demo", "refs/heads/master", 1);
    store.initialize_repository(state.clone());
    assert_eq!(store.repository_state().unwrap(), &state);
    let mut other = state.clone();
    other.id = RepositoryId(2);
    assert_eq!(
        store.update_repository_state(other.clone()),
        Err(StoreError::RepositoryMissing)
    );
    store.initialize_repository(other);
    assert_eq!(
        store.repository_state(),
        Err(StoreError::Integrity(
            "repository database contains 2 competing identities".into()
        ))
    );
}

#[test]
fn volume_reservations_are_admitted_and_released_transactionally() {
    let mut store = RepositoryStore::open_in_memory();
    let state = state_named("reservation-test", "refs/heads/master", 7);
    store.initialize_repository(state.clone());
    store
        .volumes
        .upsert_volume_state("shared", vec!["git".into()], 750, 500, 50, 1_000)
        .unwrap();
    let first = CommandId(1);
    let second = CommandId(2);
    store
        .prepare_operation(state.id, "reservation-test", first, "{\"oid\":\"a\"}")
        .unwrap();
    store
        .prepare_operation(state.id, "reservation-test", second, "{\"oid\":\"b\"}")
        .unwrap();
    store.reserve_volume(first, "shared", 400).unwrap();
    assert!(store.reserve_volume(second, "shared", 200).is_err());
    assert_eq!(store.volumes.active_volume_reservation("shared"), 400);
    store.volumes.deactivate_volume_reservation(first);
    store.reserve_volume(second, "shared", 200).unwrap();
    assert_eq!(store.volumes.active_volume_reservation("shared"), 200);
}

#[test]
fn room_is_only_for_work_under_way() {
    let mut store = RepositoryStore::open_in_memory();
    let state = state_named("demo", "refs/heads/master", 7);
    store.initialize_repository(state.clone());
    store
        .volumes
        .upsert_volume_state("shared", vec!["git".into()], 750, 500, 50, 1_000)
        .unwrap();
    assert!(matches!(
        store.reserve_volume(CommandId(1), "shared", 1),
        Err(StoreError::Sql(_))
    ));
    store
        .prepare_operation(state.id, "k", CommandId(1), "{}")
        .unwrap();
    assert!(matches!(
        store.reserve_volume(CommandId(1), "elsewhere", 1),
        Err(StoreError::Sql(_))
    ));
    assert_eq!(
        store.reserve_volume(CommandId(1), "shared", u64::MAX),
        Err(StoreError::Integrity(
            "volume allowance exceeds SQLite range".into()
        ))
    );
    store.reserve_volume(CommandId(1), "shared", 100).unwrap();
    store.set_intent_state(CommandId(1), IntentState::Canceled, "{}");
    assert_eq!(store.volumes.active_volume_reservation("shared"), 0);
}

#[test]
fn approval_completion_rejects_queue_change_after_preflight_atomically() {
    let mut store = RepositoryStore::open_in_memory();
    let mut state = state_named("candidate-race", "refs/heads/release", 1);
    store.initialize_repository(state.clone());
    let item_id = QueueItemId(5);
    let generation = generation_of(&state, 6, item_id);
    let item = item_of(&state, item_id, 1, Some(generation.id));
    let command_id = CommandId(7);
    store
        .prepare_approval(state.id, noted_item(), command_id, "request")
        .unwrap();

    state.queue_revision = 1;
    store.update_repository_state(state).unwrap();
    let error = store
        .complete_approval(
            item,
            Some(generation),
            0,
            Actor::Cli,
            command_id,
            "candidate",
            "{}",
            notice(1),
            reply("request"),
        )
        .unwrap_err();
    assert!(matches!(
        error,
        StoreError::RevisionConflict {
            expected: 0,
            actual: 1
        }
    ));
    assert!(store.queue_items().is_empty());
    let waiting = store.unfinished_approvals().unwrap();
    assert_eq!(waiting, vec![(command_id, noted_item(), "request".to_string())]);
}

#[test]
fn stale_item_projections_allocate_event_sequences_from_durable_state() {
    let mut store = RepositoryStore::open_in_memory();
    let state = state_named("projection-race", "refs/heads/release", 1);
    store.initialize_repository(state.clone());
    let item_id = QueueItemId(5);
    let generation = generation_of(&state, 6, item_id);
    let mut item = item_of(&state, item_id, 1, Some(generation.id));
    let command_id = CommandId(7);
    store
        .prepare_approval(state.id, noted_item(), command_id, "request")
        .unwrap();
    store
        .complete_approval(
            item.clone(),
            Some(generation),
            0,
            Actor::Cli,
            command_id,
            "candidate",
            "{}",
            notice(1),
            reply("request"),
        )
        .unwrap();

    item.terminal_reason = Some("first".into());
    let first = store
        .save_item_projection(state.clone(), item.clone(), notice(2))
        .unwrap();
    item.terminal_reason = Some("second".into());
    let second = store
        .save_item_projection(state.clone(), item, notice(3))
        .unwrap();

    assert_eq!(first.sequence, 2);
    assert_eq!(second.sequence, 3);
    assert_eq!(store.repository_state().unwrap().event_sequence, 3);
}

/// A store with two approved items.
fn two_items() -> (RepositoryStore, RepositoryState) {
    let mut store = RepositoryStore::open_in_memory();
    let state = state_named("demo", "refs/heads/release", 1);
    store.initialize_repository(state.clone());
    for n in 1..3u128 {
        let item_id = QueueItemId(n);
        let generation = generation_of(&state, 10 + n, item_id);
        store
            .prepare_approval(state.id, noted_item(), CommandId(n), "request")
            .unwrap();
        let event = store
            .complete_approval(
                item_of(&state, item_id, n as u64, Some(generation.id)),
                Some(generation),
                n as u64 - 1,
                Actor::Cli,
                CommandId(n),
                "approve",
                "{}",
                notice(n),
                reply("request"),
            )
            .unwrap();
        assert_eq!(event.kind, "queue.item-enqueued");
        assert_eq!(event.sequence, n as u64);
    }
    (store, state)
}

#[test]
fn an_approval_is_completed_once() {
    let (mut store, state) = two_items();
    assert_eq!(store.repository_state().unwrap().queue_revision, 2);
    assert_eq!(store.unfinished_approvals(), Ok(Vec::new()));
    assert_eq!(
        store.prepare_approval(state.id, noted_item(), CommandId(1), "request"),
        Err(StoreError::CommandReplayMismatch)
    );
    assert!(matches!(
        store.complete_approval(
            item_of(&state, QueueItemId(1), 9, None),
            None,
            2,
            Actor::Cli,
            CommandId(9),
            "approve",
            "{}",
            notice(9),
            reply("request"),
        ),
        Err(StoreError::Sql(_))
    ));
    assert_eq!(
        store
            .results
            .checked_command_response(CommandId(1), "approve", "request"),
        Ok(Some("{\"ok\":true}".into()))
    );
    assert_eq!(
        store
            .results
            .checked_command_response(CommandId(1), "approve", "other"),
        Err(StoreError::CommandReplayMismatch)
    );
    assert_eq!(
        store
            .results
            .checked_command_response(CommandId(3), "approve", "request"),
        Ok(None)
    );
}

#[test]
fn a_check_leaves_the_queue_as_it_is() {
    let (mut store, state) = two_items();
    let generation = generation_of(&state, 30, QueueItemId(30));
    let event = store
        .complete_check(
            item_of(&state, QueueItemId(30), 30, Some(generation.id)),
            generation,
            Actor::Cli,
            CommandId(30),
            "{}",
            notice(30),
            reply("request"),
        )
        .unwrap();
    assert_eq!(event.kind, "check.started");
    assert_eq!(event.sequence, 3);
    assert_eq!(store.repository_state().unwrap().queue_revision, 2);
}

#[test]
fn items_may_trade_places() {
    let (mut store, mut state) = two_items();
    state.queue_revision = 3;
    state.event_sequence = 2;
    let items = vec![
        item_of(&state, QueueItemId(1), 2, None),
        item_of(&state, QueueItemId(2), 1, None),
    ];
    let event = store
        .replace_queue_structure(
            state,
            items,
            vec![generation_of(&state_named("demo", "r", 1), 21, QueueItemId(1))],
            CommandId(21),
            "reorder",
            notice(21),
            reply("request"),
        )
        .unwrap();
    assert_eq!(event.kind, "queue.reordered");
    assert_eq!(event.actor, Actor::Ui);
    assert_eq!(event.sequence, 3);
    assert_eq!(store.queue_items(), [1, 0]);
    assert_eq!(
        store
            .generations
            .rows
            .iter()
            .filter(|row| row.current && row.generation.item_id == QueueItemId(1))
            .count(),
        1
    );
}

#[test]
fn a_candidate_is_authorized_on_the_queue_it_was_planned_for() {
    let (mut store, state) = two_items();
    let items = vec![item_of(&state, QueueItemId(1), 1, None)];
    assert_eq!(
        store.authorize_candidate(
            state.clone(),
            items.clone(),
            Vec::new(),
            Vec::new(),
            1,
            CommandId(20),
            notice(20),
            reply("r"),
        ),
        Err(StoreError::Integrity(
            "candidate authorization revision changed from 1 to 2".into()
        ))
    );
    assert_eq!(
        store.authorize_candidate(
            state.clone(),
            Vec::new(),
            Vec::new(),
            Vec::new(),
            2,
            CommandId(20),
            notice(20),
            reply("r"),
        ),
        Err(StoreError::Integrity(
            "candidate authorization did not include any active items".into()
        ))
    );
    let unknown = generation_of(&state, 99, QueueItemId(1));
    assert!(matches!(
        store.authorize_candidate(
            state.clone(),
            items.clone(),
            Vec::new(),
            vec![unknown],
            2,
            CommandId(20),
            notice(20),
            reply("r"),
        ),
        Err(StoreError::Integrity(text)) if text.contains("was not available for reactivation")
    ));
    assert!(matches!(
        store.authorize_candidate(
            state.clone(),
            vec![item_of(&state, QueueItemId(77), 1, None)],
            Vec::new(),
            Vec::new(),
            2,
            CommandId(20),
            notice(20),
            reply("r"),
        ),
        Err(StoreError::Integrity(text)) if text.contains("exactly once")
    ));
    let event = store
        .authorize_candidate(
            state.clone(),
            items,
            vec![generation_of(&state, 40, QueueItemId(1))],
            vec![generation_of(&state, 11, QueueItemId(1))],
            2,
            CommandId(20),
            notice(20),
            reply("r"),
        )
        .unwrap();
    assert_eq!(event.kind, "candidate.promotion-authorized");
    assert_eq!(store.repository_state().unwrap().queue_revision, 3);
    assert_eq!(store.repository_state().unwrap().event_sequence, 3);
    assert!(store
        .generations
        .rows
        .iter()
        .any(|row| row.current && row.generation.id == ValidationGenerationId(11)));
}

#[test]
fn events_are_numbered_and_read_in_order() {
    let (mut store, state) = two_items();
    let event = |id: u128, sequence: u64| DomainEvent {
        id: EventId(id),
        repository_id: state.id,
        sequence,
        actor: Actor::Recovery,
        command_id: None,
        kind: "k".into(),
        payload: "{}".into(),
        created_at: Timestamp { unix_nanos: 0 },
    };
    store.append_event(event(50, 9)).unwrap();
    store.append_event(event(51, 5)).unwrap();
    assert!(matches!(
        store.append_event(event(52, 5)),
        Err(StoreError::Sql(_))
    ));
    assert!(matches!(
        store.append_event(event(50, 6)),
        Err(StoreError::Sql(_))
    ));
    let numbers: Vec<u64> = store
        .events
        .events_after(1, 2)
        .iter()
        .map(|at| store.events.rows[*at].sequence)
        .collect();
    assert_eq!(numbers, [2, 5]);
    assert_eq!(store.repositories.rows[0].event_sequence, 9);
}

#[test]
fn an_operation_is_prepared_once_and_completed() {
    let (mut store, mut state) = two_items();
    state.event_sequence = 2;
    store
        .prepare_operation(state.id, "push", CommandId(60), "{\"a\":1}")
        .unwrap();
    store
        .prepare_operation(state.id, "push", CommandId(60), "{\"a\":1}")
        .unwrap();
    assert_eq!(
        store.prepare_operation(state.id, "push", CommandId(60), "{\"a\":2}"),
        Err(StoreError::CommandReplayMismatch)
    );
    assert!(matches!(
        store.prepare_operation(state.id, "push", CommandId(61), "{}"),
        Err(StoreError::Sql(_))
    ));
    let kinds = vec!["push".into()];
    let expected = read_json(b"{\"a\":1}").unwrap();
    assert_eq!(
        store.unfinished_operations(&kinds),
        Ok(vec![(
            CommandId(60),
            "push".into(),
            expected.duplicate(),
            IntentState::Prepared
        )])
    );
    store
        .record_remote_observation(state.id, CommandId(60), "{\"observed_remote_oid\":\"x\"}")
        .unwrap();
    let told = store.unfinished_operations(&kinds).unwrap();
    assert_eq!(
        told[0].2,
        read_json(b"{\"a\":1,\"observed_remote_oid\":\"x\"}").unwrap()
    );
    store.set_intent_state(CommandId(60), IntentState::NeedsAttention, "{}");
    assert_eq!(store.unfinished_operations(&kinds), Ok(Vec::new()));
    assert_eq!(
        store.recoverable_operations(&kinds),
        Ok(vec![(
            CommandId(60),
            "push".into(),
            expected,
            IntentState::NeedsAttention
        )])
    );
    let event = store
        .complete_operation(
            state,
            "push",
            CommandId(60),
            "push",
            "remote.pushed",
            "{}",
            Actor::App,
            notice(60),
            reply("r"),
        )
        .unwrap();
    assert_eq!(event.sequence, 3);
    assert_eq!(store.recoverable_operations(&kinds), Ok(Vec::new()));
}

#[test]
fn a_promotion_ends_the_time_in_the_queue() {
    let (mut store, mut state) = two_items();
    store
        .prepare_promotion(state.id, CommandId(70), "{}")
        .unwrap();
    assert!(store
        .prepare_promotion(state.id, CommandId(71), "{}")
        .is_err());
    assert_eq!(
        store.unfinished_promotion(),
        Some((CommandId(70), "{}".into(), IntentState::Prepared))
    );
    state.event_sequence = 3;
    state.queue_revision = 3;
    let mut item = item_of(&state, QueueItemId(1), 1, None);
    item.state = QueueItemState::Promoted;
    let certificate = certificate_of(&state, 5, 50, QueueItemId(1), 11);
    assert!(matches!(
        store.record_promotion(
            state.clone(),
            item.clone(),
            &certificate,
            &[1; 20],
            "{}",
            notice(70),
        ),
        Err(StoreError::Sql(_))
    ));
    store
        .insert_buildset(buildset_of(50, QueueItemId(1), 11, BuildsetState::Passed))
        .unwrap();
    store.insert_certificate(certificate.clone()).unwrap();
    assert_eq!(store.promotions.promoted_oid_bytes(&oid(2)), None);
    let event = store
        .record_promotion(
            state.clone(),
            item.clone(),
            &certificate,
            &[1; 20],
            "{}",
            notice(70),
        )
        .unwrap();
    assert_eq!(event.kind, "promotion.completed");
    assert_eq!(event.sequence, 3);
    assert_eq!(store.unfinished_promotion(), None);
    assert!(!store.items.rows[0].active);
    assert_eq!(
        store.promotions.promoted_oid_bytes(&oid(2)),
        Some(vec![2; 20])
    );
    assert_eq!(store.promotions.promotion_edges(), [0]);
    assert_eq!(store.promotions.rows[0].old_master, [1; 20]);
    // Promoted once more, the item has one row.
    state.event_sequence = 4;
    store
        .record_promotion(state, item, &certificate, &[9; 20], "{}", notice(71))
        .unwrap();
    assert_eq!(store.promotions.rows.len(), 1);
    assert_eq!(store.promotions.rows[0].old_master, [9; 20]);
}

#[test]
fn work_that_needs_attention_can_be_given_up() {
    let (mut store, state) = two_items();
    store
        .prepare_operation(state.id, "k", CommandId(80), "{}")
        .unwrap();
    store.cancel_attention_intent(CommandId(80), "{}");
    assert_eq!(store.unfinished_operations(&vec!["k".into()]).unwrap().len(), 1);
    store.set_intent_state(CommandId(80), IntentState::NeedsAttention, "{}");
    store.cancel_attention_intent(CommandId(80), "{}");
    assert_eq!(store.recoverable_operations(&vec!["k".into()]), Ok(Vec::new()));
}

fn artifact(id: &str, path: &str, size: u64) -> ArtifactRecord {
    ArtifactRecord {
        artifact_id: id.into(),
        buildset_id: BuildsetId(1),
        source_path: path.into(),
        retained_path: format!("/kept/{path}"),
        hash: "h".into(),
        size,
        retention_state: "retained".into(),
        created_at: Timestamp { unix_nanos: 0 },
        expires_at: Timestamp { unix_nanos: 100 },
    }
}

#[test]
fn artifacts_are_kept_pinned_and_pruned() {
    let (mut store, mut state) = two_items();
    state.event_sequence = 2;
    assert!(matches!(
        store.complete_artifact_retention(
            state.clone(),
            CommandId(90),
            vec![artifact("a", "a", 5), artifact("b", "b", u64::MAX)],
            "{}",
            notice(90),
        ),
        Err(StoreError::Sql(_))
    ));
    assert!(store.artifacts.rows.is_empty());
    store
        .insert_buildset(buildset_of(1, QueueItemId(1), 11, BuildsetState::Running))
        .unwrap();
    assert_eq!(
        store.complete_artifact_retention(
            state.clone(),
            CommandId(90),
            vec![artifact("a", "a", u64::MAX)],
            "{}",
            notice(90),
        ),
        Err(StoreError::ArtifactTooLarge(u64::MAX))
    );
    let event = store
        .complete_artifact_retention(
            state.clone(),
            CommandId(90),
            vec![artifact("a", "a", 5), artifact("b", "a", 6), artifact("c", "c", 7)],
            "{}",
            notice(90),
        )
        .unwrap();
    assert_eq!(event.kind, "artifact.published");
    assert_eq!(store.artifacts.rows.len(), 2);
    assert_eq!(store.artifacts.retained_artifact_bytes(), Some(12));
    state.event_sequence = 3;
    let change = |store: &mut RepositoryStore, id: &str, command: u128, sequence: u64| {
        let mut state = state.clone();
        state.event_sequence = sequence;
        store.complete_artifact_state_change(
            state,
            id,
            &vec!["retained".into()],
            "pinned",
            None,
            CommandId(command),
            "artifact-pin",
            "artifact.pinned",
            Actor::Ui,
            notice(command),
            reply("r"),
        )
    };
    change(&mut store, "a", 91, 3).unwrap();
    assert_eq!(
        change(&mut store, "a", 92, 4),
        Err(StoreError::Integrity(
            "artifact a was not in the expected retention state".into()
        ))
    );
    assert!(store.artifacts.artifact("a").is_some());
    assert!(store.artifacts.artifact("b").is_none());
    assert_eq!(
        store
            .artifacts
            .expired_artifacts(Timestamp { unix_nanos: 100 }),
        [1]
    );
}

#[test]
fn retained_artifacts_are_listed_by_place() {
    let (mut store, _) = two_items();
    store
        .insert_buildset(buildset_of(1, QueueItemId(1), 11, BuildsetState::Passed))
        .unwrap();
    let now = Timestamp { unix_nanos: 0 };
    for (id, place) in [("c", "/k/c"), ("a", "/k/a"), ("b", "/k/b")] {
        store
            .record_artifact(id, BuildsetId(1), "s", place, "h", 1, now)
            .unwrap();
    }
    assert_eq!(store.artifacts.retained_artifacts(), [1, 2, 0]);
    assert_eq!(
        store.artifacts.rows[0].expires_at.unix_nanos,
        30 * 86_400_000_000_000
    );
    store
        .artifacts
        .change_state("b", &vec!["retained".into()], "pruned");
    assert_eq!(store.artifacts.retained_artifacts(), [1, 0]);
    assert!(matches!(
        store.record_artifact("d", BuildsetId(1), "s", "/k/a", "h", 1, now),
        Err(StoreError::Sql(_))
    ));
    assert!(matches!(
        store.record_artifact("d", BuildsetId(2), "s", "/k/d", "h", 1, now),
        Err(StoreError::Sql(_))
    ));
    assert_eq!(
        store.record_artifact("d", BuildsetId(1), "s", "/k/d", "h", u64::MAX, now),
        Err(StoreError::ArtifactTooLarge(u64::MAX))
    );
}

fn buildset_of(id: u128, item: QueueItemId, generation: u128, state: BuildsetState) -> Buildset {
    Buildset {
        id: BuildsetId(id),
        item_id: item,
        validation_generation_id: ValidationGenerationId(generation),
        tested_oid: oid(2),
        expected_parent_oid: oid(1),
        environment_fingerprint: "e".into(),
        slot_id: None,
        state,
        retry_of: None,
        attempt: 1,
        created_at: Timestamp { unix_nanos: 0 },
        started_at: None,
        finished_at: None,
        frozen_steps: Vec::new(),
        step_results: Vec::new(),
    }
}

fn certificate_of(
    state: &RepositoryState,
    id: u128,
    buildset: u128,
    item: QueueItemId,
    generation: u128,
) -> PassCertificate {
    PassCertificate {
        id: CertificateId(id),
        buildset_id: BuildsetId(buildset),
        queue_item_id: item,
        validation_generation_id: ValidationGenerationId(generation),
        tested_oid: oid(2),
        tree_oid: oid(3),
        expected_parent_oid: oid(1),
        configuration_digest: "digest".into(),
        step_graph_digest: "steps".into(),
        engine_epoch: state.engine_epoch,
        environment_fingerprint: "e".into(),
        voting_results: Vec::new(),
        warnings: Vec::new(),
        checkout_verified: true,
        completed_event_sequence: 3,
        created_at: Timestamp { unix_nanos: 0 },
    }
}

#[test]
fn a_validation_is_built_once_at_a_time() {
    let (mut store, state) = two_items();
    let first = buildset_of(1, QueueItemId(1), 11, BuildsetState::Pending);
    store.insert_buildset(first.clone()).unwrap();
    assert!(store.insert_buildset(first.clone()).is_err());
    assert!(store
        .insert_buildset(buildset_of(2, QueueItemId(1), 11, BuildsetState::Running))
        .is_err());
    assert!(store
        .insert_buildset(buildset_of(2, QueueItemId(9), 11, BuildsetState::Failed))
        .is_err());
    assert!(store
        .insert_buildset(buildset_of(2, QueueItemId(1), 99, BuildsetState::Failed))
        .is_err());
    let mut retry = buildset_of(2, QueueItemId(1), 11, BuildsetState::Failed);
    retry.retry_of = Some(BuildsetId(7));
    assert!(store.insert_buildset(retry.clone()).is_err());
    retry.retry_of = Some(BuildsetId(1));
    store.insert_buildset(retry.clone()).unwrap();
    retry.state = BuildsetState::Running;
    assert!(matches!(
        store.update_buildset(retry.clone()),
        Err(StoreError::Sql(_))
    ));
    let mut done = first;
    done.state = BuildsetState::Interrupted;
    store.update_buildset(done).unwrap();
    store.update_buildset(retry).unwrap();
    store
        .update_buildset(buildset_of(8, QueueItemId(1), 11, BuildsetState::Failed))
        .unwrap();
    let listed: Vec<(u128, BuildsetState)> = store
        .buildsets()
        .iter()
        .map(|buildset| (buildset.id.0, buildset.state))
        .collect();
    assert_eq!(
        listed,
        [(2, BuildsetState::Running), (1, BuildsetState::Interrupted)]
    );
    let certificate = certificate_of(&state, 5, 1, QueueItemId(1), 11);
    store.insert_certificate(certificate.clone()).unwrap();
    assert!(store.insert_certificate(certificate).is_err());
    assert!(store
        .insert_certificate(certificate_of(&state, 6, 1, QueueItemId(1), 11))
        .is_err());
    assert!(store
        .insert_certificate(certificate_of(&state, 6, 9, QueueItemId(1), 11))
        .is_err());
    let earned: Vec<u128> = store.certificates().iter().map(|kept| kept.id.0).collect();
    assert_eq!(earned, [5]);
    let generations: Vec<u128> = store.generations().iter().map(|kept| kept.id.0).collect();
    assert_eq!(generations, [11, 12]);
}

fn attempt_of(step: u128, attempt: u128, name: &str, retry_number: u16) -> StepAttemptRecord {
    StepAttemptRecord {
        step_id: StepId(step),
        attempt_id: StepAttemptId(attempt),
        name: name.into(),
        frozen: "{}".into(),
        retry_number,
        result_class: "success".into(),
        result: "{}".into(),
        stdout_end: 5,
        stderr_end: 0,
        broker_sequence_end: 2,
        log_hash: "h".into(),
        log_path: "/log".into(),
    }
}

#[test]
fn logs_of_steps_are_kept_until_they_are_pruned() {
    let (mut store, _) = two_items();
    let build = BuildsetId(1);
    assert!(store
        .record_step_attempts(build, &vec![attempt_of(1, 1, "test", 0)])
        .is_err());
    store
        .insert_buildset(buildset_of(1, QueueItemId(1), 11, BuildsetState::Running))
        .unwrap();
    store
        .record_step_attempts(
            build,
            &vec![attempt_of(1, 1, "test", 0), attempt_of(1, 2, "test", 1)],
        )
        .unwrap();
    assert_eq!(store.attempts.steps.len(), 1);
    assert_eq!(store.attempts.attempts.len(), 2);
    assert_eq!(store.attempts.streams.len(), 4);
    let chunk = store.attempts.streams[0].chunk.as_ref().unwrap();
    assert_eq!((chunk.end_offset, chunk.broker_sequence_end), (5, 2));
    assert!(store.attempts.streams[1].chunk.is_none());
    assert_eq!(store.attempts.step_log_state(build, "test"), Some("sealed"));
    assert_eq!(store.attempts.step_log_state(build, "lint"), None);
    // Another step cannot take the name of one that has attempts.
    assert!(matches!(
        store.record_step_attempts(build, &vec![attempt_of(9, 3, "test", 0)]),
        Err(StoreError::Sql(_))
    ));
    let mut long = attempt_of(1, 3, "test", 2);
    long.stderr_end = u64::MAX;
    assert_eq!(
        store.record_step_attempts(build, &vec![attempt_of(1, 4, "test", 3), long.clone()]),
        Err(StoreError::Integrity(
            "log offset exceeds SQLite INTEGER range".into()
        ))
    );
    long.stderr_end = 0;
    long.broker_sequence_end = u64::MAX;
    assert_eq!(
        store.record_step_attempts(build, &vec![long]),
        Err(StoreError::Integrity(
            "broker sequence exceeds SQLite INTEGER range".into()
        ))
    );
    assert_eq!(store.attempts.attempts.len(), 2);
    store.attempts.mark_buildset_logs_pruned(BuildsetId(2));
    assert_eq!(store.attempts.step_log_state(build, "test"), Some("sealed"));
    store.attempts.mark_buildset_logs_pruned(build);
    assert_eq!(store.attempts.step_log_state(build, "test"), Some("pruned"));
}

#[test]
fn configurations_are_recorded_once() {
    let mut store = RepositoryStore::open_in_memory();
    let mut state = state_named("demo", "refs/heads/release", 1);
    store
        .initialize_repository_with_configuration(state.clone(), vec![1], "steps")
        .unwrap();
    assert!(matches!(
        store.initialize_repository_with_configuration(state.clone(), vec![1], "steps"),
        Err(StoreError::Sql(_))
    ));
    store.record_configuration_snapshot("digest", vec![9], "other");
    let kept = store
        .configurations
        .configuration_snapshot("digest")
        .unwrap();
    assert_eq!(kept.canonical_bytes, [1]);
    assert!(store.configurations.configuration_snapshot("x").is_none());
    store
        .prepare_operation(state.id, "config-apply", CommandId(5), "{}")
        .unwrap();
    state.active_configuration_digest = "next".into();
    store.stage_configuration(
        state.clone(),
        vec![2],
        "steps",
        "digest",
        CommandId(5),
        "request",
    );
    let next = store.configurations.configuration_snapshot("next").unwrap();
    assert_eq!(next.supersedes.as_deref(), Some("digest"));
    assert_eq!(
        store.repository_state().unwrap().active_configuration_digest,
        "next"
    );
    assert_eq!(store.intents.rows[0].state, IntentState::ExternalApplied);
    assert_eq!(
        store.intents.rows[0].observed.as_deref(),
        Some("{\"digest\":\"next\",\"request_digest\":\"request\"}")
    );
}

#[test]
fn a_backup_completes_its_operation() {
    let (mut store, state) = two_items();
    store
        .prepare_operation(state.id, "backup", CommandId(5), "{\"to\":1}")
        .unwrap();
    assert_eq!(
        store.operation_evidence(CommandId(5), "backup"),
        Ok(Some(Document::Table(vec![(
            "to".into(),
            Document::Integer(1)
        )])))
    );
    assert_eq!(store.operation_evidence(CommandId(5), "push"), Ok(None));
    assert_eq!(
        store.completed_operation_evidence("backup"),
        Ok(Vec::new())
    );
    store.complete_backup(CommandId(5), "/backup", "hash");
    store.record_backup("/other", "h");
    assert_eq!(store.backups.len(), 2);
    assert_eq!(store.backups[0].schema_version, SCHEMA_VERSION);
    assert_eq!(
        store.completed_operation_evidence("backup").unwrap().len(),
        1
    );
    let records = store.completed_operation_records("backup").unwrap();
    assert_eq!(
        records[0].1.text_field("path", None).as_deref(),
        Some("/backup")
    );
    store
        .prepare_operation(state.id, "odd", CommandId(6), "not JSON")
        .unwrap();
    assert!(matches!(
        store.operation_evidence(CommandId(6), "odd"),
        Err(StoreError::Json(_))
    ));
    assert_eq!(
        store.command_response_json(CommandId(1)),
        Ok(Some(Document::Table(vec![(
            "ok".into(),
            Document::Bool(true)
        )])))
    );
    assert_eq!(store.command_response_json(CommandId(99)), Ok(None));
}

#[test]
fn thresholds_are_read_back() {
    let mut store = RepositoryStore::open_in_memory();
    store
        .volumes
        .upsert_volume_state("v", Vec::new(), 5, 3, 1, 9)
        .unwrap();
    assert_eq!(store.volumes.volume_thresholds("v"), Ok(Some((5, 3))));
    assert_eq!(store.volumes.volume_thresholds("w"), Ok(None));
}

#[test]
fn seeds_are_listed_from_the_newest() {
    let mut store = RepositoryStore::open_in_memory();
    for generation in [2, 3, 1] {
        let mut record = seed("published");
        record.id = format!("seed-{generation}");
        record.generation = generation;
        store.seeds.record_seed(record).unwrap();
    }
    assert_eq!(store.seeds.seed_records(RepositoryId(1)), [1, 0, 2]);
    assert!(store.seeds.seed_records(RepositoryId(2)).is_empty());
    store.seeds.mark_seed_pruned("seed-2").unwrap();
    assert_eq!(store.seeds.rows[0].state, "pruned");
    assert!(store.seeds.mark_seed_pruned("seed-9").is_err());
}

fn seed(state: &str) -> SeedRecord {
    SeedRecord {
        id: "seed".into(),
        repository_id: RepositoryId(1),
        profile: "p".into(),
        generation: 1,
        path: "/seeds/1".into(),
        logical_size: 10,
        state: state.into(),
        manifest: Document::Table(vec![
            ("version".into(), Document::Integer(1)),
            (
                "entries".into(),
                Document::List(vec![Document::Null, Document::Bool(true)]),
            ),
        ]),
    }
}

#[test]
fn a_seed_is_published_and_pruned() {
    let (mut store, mut state) = two_items();
    state.event_sequence = 2;
    let event = store
        .complete_seed_publication(
            state.clone(),
            CommandId(100),
            seed("published"),
            Actor::App,
            "{}",
            notice(100),
            reply("r"),
        )
        .unwrap();
    assert_eq!(event.kind, "cache.seed-published");
    state.event_sequence = 3;
    let mut other = seed("published");
    other.logical_size = 11;
    assert_eq!(
        store.complete_seed_publication(
            state.clone(),
            CommandId(101),
            other.duplicate(),
            Actor::App,
            "{}",
            notice(101),
            reply("r"),
        ),
        Err(StoreError::Integrity(
            "seed seed conflicts with its recovery evidence".into()
        ))
    );
    assert_eq!(
        store.complete_cache_purge(
            state.clone(),
            CommandId(102),
            &vec![other],
            Actor::App,
            notice(102),
            reply("r"),
        ),
        Err(StoreError::Integrity(
            "seed seed differs from its pruning intent".into()
        ))
    );
    let event = store
        .complete_cache_purge(
            state,
            CommandId(102),
            &vec![seed("published")],
            Actor::App,
            notice(102),
            reply("r"),
        )
        .unwrap();
    assert_eq!(event.kind, "cache.purged");
    assert_eq!(store.seeds.rows[0].state, "pruned");
}

#[test]
fn a_manifest_is_summed_up() {
    assert_eq!(entry_count(&seed("p").manifest), 2);
    assert_eq!(entry_count(&Document::Null), 0);
    assert_eq!(
        manifest_hash(&Document::Null).unwrap(),
        blake3::hash(b"null").to_hex().to_string()
    );
    let mut reordered = seed("p");
    if let Document::Table(entries) = &mut reordered.manifest {
        entries.reverse();
    }
    assert!(reordered.says_same(&seed("p")));
}

#[test]
fn evidence_carries_what_was_seen_of_the_remote() {
    let observed = Document::Table(vec![(
        "observed_remote_oid".into(),
        Document::Text("x".into()),
    )]);
    let expected = Document::Table(vec![("a".into(), Document::Integer(1))]);
    assert_eq!(
        merged_evidence(expected, Some(&observed)),
        Document::Table(vec![
            ("a".into(), Document::Integer(1)),
            ("observed_remote_oid".into(), Document::Text("x".into())),
        ])
    );
    assert_eq!(
        merged_evidence(Document::Integer(3), None),
        Document::Integer(3)
    );
}

#[test]
fn answers_can_be_replaced() {
    let (mut store, state) = two_items();
    store
        .results
        .replace_command_response(CommandId(1), "approve", "request", "{}".into())
        .unwrap();
    assert_eq!(
        store.results.stored_command_response(CommandId(1)),
        Some("{}".into())
    );
    assert!(store
        .results
        .replace_command_response(CommandId(1), "approve", "other", "{}".into())
        .is_err());
    store
        .record_command_result(state.id, CommandId(110), "doctor", reply("r"))
        .unwrap();
    assert!(store.results.has_command_result(CommandId(110)));
    assert!(store
        .record_command_result(state.id, CommandId(110), "doctor", reply("r"))
        .is_err());
}

#[test]
fn old_databases_are_migrated_after_a_backup() {
    assert!(migration_allowance(Some(1), 0) >= 512 * 1024 * 1024);
    assert_eq!(migration_allowance(Some(SCHEMA_VERSION), 0), 0);
    assert!(backup_name(1, "token", true).starts_with("migration-v1-"));
    assert!(migration_name(1).contains('1'));
    assert!(matches!(
        migrate(3, true),
        Err(StoreError::SchemaTooNew {
            actual: 3,
            supported: 2
        })
    ));
}

#[test]
fn migrates_an_unversioned_legacy_database_instead_of_stamping_it_fresh() {
    assert_eq!(migrate(0, true), Ok(MigrationPlan::Upgrade { from: 1 }));
    assert_eq!(migrate(0, false), Ok(MigrationPlan::Create));
    assert_eq!(migrate(SCHEMA_VERSION, true), Ok(MigrationPlan::Refresh));
    let missing = missing_columns(1, &vec!["artifact_id".into()]);
    assert!(missing.created_at);
    assert!(missing.expires_at);
}

#[test]
fn the_database_must_be_recent() {
    assert!(verify_sqlite_version("3.51.3").is_ok());
    assert!(verify_sqlite_version("4.0").is_ok());
    assert_eq!(
        verify_sqlite_version("3.51.2"),
        Err(StoreError::SqliteTooOld {
            actual: "3.51.2".into()
        })
    );
    assert!(check_integrity("ok", "quick check").is_ok());
    assert!(check_integrity("row missing", "quick check").is_err());
}

#[test]
fn numbers_fit_into_the_database_or_are_refused() {
    assert_eq!(to_sqlite(5, "x"), Ok(5));
    assert_eq!(
        to_sqlite(u64::MAX, "too much"),
        Err(StoreError::Integrity("too much".into()))
    );
    assert_eq!(from_sqlite(-1, "negative"), Err(StoreError::Integrity("negative".into())));
    assert_eq!(
        artifact_size(u64::MAX),
        Err(StoreError::ArtifactTooLarge(u64::MAX))
    );
}

#[test]
fn instants_survive_the_store() {
    let instant = Timestamp {
        unix_nanos: -1_234_567_890_123_456_789,
    };
    assert_eq!(encode_time(instant), "-1234567890123456789");
    assert_eq!(decode_time("-1234567890123456789"), Ok(instant));
    assert!(decode_time("soon").is_err());
    assert!(decode_time("999999999999999999999999999999").is_err());
}

#[test]
fn store_errors_are_worded() {
    assert_eq!(
        StoreError::RevisionConflict {
            expected: 1,
            actual: 2
        }
        .message(),
        "queue revision conflict: expected 1, actual 2"
    );
    assert_eq!(
        StoreError::SchemaTooNew {
            actual: 3,
            supported: 2
        }
        .message(),
        "database schema version 3 is newer than this Tollgate supports (2)"
    );
    assert_eq!(IntentState::parse("needs-attention"), Some(IntentState::NeedsAttention));
    assert_eq!(IntentState::parse("lost"), None);
}

#[test]
fn requests_to_approve_are_read_back() {
    let mut store = RepositoryStore::open_in_memory();
    let state = state_named("demo", "refs/heads/release", 1);
    store.initialize_repository(state.clone());
    store
        .prepare_approval(state.id, noted_item(), CommandId(1), "request")
        .unwrap();
    let expected = format!("{{\"item\":{NOTED},\"request_digest\":\"request\"}}");
    assert_eq!(store.intents.rows[0].expected, expected);
    assert_eq!(
        read_approval(&expected),
        Ok((noted_item(), "request".to_string()))
    );
    // An item that was kept alone is told by its own digest.
    let digest = blake3::hash(NOTED.as_bytes()).to_hex().to_string();
    assert_eq!(read_approval(NOTED), Ok((noted_item(), digest.clone())));
    // It is that of the item as it would be written now.
    let older = NOTED
        .replace("\"admission_sequence\":null,", "")
        .replace("\"kind\":\"gate\",", "")
        .replace("\"cleanup_policy\":\"automatic\",", "\"weight\":0.5,")
        .replace("\"promotion_authorized\":false,", "")
        .replace(",\"certificate_id\":null}", "}")
        .replace("\"queued\"", "{\"queued\":null}")
        .replace("[2024,60,12,30,0,5,1,30,0]", "[2024,60,12,30,0,5,1,-30,0]");
    assert_ne!(older, NOTED);
    assert_eq!(read_approval(&older), Ok((noted_item(), digest)));
    for spoiled in [
        NOTED.replace("\"queued\"", "\"lost\""),
        NOTED.replace("\"kind\":\"gate\"", "\"kind\":null"),
        NOTED.replace("\"enqueue_sequence\":1", "\"enqueue_sequence\":-1"),
        NOTED.replace("\"sha1\"", "\"md5\""),
        NOTED.replace("[2024,60,", "[2023,366,"),
        NOTED.replace("000000000004\"]", "000000000004\",5]"),
        NOTED.replace("\"source_ref\":\"refs/tollgate/sources/5\",", ""),
        NOTED.replace("\"metadata\"", "\"meta\""),
    ] {
        assert_ne!(spoiled, NOTED);
        assert!(matches!(read_approval(&spoiled), Err(StoreError::Json(_))));
    }
    let omitted = Err(StoreError::Integrity(
        "approval intent omitted request digest".into(),
    ));
    assert_eq!(read_approval(&format!("{{\"item\":{NOTED}}}")), omitted);
    assert_eq!(
        read_approval(&format!("{{\"item\":{NOTED},\"request_digest\":5}}")),
        omitted
    );
    assert!(matches!(
        read_approval("{\"item\":{}}"),
        Err(StoreError::Json(_))
    ));
    assert!(matches!(read_approval("{"), Err(StoreError::Json(_))));
}

#[test]
fn approvals_of_an_earlier_version_are_taken_up() {
    let mut store = RepositoryStore::open_in_memory();
    let state = state_named("demo", "refs/heads/release", 1);
    store.initialize_repository(state.clone());
    let row = |command: u128, expected: &str| IntentRow {
        repository_id: state.id,
        kind: "approval".into(),
        state: IntentState::Prepared,
        command_id: CommandId(command),
        expected: expected.into(),
        observed: None,
    };
    store.intents.rows.push(row(1, NOTED));
    let wrapped = format!("{{\"item\":{NOTED},\"request_digest\":\"d\"}}");
    store.intents.rows.push(row(2, &wrapped));
    let waiting = store.unfinished_approvals().unwrap();
    assert_eq!(waiting.len(), 2);
    assert_eq!(waiting[0].0, CommandId(1));
    assert_eq!(waiting[0].1, noted_item());
    assert_eq!(
        waiting[0].2,
        blake3::hash(NOTED.as_bytes()).to_hex().to_string()
    );
    assert_eq!(
        waiting[1],
        (CommandId(2), noted_item(), "d".to_string())
    );
    store
        .intents
        .rows
        .push(row(3, &format!("{{\"item\":{NOTED}}}")));
    assert!(matches!(
        store.unfinished_approvals(),
        Err(StoreError::Integrity(_))
    ));
    store.intents.rows[2].expected = "{\"item\":5}".into();
    assert!(matches!(
        store.unfinished_approvals(),
        Err(StoreError::Json(_))
    ));
    // The same request may be sent again once it has been canceled, and no other.
    store.intents.rows[1].state = IntentState::Canceled;
    assert_eq!(
        store.prepare_approval(state.id, noted_item(), CommandId(2), "other"),
        Err(StoreError::CommandReplayMismatch)
    );
    assert_eq!(
        store.prepare_approval(state.id, noted_item(), CommandId(2), "d"),
        Ok(())
    );
    store.intents.rows.push(row(4, "no JSON"));
    assert!(matches!(
        store.prepare_approval(state.id, noted_item(), CommandId(4), "d"),
        Err(StoreError::Json(_))
    ));
}

#[test]
fn backups_are_told_by_their_contents() {
    let mut contents = ContentDigest::new();
    contents.update(b"SQLite");
    let digest = blake3::hash(b"SQLite").to_hex().to_string();
    assert_eq!(
        RepositoryStore::verified_backup_hash("ok", &contents),
        Ok(digest.clone())
    );
    assert_eq!(
        RepositoryStore::verified_backup_hash("page 3", &contents),
        Err(StoreError::Integrity(
            "backup integrity check failed: page 3".into()
        ))
    );
    assert_eq!(
        RepositoryStore::create_migration_backup(1, "/backup", "page 3", &contents),
        Err(StoreError::Integrity(
            "migration backup integrity check failed: page 3".into()
        ))
    );
    let row = RepositoryStore::create_migration_backup(1, "/backup", "ok", &contents).unwrap();
    assert_eq!(row.schema_version, 1);
    assert_eq!(row.path, "/backup");
    assert_eq!(row.hash, digest);
    assert_eq!(row.migration, Some(migration_name(1)));
}

#[test]
fn migration_creates_and_verifies_an_online_backup_before_schema_change() {
    let connection = rusqlite::Connection::open_in_memory().unwrap();
    connection
        .execute_batch("CREATE TABLE repository_state (repository_id TEXT PRIMARY KEY); CREATE TABLE artifacts (artifact_id TEXT PRIMARY KEY, buildset_id TEXT NOT NULL, step_id TEXT, source_path TEXT NOT NULL, retained_path TEXT NOT NULL, hash TEXT NOT NULL, size INTEGER NOT NULL, retention_state TEXT NOT NULL) STRICT;")
        .unwrap();
    connection.pragma_update(None, "user_version", 1).unwrap();
    let version: i64 = connection
        .query_row("PRAGMA user_version", [], |row| row.get(0))
        .unwrap();
    assert!(migration_allowance(Some(version), 4096) >= 512 * 1024 * 1024);
    assert_eq!(
        migrate(version, true),
        Ok(MigrationPlan::Upgrade { from: 1 })
    );

    let mut output = rusqlite::Connection::open_in_memory().unwrap();
    let backup = rusqlite::backup::Backup::new(&connection, &mut output).unwrap();
    backup
        .run_to_completion(128, std::time::Duration::from_millis(10), None)
        .unwrap();
    drop(backup);
    let integrity: String = output
        .query_row("PRAGMA integrity_check", [], |row| row.get(0))
        .unwrap();
    assert_eq!(integrity, "ok");
    let name = backup_name(version, "token", true);
    assert!(name.starts_with("migration-v1-"));
    let contents = ContentDigest::new();
    let row =
        RepositoryStore::create_migration_backup(version, &name, &integrity, &contents).unwrap();
    assert_eq!(row.path, name);
    assert_eq!(row.hash, contents.finish());

    let columns: Vec<String> = connection
        .prepare("PRAGMA table_info(artifacts)")
        .unwrap()
        .query_map([], |row| row.get::<_, String>(1))
        .unwrap()
        .collect::<Result<Vec<_>, _>>()
        .unwrap();
    let missing = missing_columns(version, &columns);
    assert!(missing.created_at && missing.expires_at);
    assert_eq!(migration_allowance(Some(SCHEMA_VERSION), 4096), 0);
    let store = RepositoryStore::open_in_memory();
    assert!(store.artifacts.rows.is_empty());
    assert!(store.fits_together());
}

#[test]
fn rows_that_do_not_fit_together_are_noticed() {
    let (mut store, state) = two_items();
    assert!(store.fits_together());
    let number = store.items.rows[1].number;
    store.items.rows[1].number = store.items.rows[0].number;
    assert!(!store.fits_together());
    store.items.rows[1].number = number;
    assert!(store.fits_together());
    store.generations.rows[1].generation.item_id = QueueItemId(1);
    assert!(!store.fits_together());
    store.generations.rows[1].current = false;
    assert!(store.fits_together());
    store.repositories.rows[0].event_sequence = u64::MAX;
    assert!(!store.fits_together());
    store.repositories.rows[0].event_sequence = 2;
    store.events.rows[1].sequence = store.events.rows[0].sequence;
    assert!(!store.fits_together());
    store.events.rows[1].sequence = 2;
    assert!(store.fits_together());
    let volume = |name: &str| VolumeRow {
        volume_id: name.into(),
        roles: Vec::new(),
        warning_threshold: 1,
        critical_threshold: 1,
        emergency_allowance: 1,
        observed_free: 1,
    };
    store.volumes.volumes.push(volume("a"));
    store.volumes.volumes.push(volume("b"));
    assert!(store.fits_together());
    store.volumes.volumes.push(volume("a"));
    assert!(!store.fits_together());
    store.volumes.volumes.pop();
    store.volumes.reservations.push(ReservationRow {
        command_id: CommandId(1),
        volume_id: "a".into(),
        allowance: -1,
        active: true,
    });
    assert!(!store.fits_together());
    store.volumes.reservations.clear();
    let row = store.results.rows[0].clone();
    store.results.rows.push(row);
    assert!(!store.fits_together());
    store.results.rows.pop();
    let row = store.repositories.rows[0].clone();
    assert_eq!(row.state.id, state.id);
    store.repositories.rows.push(row);
    assert!(!store.fits_together());
}

#[test]
fn operations_are_told_with_their_evidence() {
    let mut store = RepositoryStore::open_in_memory();
    let state = state_named("demo", "refs/heads/release", 1);
    store.initialize_repository(state.clone());
    let row = |command: u128, kind: &str, expected: &str, observed: Option<&str>| IntentRow {
        repository_id: state.id,
        kind: kind.into(),
        state: IntentState::Prepared,
        command_id: CommandId(command),
        expected: expected.into(),
        observed: observed.map(String::from),
    };
    let seen = Some("{\"observed_remote_oid\":7}");
    store.intents.rows.push(row(1, "push", "{\"observed_remote_oid\":1,\"b\":2}", seen));
    store.intents.rows.push(row(2, "other", "no JSON", None));
    store.intents.rows.push(row(3, "fetch", "null", seen));
    store.intents.rows.push(row(4, "push", "5", Some("[]")));
    let kinds = vec!["fetch".into(), "push".into()];
    let told = store.unfinished_operations(&kinds).unwrap();
    let told: Vec<(u128, &str, String)> = told
        .iter()
        .map(|(command, kind, evidence, _)| {
            let notation = tollgate::json::to_json(evidence).unwrap();
            (command.0, kind.as_str(), String::from_utf8(notation).unwrap())
        })
        .collect();
    assert_eq!(
        told,
        [
            (1, "push", "{\"observed_remote_oid\":7,\"b\":2}".to_string()),
            (3, "fetch", "{\"observed_remote_oid\":7}".to_string()),
            (4, "push", "5".to_string()),
        ]
    );
    // What was seen of the remote has no place in a number.
    store.intents.rows.push(row(5, "push", "5", seen));
    assert_eq!(
        store.unfinished_operations(&kinds),
        Err(StoreError::Integrity("operation evidence is not a record".into()))
    );
    store.intents.rows[3].observed = Some("{".into());
    assert!(matches!(
        store.recoverable_operations(&kinds),
        Err(StoreError::Json(_))
    ));
    assert!(matches!(
        store.recoverable_operations(&vec!["other".into()]),
        Err(StoreError::Json(_))
    ));
}

#[test]
fn a_reservation_is_its_commands_own() {
    let (mut store, state) = two_items();
    store
        .volumes
        .upsert_volume_state("a", vec!["git".into()], 750, 500, 50, 3_000)
        .unwrap();
    for n in [80, 81] {
        store
            .prepare_operation(state.id, &format!("k{n}"), CommandId(n), "{}")
            .unwrap();
    }
    store.reserve_volume(CommandId(80), "a", 300).unwrap();
    store.reserve_volume(CommandId(81), "a", 200).unwrap();
    assert_eq!(store.volumes.active_volume_reservation("a"), 500);
    // A command that asks again changes its own reservation, and no other.
    store.reserve_volume(CommandId(80), "a", 350).unwrap();
    let held: Vec<(u128, String, i64)> = store
        .volumes
        .reservations
        .iter()
        .map(|row| (row.command_id.0, row.volume_id.clone(), row.allowance))
        .collect();
    assert_eq!(held, [(80, "a".to_string(), 350), (81, "a".to_string(), 200)]);
}

#[test]
fn expired_artifacts_are_listed_by_place() {
    let (mut store, _) = two_items();
    store
        .insert_buildset(buildset_of(1, QueueItemId(1), 11, BuildsetState::Passed))
        .unwrap();
    let now = Timestamp { unix_nanos: 0 };
    for (id, place) in [("b", "/k/b"), ("a", "/k/a"), ("x", "/k//aa"), ("y", "/k/a/z")] {
        store
            .record_artifact(id, BuildsetId(1), "s", place, "h", 1, now)
            .unwrap();
    }
    let end = store.artifacts.rows[0].expires_at;
    assert_eq!(store.artifacts.expired_artifacts(end), [2, 1, 3, 0]);
    assert!(store.artifacts.expired_artifacts(now).is_empty());
}
