use tollgate::error::DomainError;
use tollgate::ids::{
    BuildsetId, CertificateId, QueueItemId, RepositoryId, ValidationGenerationId,
};
use tollgate::model::{
    PassCertificate, QueueItem, QueueItemKind, SignatureState, SourceMetadata, Timestamp,
    ValidationGeneration,
};
use tollgate::oid::{GitOid, ObjectFormat};
use tollgate::queue::DependentQueue;
use tollgate::state::{
    BuildsetEvent, BuildsetState, CleanupPolicy, CleanupState, ItemEvent, QueueItemState,
    RemoteState, RepositoryExecutionState,
};

#[test]
fn item_states_use_their_wire_names_for_display() {
    assert_eq!(QueueItemState::MergeConflict.as_str(), "merge-conflict");
    assert_eq!(
        QueueItemState::PromotedLocalPushPending.as_str(),
        "promoted-local-push-pending"
    );
}

#[test]
fn ordinary_item_path_is_explicit() {
    let state = QueueItemState::Constructing
        .transition(ItemEvent::GenerationPrepared)
        .unwrap()
        .transition(ItemEvent::PreparationStarted)
        .unwrap()
        .transition(ItemEvent::WorkerStarted)
        .unwrap()
        .transition(ItemEvent::BuildPassed)
        .unwrap()
        .transition(ItemEvent::PromotionStarted)
        .unwrap()
        .transition(ItemEvent::PromotedWithoutPush)
        .unwrap();
    assert_eq!(state, QueueItemState::Promoted);
}

#[test]
fn terminal_states_never_reopen() {
    for state in [
        QueueItemState::Promoted,
        QueueItemState::Failed,
        QueueItemState::Canceled,
        QueueItemState::MergeConflict,
    ] {
        assert!(state.transition(ItemEvent::InputsChanged).is_err());
    }
}

#[test]
fn refused_transitions_name_the_state_and_the_event() {
    let error = QueueItemState::Failed
        .transition(ItemEvent::BuildPassed)
        .unwrap_err();
    assert_eq!(
        error.message(),
        "transition from queue item state Failed on BuildPassed is not allowed"
    );
    let error = BuildsetState::Failed
        .transition(BuildsetEvent::Invalidated)
        .unwrap_err();
    assert_eq!(
        error.message(),
        "transition from buildset state Failed on Invalidated is not allowed"
    );
    assert_eq!(
        BuildsetState::Passed.transition(BuildsetEvent::Invalidated),
        Ok(BuildsetState::Invalidated)
    );
    assert_eq!(
        BuildsetState::Pending.transition(BuildsetEvent::Canceled),
        Ok(BuildsetState::Canceled)
    );
    assert!(BuildsetState::PassedWithWarnings.is_terminal());
    assert!(!BuildsetState::Running.is_terminal());
}

#[test]
fn object_ids_read_and_write_hexadecimal() {
    let text = "0123456789abcdef0123456789ABCDEF01234567";
    let oid = GitOid::from_hex(text).unwrap();
    assert_eq!(oid.format, ObjectFormat::Sha1);
    assert_eq!(oid.to_hex(), text.to_lowercase());
    assert_eq!(oid.short(), "0123456789");
    assert_eq!(oid.as_bytes().len(), ObjectFormat::Sha1.byte_len());
    assert_eq!(GitOid::from_hex(&oid.to_hex()).unwrap(), oid);
    let long = GitOid::from_hex(&"ab".repeat(32)).unwrap();
    assert_eq!(long.format, ObjectFormat::Sha256);
    assert_eq!(
        GitOid::from_hex("abc"),
        Err(DomainError::InvalidOidLength {
            expected: 40,
            actual: 3
        })
    );
    assert_eq!(
        GitOid::from_hex(&"zz".repeat(20)),
        Err(DomainError::InvalidOid("zz".repeat(20)))
    );
    assert_eq!(
        GitOid::new(ObjectFormat::Sha256, vec![0; 20]),
        Err(DomainError::InvalidOidLength {
            expected: 32,
            actual: 20
        })
    );
    assert_eq!(
        DomainError::InvalidOidLength {
            expected: 40,
            actual: 3
        }
        .message(),
        "invalid object id length: expected 40 bytes/characters, got 3"
    );
}

#[test]
fn identifiers_read_what_they_write() {
    let id = QueueItemId(0x0190_0000_0000_7000_8000_0000_0000_0001);
    assert_eq!(id.to_text(), "01900000-0000-7000-8000-000000000001");
    assert_eq!(QueueItemId::parse(&id.to_text()), Some(id));
    assert_eq!(QueueItemId::parse("nonsense"), None);
}

fn oid(byte: u8) -> GitOid {
    GitOid::new(ObjectFormat::Sha1, vec![byte; 20]).unwrap()
}

fn item(id: u128, source: u8, dependencies: &[u128]) -> QueueItem {
    QueueItem {
        id: QueueItemId(id),
        repository_id: RepositoryId(1),
        kind: QueueItemKind::Gate,
        admission_sequence: Some(1),
        enqueue_sequence: 1,
        source_oid: oid(source),
        source_ref: "refs/tollgate/sources/x".to_string(),
        metadata: SourceMetadata {
            subject: "candidate".to_string(),
            message_hash: "message".to_string(),
            author_name: "Tollgate Test".to_string(),
            author_email: "test@example.com".to_string(),
            branch: None,
            worktree_path: None,
            signature_state: SignatureState::Unknown,
            approved_at: Timestamp { unix_nanos: 0 },
            purpose: None,
        },
        state: QueueItemState::Queued,
        terminal_reason: None,
        remote_state: RemoteState::Disabled,
        cleanup_state: CleanupState::NotEligible,
        cleanup_policy: CleanupPolicy::default(),
        dependencies: dependencies.iter().map(|d| QueueItemId(*d)).collect(),
        promotion_authorized: false,
        promotion_authorized_at: None,
        promotion_authorized_by: None,
        current_generation_id: None,
        buildset_id: None,
        certificate_id: None,
    }
}

fn ids(values: &[u128]) -> Vec<QueueItemId> {
    values.iter().map(|v| QueueItemId(*v)).collect()
}

fn queue() -> DependentQueue {
    let mut queue = DependentQueue::new();
    queue.enqueue(item(1, 1, &[]), 0).unwrap();
    queue.enqueue(item(2, 2, &[1]), 1).unwrap();
    queue.enqueue(item(3, 3, &[]), 2).unwrap();
    queue.enqueue(item(4, 4, &[2]), 3).unwrap();
    queue
}

#[test]
fn enqueueing_guards_revision_source_and_dependencies() {
    let mut queue = queue();
    assert_eq!(queue.revision, 4);
    let before = queue.clone();
    assert_eq!(
        queue.enqueue(item(9, 9, &[]), 3),
        Err(DomainError::RevisionConflict {
            expected: 3,
            actual: 4
        })
    );
    assert_eq!(
        queue.enqueue(item(9, 2, &[]), 4),
        Err(DomainError::DuplicateSource(QueueItemId(2)))
    );
    assert_eq!(
        queue.enqueue(item(9, 9, &[7]), 4),
        Err(DomainError::DependencyOrder)
    );
    assert_eq!(queue, before);
    let mutation = queue.enqueue(item(9, 9, &[3]), 4).unwrap();
    assert_eq!((mutation.old_revision, mutation.new_revision), (4, 5));
    assert!(mutation.invalidated.is_empty() && mutation.removed.is_empty());
}

#[test]
fn canceling_takes_dependents_along_and_invalidates_the_rest_behind() {
    let mut queue = queue();
    let mutation = queue.cancel(QueueItemId(1), 4).unwrap();
    assert_eq!(mutation.removed, ids(&[1, 2, 4]));
    assert_eq!(mutation.invalidated, ids(&[3]));
    assert_eq!(queue.revision, 5);
    assert_eq!(queue.items.len(), 4);
    assert_eq!(
        queue.cancel(QueueItemId(42), 5),
        Err(DomainError::ItemNotFound(QueueItemId(42)))
    );
    let mutation = queue.cancel(QueueItemId(3), 5).unwrap();
    assert_eq!(mutation.removed, ids(&[3]));
    assert_eq!(mutation.invalidated, ids(&[4]));
}

#[test]
fn reordering_keeps_dependencies_in_order() {
    let mut queue = queue();
    let mut done = item(5, 5, &[]);
    done.state = QueueItemState::Failed;
    queue.items.insert(0, done);
    assert_eq!(
        queue.reorder(&ids(&[1, 2, 3]), 4),
        Err(DomainError::InvalidInput(
            "reorder must include every active queue item exactly once".to_string()
        ))
    );
    assert_eq!(
        queue.reorder(&ids(&[2, 1, 3, 4]), 4),
        Err(DomainError::DependencyOrder)
    );
    assert_eq!(queue.revision, 4);
    let mutation = queue.reorder(&ids(&[1, 3, 2, 4]), 4).unwrap();
    assert_eq!(mutation.invalidated, ids(&[3, 2, 4]));
    let order = queue.items.iter().map(|item| item.id).collect::<Vec<_>>();
    assert_eq!(order, ids(&[1, 3, 2, 4, 5]));
    let mutation = queue.reorder(&ids(&[1, 3, 2, 4]), 5).unwrap();
    assert!(mutation.invalidated.is_empty());
}

#[test]
fn removal_affects_the_active_items_behind() {
    let queue = queue();
    assert_eq!(queue.affected_prefix_after_removal(&oid(2)), ids(&[3, 4]));
    assert!(queue.affected_prefix_after_removal(&oid(77)).is_empty());
    assert_eq!(queue.active_items().len(), 4);
}

fn generation(epoch: u64) -> ValidationGeneration {
    ValidationGeneration::derive(
        ValidationGenerationId(7),
        QueueItemId(1),
        oid(1),
        ids(&[1]),
        vec![oid(2)],
        vec![oid(3)],
        oid(1),
        oid(3),
        "config".to_string(),
        "graph".to_string(),
        epoch,
    )
}

#[test]
fn a_generation_is_identified_by_its_inputs() {
    let mut input = Vec::new();
    input.extend_from_slice(&[1u8; 20]);
    input.extend_from_slice(&1u128.to_be_bytes());
    input.extend_from_slice(&[2u8; 20]);
    input.extend_from_slice(&[3u8; 20]);
    input.extend_from_slice(b"configgraph");
    input.extend_from_slice(&5u64.to_be_bytes());
    assert_eq!(
        generation(5).identity_digest,
        blake3::hash(&input).to_hex().to_string()
    );
    assert_ne!(generation(5).identity_digest, generation(6).identity_digest);
}

#[test]
fn a_certificate_lapses_when_its_inputs_change() {
    let mut item = item(1, 2, &[]);
    item.current_generation_id = Some(ValidationGenerationId(7));
    let generation = generation(5);
    let certificate = PassCertificate {
        id: CertificateId(1),
        buildset_id: BuildsetId(1),
        queue_item_id: QueueItemId(1),
        validation_generation_id: ValidationGenerationId(7),
        tested_oid: oid(3),
        tree_oid: oid(9),
        expected_parent_oid: oid(1),
        configuration_digest: "config".to_string(),
        step_graph_digest: "graph".to_string(),
        engine_epoch: 5,
        environment_fingerprint: "env".to_string(),
        voting_results: Vec::new(),
        warnings: Vec::new(),
        checkout_verified: true,
        completed_event_sequence: 1,
        created_at: Timestamp { unix_nanos: 0 },
    };
    assert!(certificate.validates(&item, &generation, &oid(1), "config", "graph", 5));
    assert!(!certificate.validates(&item, &generation, &oid(2), "config", "graph", 5));
    assert!(!certificate.validates(&item, &generation, &oid(1), "other", "graph", 5));
    assert!(!certificate.validates(&item, &generation, &oid(1), "config", "other", 5));
    assert!(!certificate.validates(&item, &generation, &oid(1), "config", "graph", 6));
    item.current_generation_id = None;
    assert!(!certificate.validates(&item, &generation, &oid(1), "config", "graph", 5));
}

#[test]
fn domain_errors_have_messages() {
    let id = QueueItemId(1);
    let uuid = "00000000-0000-0000-0000-000000000001";
    assert_eq!(
        DomainError::ItemNotFound(id).message(),
        format!("queue item {uuid} was not found")
    );
    assert_eq!(
        DomainError::DuplicateSource(id).message(),
        format!("source object is already active as queue item {uuid}")
    );
    assert_eq!(
        DomainError::RevisionConflict {
            expected: 3,
            actual: 12
        }
        .message(),
        "queue revision conflict: expected 3, current revision is 12"
    );
    assert_eq!(
        DomainError::RepositoryUnavailable(RepositoryExecutionState::Paused).message(),
        "repository is Paused; this operation requires an active repository"
    );
    assert_eq!(
        DomainError::NotQueueHead.message(),
        "promotion requires the current queue head"
    );
}
