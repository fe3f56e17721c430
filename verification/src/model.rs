//! The records that make up a repository's queue and its evidence.

use crate::endian::to_be;
#[allow(unused_imports)]
use crate::endian::be_bytes;
use crate::ids::{
    BuildsetId, CertificateId, QueueItemId, RepositoryId, SlotId, StepAttemptId, StepId,
    ValidationGenerationId,
};
use crate::oid::GitOid;
#[allow(unused_imports)]
use crate::oid::GitOidView;
#[allow(unused_imports)]
use crate::outside::blake3_hex;
use crate::outside::hash_hex;
use crate::state::{
    BuildsetState, CleanupPolicy, CleanupState, QueueItemState, RemoteState,
    RepositoryExecutionState,
};
use crate::text::{push_bytes, str_equal};
use vstd::prelude::*;
#[allow(unused_imports)]
use vstd::utf8::encode_utf8;

verus! {

/// A point in time, in nanoseconds since the Unix epoch.
#[derive(Clone, Copy, Debug, PartialEq, Eq, PartialOrd, Ord, Hash, Structural)]
pub struct Timestamp {
    pub unix_nanos: i128,
}

/// Whether an item is meant for promotion or only for validation.
#[derive(Clone, Copy, Debug, PartialEq, Eq, Structural)]
pub enum QueueItemKind {
    Gate,
    IndependentCheck,
}

impl Default for QueueItemKind {
    fn default() -> (r: QueueItemKind)
        ensures
            r == QueueItemKind::Gate,
    {
        QueueItemKind::Gate
    }
}

/// What is known of a repository.
#[derive(Clone, Debug, PartialEq, Eq)]
pub struct RepositoryState {
    pub id: RepositoryId,
    pub name: String,
    pub path: String,
    pub integration_ref: String,
    pub master_oid: GitOid,
    pub queue_revision: u64,
    pub event_sequence: u64,
    pub engine_epoch: u64,
    pub execution_state: RepositoryExecutionState,
    pub block_reasons: Vec<BlockReason>,
    pub active_configuration_digest: String,
    pub active_window: u16,
    pub active_window_floor: u16,
    pub active_window_ceiling: u16,
    pub remote_enabled: bool,
}

/// Why a repository is blocked, and the way out.
#[derive(Clone, Debug, PartialEq, Eq)]
pub struct BlockReason {
    pub code: String,
    pub message: String,
    pub recovery_action: String,
}

/// What is known of a source commit.
#[derive(Clone, Debug, PartialEq, Eq)]
pub struct SourceMetadata {
    pub subject: String,
    pub message_hash: String,
    pub author_name: String,
    pub author_email: String,
    pub branch: Option<String>,
    pub worktree_path: Option<String>,
    pub signature_state: SignatureState,
    pub approved_at: Timestamp,
    pub purpose: Option<String>,
}

/// What is known of a commit's signature.
#[derive(Clone, Copy, Debug, PartialEq, Eq, Structural)]
pub enum SignatureState {
    Verified,
    Invalid,
    Unknown,
    Unsigned,
}

/// An entry of the queue.
#[derive(Clone, Debug, PartialEq, Eq)]
pub struct QueueItem {
    pub id: QueueItemId,
    pub repository_id: RepositoryId,
    pub kind: QueueItemKind,
    pub admission_sequence: Option<u64>,
    pub enqueue_sequence: u64,
    pub source_oid: GitOid,
    pub source_ref: String,
    pub metadata: SourceMetadata,
    pub state: QueueItemState,
    pub terminal_reason: Option<String>,
    pub remote_state: RemoteState,
    pub cleanup_state: CleanupState,
    pub cleanup_policy: CleanupPolicy,
    pub dependencies: Vec<QueueItemId>,
    pub promotion_authorized: bool,
    pub promotion_authorized_at: Option<Timestamp>,
    pub promotion_authorized_by: Option<String>,
    pub current_generation_id: Option<ValidationGenerationId>,
    pub buildset_id: Option<BuildsetId>,
    pub certificate_id: Option<CertificateId>,
}

/// What one validation of an item was derived from.
#[derive(Clone, Debug, PartialEq, Eq)]
pub struct ValidationGeneration {
    pub id: ValidationGenerationId,
    pub item_id: QueueItemId,
    pub anchored_base_oid: GitOid,
    pub ordered_item_ids: Vec<QueueItemId>,
    pub ordered_source_oids: Vec<GitOid>,
    pub prefix_oids: Vec<GitOid>,
    pub expected_parent_oid: GitOid,
    pub tested_oid: GitOid,
    pub configuration_digest: String,
    pub step_graph_digest: String,
    pub engine_epoch: u64,
    pub identity_digest: String,
    pub invalidated_by: Option<ValidationGenerationId>,
}

/// The bytes of the first `n` items, each followed by those of its source.
pub open spec fn member_bytes(ids: Seq<QueueItemId>, sources: Seq<GitOid>, n: nat) -> Seq<u8>
    decreases n,
{
    if n == 0 {
        Seq::empty()
    } else {
        member_bytes(ids, sources, (n - 1) as nat) + be_bytes(ids[n - 1].0 as nat, 16) + sources[n
            - 1]@.bytes
    }
}

/// The bytes of the first `n` objects, one after the other.
pub open spec fn object_bytes(oids: Seq<GitOid>, n: nat) -> Seq<u8>
    decreases n,
{
    if n == 0 {
        Seq::empty()
    } else {
        object_bytes(oids, (n - 1) as nat) + oids[n - 1]@.bytes
    }
}

/// How many items have both an identifier and a source.
pub open spec fn paired(ids: nat, sources: nat) -> nat {
    if ids <= sources {
        ids
    } else {
        sources
    }
}

/// What the identity of a validation is the digest of: the base, the ordered
/// items with their sources, the prefix objects, both digests and the epoch.
pub open spec fn generation_identity(
    base: GitOidView,
    ids: Seq<QueueItemId>,
    sources: Seq<GitOid>,
    prefix: Seq<GitOid>,
    configuration_digest: Seq<char>,
    step_graph_digest: Seq<char>,
    engine_epoch: u64,
) -> Seq<u8> {
    base.bytes + member_bytes(ids, sources, paired(ids.len(), sources.len())) + object_bytes(
        prefix,
        prefix.len(),
    ) + encode_utf8(configuration_digest) + encode_utf8(step_graph_digest) + be_bytes(
        engine_epoch as nat,
        8,
    )
}

impl ValidationGeneration {
    /// Records a validation and derives its identity from its inputs.
    pub fn derive(
        id: ValidationGenerationId,
        item_id: QueueItemId,
        anchored_base_oid: GitOid,
        ordered_item_ids: Vec<QueueItemId>,
        ordered_source_oids: Vec<GitOid>,
        prefix_oids: Vec<GitOid>,
        expected_parent_oid: GitOid,
        tested_oid: GitOid,
        configuration_digest: String,
        step_graph_digest: String,
        engine_epoch: u64,
    ) -> (r: ValidationGeneration)
        ensures
            r.identity_digest@ == blake3_hex(
                generation_identity(
                    anchored_base_oid@,
                    ordered_item_ids@,
                    ordered_source_oids@,
                    prefix_oids@,
                    configuration_digest@,
                    step_graph_digest@,
                    engine_epoch,
                ),
            ),
            r.id == id,
            r.item_id == item_id,
            r.anchored_base_oid == anchored_base_oid,
            r.ordered_item_ids == ordered_item_ids,
            r.ordered_source_oids == ordered_source_oids,
            r.prefix_oids == prefix_oids,
            r.expected_parent_oid == expected_parent_oid,
            r.tested_oid == tested_oid,
            r.configuration_digest == configuration_digest,
            r.step_graph_digest == step_graph_digest,
            r.engine_epoch == engine_epoch,
            r.invalidated_by is None,
    {
        let mut input: Vec<u8> = Vec::new();
        push_bytes(&mut input, anchored_base_oid.as_bytes());
        let ghost base = anchored_base_oid@.bytes;
        assert(input@ =~= base);
        let mut i: usize = 0;
        while i < ordered_item_ids.len() && i < ordered_source_oids.len()
            invariant
                i <= ordered_item_ids.len(),
                i <= ordered_source_oids.len(),
                input@ == base + member_bytes(ordered_item_ids@, ordered_source_oids@, i as nat),
            decreases ordered_item_ids.len() - i,
        {
            let member = to_be(ordered_item_ids[i].0, 16);
            push_bytes(&mut input, member.as_slice());
            push_bytes(&mut input, ordered_source_oids[i].as_bytes());
            i += 1;
            assert(input@ =~= base + member_bytes(
                ordered_item_ids@,
                ordered_source_oids@,
                i as nat,
            ));
        }
        let ghost members = member_bytes(ordered_item_ids@, ordered_source_oids@, i as nat);
        assert(i == paired(ordered_item_ids@.len(), ordered_source_oids@.len()));
        let mut j: usize = 0;
        while j < prefix_oids.len()
            invariant
                j <= prefix_oids.len(),
                input@ == base + members + object_bytes(prefix_oids@, j as nat),
            decreases prefix_oids.len() - j,
        {
            push_bytes(&mut input, prefix_oids[j].as_bytes());
            j += 1;
            assert(input@ =~= base + members + object_bytes(prefix_oids@, j as nat));
        }
        push_bytes(&mut input, configuration_digest.as_str().as_bytes());
        push_bytes(&mut input, step_graph_digest.as_str().as_bytes());
        let epoch = to_be(engine_epoch as u128, 8);
        push_bytes(&mut input, epoch.as_slice());
        let identity_digest = hash_hex(input.as_slice());
        ValidationGeneration {
            id,
            item_id,
            anchored_base_oid,
            ordered_item_ids,
            ordered_source_oids,
            prefix_oids,
            expected_parent_oid,
            tested_oid,
            configuration_digest,
            step_graph_digest,
            engine_epoch,
            identity_digest,
            invalidated_by: None,
        }
    }
}

/// One execution of a step graph on a tested object.
#[derive(Clone, Debug, PartialEq, Eq)]
pub struct Buildset {
    pub id: BuildsetId,
    pub item_id: QueueItemId,
    pub validation_generation_id: ValidationGenerationId,
    pub tested_oid: GitOid,
    pub expected_parent_oid: GitOid,
    pub environment_fingerprint: String,
    pub slot_id: Option<SlotId>,
    pub state: BuildsetState,
    pub retry_of: Option<BuildsetId>,
    pub attempt: u16,
    pub created_at: Timestamp,
    pub started_at: Option<Timestamp>,
    pub finished_at: Option<Timestamp>,
    pub frozen_steps: Vec<FrozenStep>,
    pub step_results: Vec<BuildsetStepResult>,
}

/// How a step of a buildset ended.
#[derive(Clone, Debug, PartialEq, Eq)]
pub struct BuildsetStepResult {
    pub name: String,
    pub result_class: String,
    pub exit_code: Option<i32>,
    pub signal: Option<i32>,
    pub elapsed_ms: u64,
    pub log_hash: String,
    pub stdout_end: u64,
    pub stderr_end: u64,
}

/// A step as it was when its buildset began.
#[derive(Clone, Debug, PartialEq, Eq)]
pub struct FrozenStep {
    pub id: StepId,
    pub name: String,
    pub command: FrozenCommand,
    pub working_directory: String,
    pub needs: Vec<StepId>,
    pub soft_needs: Vec<StepId>,
    pub voting: bool,
    pub final_step: bool,
    pub timeout_ns: u64,
    pub cpu_tokens: u16,
    pub memory_bytes: u64,
    pub rss_limit_bytes: Option<u64>,
    pub semaphores: Vec<String>,
}

/// The command of a frozen step.
#[derive(Clone, Debug, PartialEq, Eq)]
pub enum FrozenCommand {
    Shell { runner: Vec<String>, script: String },
    Argv { argv: Vec<String> },
}

/// Evidence that a step succeeded.
#[derive(Clone, Debug, PartialEq, Eq)]
pub struct SuccessfulStepResult {
    pub step_id: StepId,
    pub attempt_id: StepAttemptId,
    pub log_stdout_end: u64,
    pub log_stderr_end: u64,
    pub log_hash: String,
}

/// Evidence that a buildset passed, and for which inputs it counts.
#[derive(Clone, Debug, PartialEq, Eq)]
pub struct PassCertificate {
    pub id: CertificateId,
    pub buildset_id: BuildsetId,
    pub queue_item_id: QueueItemId,
    pub validation_generation_id: ValidationGenerationId,
    pub tested_oid: GitOid,
    pub tree_oid: GitOid,
    pub expected_parent_oid: GitOid,
    pub configuration_digest: String,
    pub step_graph_digest: String,
    pub engine_epoch: u64,
    pub environment_fingerprint: String,
    pub voting_results: Vec<SuccessfulStepResult>,
    pub warnings: Vec<String>,
    pub checkout_verified: bool,
    pub completed_event_sequence: u64,
    pub created_at: Timestamp,
}

impl PassCertificate {
    /// The certificate belongs to the item's current generation, agrees with it,
    /// and agrees with what is observed now.
    pub open spec fn holds_for(
        self,
        item: QueueItem,
        generation: ValidationGeneration,
        observed_master: GitOidView,
        config_digest: Seq<char>,
        step_graph_digest: Seq<char>,
        engine_epoch: u64,
    ) -> bool {
        &&& self.queue_item_id == item.id
        &&& item.current_generation_id == Some(self.validation_generation_id)
        &&& generation.id == self.validation_generation_id
        &&& self.tested_oid@ == generation.tested_oid@
        &&& self.expected_parent_oid@ == generation.expected_parent_oid@
        &&& self.expected_parent_oid@ == observed_master
        &&& self.configuration_digest@ == generation.configuration_digest@
        &&& self.configuration_digest@ == config_digest
        &&& self.step_graph_digest@ == generation.step_graph_digest@
        &&& self.step_graph_digest@ == step_graph_digest
        &&& self.engine_epoch == engine_epoch
        &&& self.checkout_verified
    }

    /// Whether the certificate still stands for what is observed now.
    pub fn validates(
        &self,
        item: &QueueItem,
        generation: &ValidationGeneration,
        observed_master: &GitOid,
        config_digest: &str,
        step_graph_digest: &str,
        engine_epoch: u64,
    ) -> (r: bool)
        ensures
            r == self.holds_for(
                *item,
                *generation,
                observed_master@,
                config_digest@,
                step_graph_digest@,
                engine_epoch,
            ),
    {
        let current = match item.current_generation_id {
            Some(id) => id == self.validation_generation_id,
            None => false,
        };
        item.id == self.queue_item_id && current && generation.id == self.validation_generation_id
            && self.tested_oid.same(&generation.tested_oid) && self.expected_parent_oid.same(
            &generation.expected_parent_oid,
        ) && str_equal(
            self.configuration_digest.as_str(),
            generation.configuration_digest.as_str(),
        ) && str_equal(self.step_graph_digest.as_str(), generation.step_graph_digest.as_str())
            && self.expected_parent_oid.same(observed_master) && str_equal(
            self.configuration_digest.as_str(),
            config_digest,
        ) && str_equal(self.step_graph_digest.as_str(), step_graph_digest) && self.engine_epoch
            == engine_epoch && self.checkout_verified
    }
}

/// A certificate stands for one master object, one configuration, one step graph
/// and one engine epoch only: as soon as any of them changes, it lapses.
pub proof fn law_certificate_lapses_when_inputs_change(
    certificate: PassCertificate,
    item: QueueItem,
    generation: ValidationGeneration,
    master: GitOidView,
    config: Seq<char>,
    graph: Seq<char>,
    epoch: u64,
    new_master: GitOidView,
    new_config: Seq<char>,
    new_graph: Seq<char>,
    new_epoch: u64,
)
    requires
        certificate.holds_for(item, generation, master, config, graph, epoch),
        (master, config, graph, epoch) != (new_master, new_config, new_graph, new_epoch),
    ensures
        !certificate.holds_for(item, generation, new_master, new_config, new_graph, new_epoch),
{
}

/// A certificate never stands for an item whose generation has been replaced.
pub proof fn law_certificate_lapses_with_its_generation(
    certificate: PassCertificate,
    item: QueueItem,
    generation: ValidationGeneration,
    master: GitOidView,
    config: Seq<char>,
    graph: Seq<char>,
    epoch: u64,
)
    requires
        item.current_generation_id != Some(certificate.validation_generation_id),
    ensures
        !certificate.holds_for(item, generation, master, config, graph, epoch),
{
}

} // verus!
