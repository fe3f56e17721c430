//! What the store keeps beside the queue: configurations, builds, logs, artifacts and
//! backups, and what it can tell of them.

use crate::artifact_table::ArtifactRecord;
#[allow(unused_imports)]
use crate::artifact_table::{is_taken_up, ArtifactInfo};
use crate::attempt_table::StepAttemptRecord;
#[allow(unused_imports)]
use crate::attempt_table::{
    attempt_error, attempt_fault, record_infos, refused_at, with_attempts,
};
#[allow(unused_imports)]
use crate::buildset_table::{
    build_row, can_build, can_certify, can_rebuild, has_buildset, rebuilt,
};
use crate::configuration_table::{BackupRow, SnapshotRow};
#[allow(unused_imports)]
use crate::configuration_table::{
    has_snapshot, plain_snapshot, with_snapshot, BackupInfo, SnapshotInfo,
};
use crate::content_digest::ContentDigest;
use crate::document::{Document, Fields};
#[allow(unused_imports)]
use crate::document::{distinct_entries, lemma_table_writable, lemma_writable_deeper, Tree};
#[allow(unused_imports)]
use crate::generation_table::has_generation;
use crate::ids::{BuildsetId, CommandId};
use crate::intent_table::FromStates;
#[allow(unused_imports)]
use crate::intent_table::{last_of_kind, moved_on, IntentFilter, IntentInfo};
#[allow(unused_imports)]
use crate::item_table::{has_item, keys_of};
use crate::model::{Buildset, PassCertificate, RepositoryState, Timestamp};
#[allow(unused_imports)]
use crate::outside::{blake3_hex, is_instant};
use crate::repository_store::RepositoryStore;
#[allow(unused_imports)]
use crate::repository_store::Books;
#[allow(unused_imports)]
use crate::repository_table::{has_repository, told_by_state, with_repository};
#[allow(unused_imports)]
use crate::result_table::{has_result, result_of};
#[allow(unused_imports)]
use crate::seqs::{lemma_filter_ends, lemma_filter_grows, lemma_filter_step};
#[allow(unused_imports)]
use crate::store::{fits_sqlite, migration_named};
use crate::store::{
    check_integrity, migration_name, refused, IntentState, StoreError, ARTIFACT_DAYS,
    SCHEMA_VERSION,
};
use crate::stored_json::{read_stored, write_stored};
#[allow(unused_imports)]
use crate::stored_json::{denoted, notation};
use crate::text::str_equal;
#[allow(unused_imports)]
use crate::volume_table::released;
use vstd::prelude::*;

verus! {

/// Two named texts as a table.
pub open spec fn two_texts(
    name: Seq<char>,
    text: Seq<char>,
    other_name: Seq<char>,
    other: Seq<char>,
) -> Tree {
    Tree::Table(seq![(name, Tree::Text(text)), (other_name, Tree::Text(other))])
}

fn note_two(name: &str, text: &str, other_name: &str, other: &str) -> (r: String)
    requires
        name@ != other_name@,
    ensures
        r@ == notation(two_texts(name@, text@, other_name@, other@)),
{
    let mut fields = Fields::new();
    fields.put(name, Document::Text(text.to_owned()));
    fields.put(other_name, Document::Text(other.to_owned()));
    proof {
        let entries = fields@;
        assert(Tree::Table(entries) == two_texts(name@, text@, other_name@, other@)) by {
            assert(entries =~= seq![
                (name@, Tree::Text(text@)),
                (other_name@, Tree::Text(other@)),
            ]);
        }
        assert(entries[0].0 == name@ && entries[1].0 == other_name@);
        assert(distinct_entries(entries));
        lemma_table_writable(entries, 126);
        lemma_writable_deeper(Tree::Table(entries), 127, 127);
    }
    write_stored(&fields.build())
}

/// What has been observed when a configuration is staged.
pub open spec fn staged(digest: Seq<char>, request_digest: Seq<char>) -> Seq<char> {
    notation(two_texts("digest"@, digest, "request_digest"@, request_digest))
}

/// What has been observed when a backup is done.
pub open spec fn backed_up(path: Seq<char>, hash: Seq<char>) -> Seq<char> {
    notation(two_texts("path"@, path, "hash"@, hash))
}

/// A backup that has been verified, made for its own sake.
pub open spec fn plain_backup(path: Seq<char>, hash: Seq<char>) -> BackupInfo {
    BackupInfo { schema_version: SCHEMA_VERSION, path, hash, migration: None }
}

/// A backup that has been verified, taken before a migration from a version.
pub open spec fn migration_backup(from: i64, path: Seq<char>, hash: Seq<char>) -> BackupInfo {
    BackupInfo { schema_version: from, path, hash, migration: Some(migration_named(from)) }
}

/// The operation is of the kind and has been completed.
pub open spec fn is_completed(info: IntentInfo, kind: Seq<char>) -> bool {
    info.kind == kind && info.state == IntentState::Completed
}

/// The operations of a kind that have been completed, the oldest first.
pub open spec fn completed_of(infos: Seq<IntentInfo>, kind: Seq<char>) -> Seq<IntentInfo> {
    infos.filter(|info: IntentInfo| is_completed(info, kind))
}

/// What a completed operation expected and what was observed can be told.
pub open spec fn is_told(info: IntentInfo) -> bool {
    denoted(info.expected) is Some && (info.observed matches Some(observed) && denoted(
        observed,
    ) is Some)
}

/// How long an artifact is kept, in nanoseconds.
pub open spec fn retention_time() -> int {
    ARTIFACT_DAYS * 86_400_000_000_000
}

/// An artifact that has just been left.
pub open spec fn fresh_artifact(
    artifact_id: Seq<char>,
    buildset_id: BuildsetId,
    source_path: Seq<char>,
    retained_path: Seq<char>,
    hash: Seq<char>,
    size: u64,
    created_at: Timestamp,
) -> ArtifactInfo {
    ArtifactInfo {
        artifact_id,
        buildset_id,
        source_path,
        retained_path,
        hash,
        size,
        retention_state: "retained"@,
        created_at,
        expires_at: Timestamp { unix_nanos: (created_at.unix_nanos + retention_time()) as i128 },
    }
}

impl RepositoryStore {
    /// Takes up a new repository together with the configuration that is in force.
    pub fn initialize_repository_with_configuration(
        &mut self,
        state: RepositoryState,
        canonical_bytes: Vec<u8>,
        step_graph_digest: &str,
    ) -> (r: Result<(), StoreError>)
        requires
            old(self).wf(),
            state.queue_revision <= i64::MAX,
            state.event_sequence <= i64::MAX,
        ensures
            final(self).wf(),
            ({
                let digest = state.active_configuration_digest@;
                &&& r is Ok <==> !has_repository(old(self)@.repositories, state.id)
                    && !has_snapshot(old(self)@.configurations, digest)
                &&& r is Ok ==> final(self)@ == (Books {
                    repositories: old(self)@.repositories.push(told_by_state(state)),
                    configurations: old(self)@.configurations.push(
                        plain_snapshot(digest, canonical_bytes@, step_graph_digest@),
                    ),
                    ..old(self)@
                })
                &&& r is Err ==> final(self)@ == old(self)@
                &&& r matches Err(error) ==> error is Sql
            }),
    {
        match self.repositories.find(state.id) {
            Some(_) => {
                return Err(refused("UNIQUE constraint failed: repository_state.repository_id"));
            },
            None => {},
        }
        let digest = state.active_configuration_digest.as_str().to_owned();
        match self.configurations.check_new(digest.as_str()) {
            Ok(()) => {},
            Err(error) => {
                return Err(error);
            },
        }
        let row = SnapshotRow {
            digest,
            canonical_bytes,
            step_graph_digest: step_graph_digest.to_owned(),
            activation_sequence: 0,
            supersedes: None,
        };
        assert(row@ =~= plain_snapshot(row.digest@, canonical_bytes@, step_graph_digest@));
        self.configurations.offer(row);
        self.repositories.initialize_repository(state);
        Ok(())
    }

    /// Records the configuration that a repository is about to come to.
    pub fn stage_configuration(
        &mut self,
        state: RepositoryState,
        canonical_bytes: Vec<u8>,
        step_graph_digest: &str,
        supersedes_digest: &str,
        command_id: CommandId,
        request_digest: &str,
    )
        requires
            old(self).wf(),
            state.queue_revision <= i64::MAX,
            state.event_sequence <= i64::MAX,
        ensures
            final(self).wf(),
            final(self)@ == (Books {
                configurations: with_snapshot(
                    old(self)@.configurations,
                    SnapshotInfo {
                        digest: state.active_configuration_digest@,
                        canonical_bytes: canonical_bytes@,
                        step_graph_digest: step_graph_digest@,
                        activation_sequence: state.event_sequence,
                        supersedes: Some(supersedes_digest@),
                    },
                ),
                repositories: if has_repository(old(self)@.repositories, state.id) {
                    with_repository(old(self)@.repositories, told_by_state(state))
                } else {
                    old(self)@.repositories
                },
                intents: moved_on(
                    old(self)@.intents,
                    (IntentFilter {
                        command: command_id,
                        repository: Some(state.id),
                        kind: Some("config-apply"@),
                        from: FromStates::Prepared,
                    }),
                    IntentState::ExternalApplied,
                    staged(state.active_configuration_digest@, request_digest@),
                ),
                ..old(self)@
            }),
    {
        let repository = state.id;
        let digest = state.active_configuration_digest.as_str().to_owned();
        proof {
            reveal_strlit("digest");
            reveal_strlit("request_digest");
            assert("digest"@.len() != "request_digest"@.len());
        }
        let observed = note_two("digest", digest.as_str(), "request_digest", request_digest);
        let row = SnapshotRow {
            digest,
            canonical_bytes,
            step_graph_digest: step_graph_digest.to_owned(),
            activation_sequence: state.event_sequence,
            supersedes: Some(supersedes_digest.to_owned()),
        };
        let ghost info = SnapshotInfo {
            digest: state.active_configuration_digest@,
            canonical_bytes: canonical_bytes@,
            step_graph_digest: step_graph_digest@,
            activation_sequence: state.event_sequence,
            supersedes: Some(supersedes_digest@),
        };
        assert(row@ =~= info);
        self.configurations.offer(row);
        match self.repositories.update_repository_state(state) {
            Ok(()) => {},
            Err(_) => {},
        }
        self.intents.move_on(
            command_id,
            Some(repository),
            Some("config-apply"),
            FromStates::Prepared,
            IntentState::ExternalApplied,
            observed.as_str(),
        );
    }

    /// Records a configuration, unless it is known.
    pub fn record_configuration_snapshot(
        &mut self,
        digest: &str,
        canonical_bytes: Vec<u8>,
        step_graph_digest: &str,
    )
        requires
            old(self).wf(),
        ensures
            final(self).wf(),
            final(self)@ == (Books {
                configurations: with_snapshot(
                    old(self)@.configurations,
                    plain_snapshot(digest@, canonical_bytes@, step_graph_digest@),
                ),
                ..old(self)@
            }),
    {
        let row = SnapshotRow {
            digest: digest.to_owned(),
            canonical_bytes,
            step_graph_digest: step_graph_digest.to_owned(),
            activation_sequence: 0,
            supersedes: None,
        };
        assert(row@ =~= plain_snapshot(digest@, canonical_bytes@, step_graph_digest@));
        self.configurations.offer(row);
    }

    /// Takes up a build of a validation that is known.
    pub fn insert_buildset(&mut self, buildset: Buildset) -> (r: Result<(), StoreError>)
        requires
            old(self).wf(),
        ensures
            final(self).wf(),
            r is Ok <==> has_item(keys_of(old(self)@.items), buildset.item_id) && has_generation(
                old(self)@.generations,
                buildset.validation_generation_id,
            ) && can_build(old(self)@.buildsets, buildset),
            r is Ok ==> final(self)@ == (Books {
                buildsets: old(self)@.buildsets.push(build_row(buildset)),
                ..old(self)@
            }),
            r is Err ==> final(self)@ == old(self)@,
            r matches Err(error) ==> error is Sql,
    {
        if !self.items.holds(buildset.item_id) {
            return Err(refused("FOREIGN KEY constraint failed"));
        }
        match self.generations.position(buildset.validation_generation_id) {
            Some(_) => {},
            None => {
                return Err(refused("FOREIGN KEY constraint failed"));
            },
        }
        self.buildsets.insert(buildset)
    }

    /// Writes down the state that a build has come to.
    pub fn update_buildset(&mut self, buildset: Buildset) -> (r: Result<(), StoreError>)
        requires
            old(self).wf(),
        ensures
            final(self).wf(),
            r is Ok <==> can_rebuild(old(self)@.buildsets, buildset),
            r is Ok ==> final(self)@ == (Books {
                buildsets: rebuilt(old(self)@.buildsets, buildset),
                ..old(self)@
            }),
            r is Err ==> final(self)@ == old(self)@,
            r matches Err(error) ==> error is Sql,
    {
        self.buildsets.update(buildset)
    }

    /// The builds, the newest first.
    pub fn buildsets(&self) -> (r: Vec<&Buildset>)
        ensures
            r@.len() == self@.buildsets.len(),
            forall|k: int|
                0 <= k < r@.len() ==> *(#[trigger] r@[k])
                    == self@.buildsets[self@.buildsets.len() - 1 - k].buildset,
    {
        self.buildsets.newest_first()
    }

    /// Takes up the certificate that a build has earned.
    pub fn insert_certificate(&mut self, certificate: PassCertificate) -> (r: Result<
        (),
        StoreError,
    >)
        requires
            old(self).wf(),
        ensures
            final(self).wf(),
            r is Ok <==> has_buildset(old(self)@.buildsets, certificate.buildset_id)
                && has_generation(
                old(self)@.generations,
                certificate.validation_generation_id,
            ) && can_certify(old(self)@.certificates, certificate),
            r is Ok ==> final(self)@ == (Books {
                certificates: old(self)@.certificates.push(certificate),
                ..old(self)@
            }),
            r is Err ==> final(self)@ == old(self)@,
            r matches Err(error) ==> error is Sql,
    {
        if !self.buildsets.holds(certificate.buildset_id) {
            return Err(refused("FOREIGN KEY constraint failed"));
        }
        match self.generations.position(certificate.validation_generation_id) {
            Some(_) => {},
            None => {
                return Err(refused("FOREIGN KEY constraint failed"));
            },
        }
        self.certificates.insert(certificate)
    }

    /// Records the attempts at the steps of a build, all of them or none.
    pub fn record_step_attempts(
        &mut self,
        buildset_id: BuildsetId,
        attempts: &Vec<StepAttemptRecord>,
    ) -> (r: Result<(), StoreError>)
        requires
            old(self).wf(),
        ensures
            final(self).wf(),
            ({
                let book = old(self)@.logbook;
                let records = record_infos(attempts@);
                let after = with_attempts(book, buildset_id, records, records.len());
                let known = records.len() == 0 || has_buildset(
                    old(self)@.buildsets,
                    buildset_id,
                );
                &&& r is Ok <==> known && after is Some
                &&& r is Ok ==> final(self)@ == (Books { logbook: after->Some_0, ..old(self)@ })
                &&& r is Err ==> final(self)@ == old(self)@
                &&& r matches Err(error) ==> if known {
                    exists|i: int| #[trigger]
                        refused_at(book, buildset_id, records, i) && attempt_error(
                            error,
                            attempt_fault(
                                with_attempts(book, buildset_id, records, i as nat)->Some_0,
                                buildset_id,
                                records[i],
                            )->Some_0,
                        )
                } else {
                    error is Sql
                }
            }),
    {
        if attempts.len() > 0 && !self.buildsets.holds(buildset_id) {
            return Err(refused("FOREIGN KEY constraint failed"));
        }
        self.attempts.record_step_attempts(buildset_id, attempts)
    }

    /// Records an artifact that a build has left just now.
    pub fn record_artifact(
        &mut self,
        artifact_id: &str,
        buildset_id: BuildsetId,
        source_path: &str,
        retained_path: &str,
        hash: &str,
        size: u64,
        created_at: Timestamp,
    ) -> (r: Result<(), StoreError>)
        requires
            old(self).wf(),
            is_instant(created_at.unix_nanos as int),
            is_instant(created_at.unix_nanos + retention_time()),
        ensures
            final(self).wf(),
            ({
                let info = fresh_artifact(
                    artifact_id@,
                    buildset_id,
                    source_path@,
                    retained_path@,
                    hash@,
                    size,
                    created_at,
                );
                &&& r is Ok <==> fits_sqlite(size) && is_taken_up(old(self)@.artifacts, info)
                    && has_buildset(old(self)@.buildsets, buildset_id)
                &&& r is Ok ==> final(self)@ == (Books {
                    artifacts: old(self)@.artifacts.push(info),
                    ..old(self)@
                })
                &&& r is Err ==> final(self)@ == old(self)@
                &&& r matches Err(error) ==> if fits_sqlite(size) {
                    error is Sql
                } else {
                    error == StoreError::ArtifactTooLarge(size)
                }
            }),
    {
        let kept_for: i128 = ARTIFACT_DAYS as i128 * 86_400_000_000_000;
        let record = ArtifactRecord {
            artifact_id: artifact_id.to_owned(),
            buildset_id,
            source_path: source_path.to_owned(),
            retained_path: retained_path.to_owned(),
            hash: hash.to_owned(),
            size,
            retention_state: "retained".to_owned(),
            created_at,
            expires_at: Timestamp { unix_nanos: created_at.unix_nanos + kept_for },
        };
        assert(record@ =~= fresh_artifact(
            artifact_id@,
            buildset_id,
            source_path@,
            retained_path@,
            hash@,
            size,
            created_at,
        ));
        self.artifacts.record(record, &self.buildsets)
    }

    /// The digest of a backup, if the database says that it is sound.
    pub fn verified_backup_hash(integrity: &str, contents: &ContentDigest) -> (r: Result<
        String,
        StoreError,
    >)
        ensures
            r is Ok <==> integrity@ == "ok"@,
            r matches Ok(hash) ==> hash@ == blake3_hex(contents@),
            r matches Err(error) ==> error.broken(
                "backup integrity check failed: "@ + integrity@,
            ),
    {
        match check_integrity(integrity, "backup integrity check failed: ") {
            Ok(()) => Ok(contents.finish()),
            Err(error) => Err(error),
        }
    }

    /// The backup that is taken before a migration from a version, if the database says
    /// that it is sound.
    pub fn create_migration_backup(
        from: i64,
        path: &str,
        integrity: &str,
        contents: &ContentDigest,
    ) -> (r: Result<BackupRow, StoreError>)
        ensures
            r is Ok <==> integrity@ == "ok"@,
            r matches Ok(row) ==> row@ == migration_backup(from, path@, blake3_hex(contents@)),
            r matches Err(error) ==> error.broken(
                "migration backup integrity check failed: "@ + integrity@,
            ),
    {
        match check_integrity(integrity, "migration backup integrity check failed: ") {
            Ok(()) => {},
            Err(error) => {
                return Err(error);
            },
        }
        let row = BackupRow {
            schema_version: from,
            path: path.to_owned(),
            hash: contents.finish(),
            migration: Some(migration_name(from)),
        };
        assert(row@ =~= migration_backup(from, path@, blake3_hex(contents@)));
        Ok(row)
    }

    /// Records a backup that has been verified.
    pub fn record_backup(&mut self, path: &str, hash: &str)
        requires
            old(self).wf(),
        ensures
            final(self).wf(),
            final(self)@ == (Books {
                backups: old(self)@.backups.push(plain_backup(path@, hash@)),
                ..old(self)@
            }),
    {
        let ghost had = self@.backups;
        let row = BackupRow {
            schema_version: SCHEMA_VERSION,
            path: path.to_owned(),
            hash: hash.to_owned(),
            migration: None,
        };
        assert(row@ =~= plain_backup(path@, hash@));
        self.backups.push(row);
        assert(self@.backups =~= had.push(plain_backup(path@, hash@)));
    }

    /// Records the backup that a command has asked for.
    pub fn complete_backup(&mut self, command_id: CommandId, path: &str, hash: &str)
        requires
            old(self).wf(),
        ensures
            final(self).wf(),
            final(self)@ == (Books {
                backups: old(self)@.backups.push(plain_backup(path@, hash@)),
                intents: moved_on(
                    old(self)@.intents,
                    (IntentFilter {
                        command: command_id,
                        repository: None,
                        kind: Some("backup"@),
                        from: FromStates::Open,
                    }),
                    IntentState::Completed,
                    backed_up(path@, hash@),
                ),
                reservations: released(old(self)@.reservations, command_id),
                ..old(self)@
            }),
    {
        proof {
            reveal_strlit("path");
            reveal_strlit("hash");
            assert("path"@[0] != "hash"@[0]);
        }
        let observed = note_two("path", path, "hash", hash);
        self.record_backup(path, hash);
        self.intents.move_on(
            command_id,
            None,
            Some("backup"),
            FromStates::Open,
            IntentState::Completed,
            observed.as_str(),
        );
        self.volumes.deactivate_volume_reservation(command_id);
    }

    /// What the last operation of a command expects that is of a kind.
    pub fn operation_evidence(&self, command_id: CommandId, kind: &str) -> (r: Result<
        Option<Document>,
        StoreError,
    >)
        ensures
            match r {
                Ok(Some(document)) => exists|i: int| #[trigger]
                    last_of_kind(self@.intents, command_id, kind@, i) && denoted(
                        self@.intents[i].expected,
                    ) == Some(document@),
                Ok(None) => forall|i: int|
                    0 <= i < self@.intents.len() ==> !((#[trigger] self@.intents[i]).command_id
                        == command_id && self@.intents[i].kind == kind@),
                Err(error) => error is Json && exists|i: int| #[trigger]
                    last_of_kind(self@.intents, command_id, kind@, i) && denoted(
                        self@.intents[i].expected,
                    ) is None,
            },
    {
        match self.intents.expected_by(command_id, kind) {
            Some(expected) => {
                let ghost i = choose|i: int|
                    #[trigger] last_of_kind(self@.intents, command_id, kind@, i) && expected@
                        == self@.intents[i].expected;
                match read_stored(expected) {
                    Ok(document) => {
                        assert(last_of_kind(self@.intents, command_id, kind@, i));
                        Ok(Some(document))
                    },
                    Err(error) => {
                        assert(last_of_kind(self@.intents, command_id, kind@, i));
                        Err(error)
                    },
                }
            },
            None => Ok(None),
        }
    }

    /// What the operations of a kind expected that have been completed, the oldest first.
    pub fn completed_operation_evidence(&self, kind: &str) -> (r: Result<
        Vec<Document>,
        StoreError,
    >)
        ensures
            ({
                let done = completed_of(self@.intents, kind@);
                match r {
                    Ok(list) => list@.len() == done.len() && forall|k: int|
                        0 <= k < done.len() ==> denoted((#[trigger] done[k]).expected) == Some(
                            list@[k]@,
                        ),
                    Err(error) => error is Json && exists|k: int|
                        0 <= k < done.len() && denoted((#[trigger] done[k]).expected) is None,
                }
            }),
    {
        let ghost infos = self@.intents;
        let ghost pick = |info: IntentInfo| is_completed(info, kind@);
        let mut list: Vec<Document> = Vec::new();
        let mut i: usize = 0;
        proof {
            lemma_filter_ends(infos, pick);
        }
        while i < self.intents.rows.len()
            invariant
                i <= self.intents.rows@.len(),
                infos == self@.intents,
                infos.len() == self.intents.rows@.len(),
                pick == (|info: IntentInfo| is_completed(info, kind@)),
                list@.len() == infos.take(i as int).filter(pick).len(),
                forall|k: int|
                    0 <= k < list@.len() ==> denoted(
                        (#[trigger] infos.take(i as int).filter(pick)[k]).expected,
                    ) == Some(list@[k]@),
            decreases self.intents.rows@.len() - i,
        {
            let ghost had = infos.take(i as int).filter(pick);
            proof {
                lemma_filter_step(infos, pick, i as int);
                assert(infos[i as int] == self.intents.rows@[i as int]@);
            }
            let row = &self.intents.rows[i];
            if str_equal(row.kind.as_str(), kind) && row.state == IntentState::Completed {
                assert(pick(infos[i as int]));
                match read_stored(row.expected.as_str()) {
                    Ok(document) => {
                        list.push(document);
                    },
                    Err(error) => {
                        proof {
                            lemma_filter_grows(infos, pick, i as int + 1, infos.len() as int);
                            lemma_filter_ends(infos, pick);
                            let done = infos.filter(pick);
                            let part = infos.take(i as int + 1).filter(pick);
                            assert(part[had.len() as int] == infos[i as int]);
                            assert(done[had.len() as int] == infos[i as int]);
                        }
                        return Err(error);
                    },
                }
            }
            i += 1;
        }
        proof {
            lemma_filter_ends(infos, pick);
        }
        Ok(list)
    }

    /// What the operations of a kind expected that have been completed, and what was
    /// observed, the oldest first.
    pub fn completed_operation_records(&self, kind: &str) -> (r: Result<
        Vec<(Document, Document)>,
        StoreError,
    >)
        ensures
            ({
                let done = completed_of(self@.intents, kind@);
                match r {
                    Ok(list) => list@.len() == done.len() && forall|k: int|
                        0 <= k < done.len() ==> is_told(#[trigger] done[k]) && denoted(
                            done[k].expected,
                        ) == Some(list@[k].0@) && denoted(done[k].observed->Some_0) == Some(
                            list@[k].1@,
                        ),
                    Err(error) => exists|k: int|
                        0 <= k < done.len() && !is_told(#[trigger] done[k]) && (
                        if done[k].observed is None {
                            error is Sql
                        } else {
                            error is Json
                        }),
                }
            }),
    {
        let ghost infos = self@.intents;
        let ghost pick = |info: IntentInfo| is_completed(info, kind@);
        let mut list: Vec<(Document, Document)> = Vec::new();
        let mut i: usize = 0;
        proof {
            lemma_filter_ends(infos, pick);
        }
        while i < self.intents.rows.len()
            invariant
                i <= self.intents.rows@.len(),
                infos == self@.intents,
                infos.len() == self.intents.rows@.len(),
                pick == (|info: IntentInfo| is_completed(info, kind@)),
                list@.len() == infos.take(i as int).filter(pick).len(),
                forall|k: int|
                    0 <= k < list@.len() ==> is_told(
                        #[trigger] infos.take(i as int).filter(pick)[k],
                    ) && denoted(infos.take(i as int).filter(pick)[k].expected) == Some(
                        list@[k].0@,
                    ) && denoted(infos.take(i as int).filter(pick)[k].observed->Some_0) == Some(
                        list@[k].1@,
                    ),
            decreases self.intents.rows@.len() - i,
        {
            let ghost had = infos.take(i as int).filter(pick);
            proof {
                lemma_filter_step(infos, pick, i as int);
                assert(infos[i as int] == self.intents.rows@[i as int]@);
            }
            let row = &self.intents.rows[i];
            if str_equal(row.kind.as_str(), kind) && row.state == IntentState::Completed {
                proof {
                    assert(pick(infos[i as int]));
                    lemma_filter_grows(infos, pick, i as int + 1, infos.len() as int);
                    lemma_filter_ends(infos, pick);
                    let part = infos.take(i as int + 1).filter(pick);
                    assert(part[had.len() as int] == infos[i as int]);
                    assert(infos.filter(pick)[had.len() as int] == infos[i as int]);
                }
                let observed = match &row.observed {
                    Some(observed) => observed,
                    None => {
                        return Err(refused("Invalid column type Null"));
                    },
                };
                let expected = match read_stored(row.expected.as_str()) {
                    Ok(document) => document,
                    Err(error) => {
                        return Err(error);
                    },
                };
                match read_stored(observed.as_str()) {
                    Ok(document) => {
                        list.push((expected, document));
                    },
                    Err(error) => {
                        return Err(error);
                    },
                }
            }
            i += 1;
        }
        proof {
            lemma_filter_ends(infos, pick);
        }
        Ok(list)
    }

    /// What was answered to a command.
    pub fn command_response_json(&self, command_id: CommandId) -> (r: Result<
        Option<Document>,
        StoreError,
    >)
        requires
            self.wf(),
        ensures
            ({
                let response = denoted(result_of(self@.results, command_id).response);
                if !has_result(self@.results, command_id) {
                    r matches Ok(None)
                } else if response is Some {
                    r matches Ok(Some(document)) && response == Some(document@)
                } else {
                    r matches Err(error) && error is Json
                }
            }),
    {
        match self.results.stored_command_response(command_id) {
            Some(response) => match read_stored(response.as_str()) {
                Ok(document) => Ok(Some(document)),
                Err(error) => Err(error),
            },
            None => Ok(None),
        }
    }
}

} // verus!
