//! The tables of configurations and of backups.

use crate::store::{refused, StoreError};
use crate::text::str_equal;
use vstd::prelude::*;

verus! {

/// A configuration that has been in force, or is to be.
#[derive(Clone, Debug, PartialEq, Eq)]
pub struct SnapshotRow {
    pub digest: String,
    pub canonical_bytes: Vec<u8>,
    pub step_graph_digest: String,
    pub activation_sequence: u64,
    pub supersedes: Option<String>,
}

/// What is known of a configuration.
#[verifier::ext_equal]
pub struct SnapshotInfo {
    pub digest: Seq<char>,
    pub canonical_bytes: Seq<u8>,
    pub step_graph_digest: Seq<char>,
    pub activation_sequence: u64,
    pub supersedes: Option<Seq<char>>,
}

impl View for SnapshotRow {
    type V = SnapshotInfo;

    open spec fn view(&self) -> SnapshotInfo {
        SnapshotInfo {
            digest: self.digest@,
            canonical_bytes: self.canonical_bytes@,
            step_graph_digest: self.step_graph_digest@,
            activation_sequence: self.activation_sequence,
            supersedes: match self.supersedes {
                Some(digest) => Some(digest@),
                None => None,
            },
        }
    }
}

/// What is known of the configurations.
pub open spec fn snapshot_infos(rows: Seq<SnapshotRow>) -> Seq<SnapshotInfo> {
    rows.map_values(|row: SnapshotRow| row@)
}

/// The row is of the configuration.
pub open spec fn snapshot_at(infos: Seq<SnapshotInfo>, i: int, digest: Seq<char>) -> bool {
    0 <= i < infos.len() && infos[i].digest == digest
}

/// There is a row of the configuration.
pub open spec fn has_snapshot(infos: Seq<SnapshotInfo>, digest: Seq<char>) -> bool {
    exists|i: int| snapshot_at(infos, i, digest)
}

/// The configuration, where there is one.
pub open spec fn snapshot_of(infos: Seq<SnapshotInfo>, digest: Seq<char>) -> SnapshotInfo {
    infos[choose|i: int| snapshot_at(infos, i, digest)]
}

/// No two rows are of the same configuration.
pub open spec fn snapshots_sound(infos: Seq<SnapshotInfo>) -> bool {
    forall|i: int, j: int|
        0 <= i < j < infos.len() ==> (#[trigger] infos[i]).digest != (#[trigger] infos[j]).digest
}

/// The configurations after one has been offered; one that is known stays as it is.
pub open spec fn with_snapshot(infos: Seq<SnapshotInfo>, info: SnapshotInfo) -> Seq<SnapshotInfo> {
    if has_snapshot(infos, info.digest) {
        infos
    } else {
        infos.push(info)
    }
}

/// A configuration that has been recorded for its own sake.
pub open spec fn plain_snapshot(
    digest: Seq<char>,
    canonical_bytes: Seq<u8>,
    step_graph_digest: Seq<char>,
) -> SnapshotInfo {
    SnapshotInfo {
        digest,
        canonical_bytes,
        step_graph_digest,
        activation_sequence: 0,
        supersedes: None,
    }
}

/// The table of configurations.
#[derive(Clone, Debug, PartialEq, Eq)]
pub struct ConfigurationTable {
    pub rows: Vec<SnapshotRow>,
}

impl ConfigurationTable {
    /// The table holds together.
    pub open spec fn wf(self) -> bool {
        snapshots_sound(snapshot_infos(self.rows@))
    }

    /// An empty table.
    pub fn new() -> (r: ConfigurationTable)
        ensures
            r.wf(),
            r.rows@.len() == 0,
    {
        ConfigurationTable { rows: Vec::new() }
    }

    /// The configuration with a digest.
    pub fn configuration_snapshot(&self, digest: &str) -> (r: Option<&SnapshotRow>)
        requires
            self.wf(),
        ensures
            r is Some <==> has_snapshot(snapshot_infos(self.rows@), digest@),
            r matches Some(row) ==> row@ == snapshot_of(snapshot_infos(self.rows@), digest@),
    {
        let ghost infos = snapshot_infos(self.rows@);
        let mut i: usize = 0;
        while i < self.rows.len()
            invariant
                i <= self.rows@.len(),
                infos == snapshot_infos(self.rows@),
                snapshots_sound(infos),
                forall|j: int| 0 <= j < i ==> (#[trigger] infos[j]).digest != digest@,
            decreases self.rows@.len() - i,
        {
            assert(infos[i as int] == self.rows@[i as int]@);
            if str_equal(self.rows[i].digest.as_str(), digest) {
                proof {
                    assert(snapshot_at(infos, i as int, digest@));
                    let k = choose|k: int| snapshot_at(infos, k, digest@);
                    if k < i {
                        assert(infos[k].digest != infos[i as int].digest);
                    } else if i < k {
                        assert(infos[i as int].digest != infos[k].digest);
                    }
                }
                return Some(&self.rows[i]);
            }
            i += 1;
        }
        None
    }

    /// Records a configuration, unless it is known.
    pub fn offer(&mut self, row: SnapshotRow)
        requires
            old(self).wf(),
        ensures
            final(self).wf(),
            snapshot_infos(final(self).rows@) == with_snapshot(
                snapshot_infos(old(self).rows@),
                row@,
            ),
    {
        let known = match self.configuration_snapshot(row.digest.as_str()) {
            Some(_) => true,
            None => false,
        };
        if !known {
            let ghost had = snapshot_infos(self.rows@);
            let ghost info = row@;
            self.rows.push(row);
            proof {
                let now = snapshot_infos(self.rows@);
                assert(now =~= had.push(info));
                assert forall|i: int, j: int| 0 <= i < j < now.len() implies (
                #[trigger] now[i]).digest != (#[trigger] now[j]).digest by {
                    assert(now[i] == had[i]);
                    if j < had.len() {
                        assert(now[j] == had[j]);
                    } else {
                        assert(!snapshot_at(had, i, info.digest));
                    }
                }
            }
        }
    }

    /// Checks that a configuration is not known.
    pub fn check_new(&self, digest: &str) -> (r: Result<(), StoreError>)
        requires
            self.wf(),
        ensures
            r is Ok <==> !has_snapshot(snapshot_infos(self.rows@), digest@),
            r matches Err(error) ==> error is Sql,
    {
        match self.configuration_snapshot(digest) {
            Some(_) => Err(refused("UNIQUE constraint failed: configuration_snapshots.digest")),
            None => Ok(()),
        }
    }
}

/// A configuration that is known is not overwritten.
pub proof fn law_configurations_stay(
    infos: Seq<SnapshotInfo>,
    info: SnapshotInfo,
    digest: Seq<char>,
)
    requires
        snapshots_sound(infos),
        has_snapshot(infos, digest),
    ensures
        has_snapshot(with_snapshot(infos, info), digest),
        snapshot_of(with_snapshot(infos, info), digest) == snapshot_of(infos, digest),
{
    let after = with_snapshot(infos, info);
    let i = choose|i: int| snapshot_at(infos, i, digest);
    assert(snapshot_at(after, i, digest));
    let k = choose|k: int| snapshot_at(after, k, digest);
    if k < infos.len() {
        assert(after[k] == infos[k]);
        if k < i {
            assert(infos[k].digest != infos[i].digest);
        } else if i < k {
            assert(infos[i].digest != infos[k].digest);
        }
    }
}

/// A backup of the database that has been verified.
#[derive(Clone, Debug, PartialEq, Eq)]
pub struct BackupRow {
    pub schema_version: i64,
    pub path: String,
    pub hash: String,
    pub migration: Option<String>,
}

/// What is known of a backup.
#[verifier::ext_equal]
pub struct BackupInfo {
    pub schema_version: i64,
    pub path: Seq<char>,
    pub hash: Seq<char>,
    pub migration: Option<Seq<char>>,
}

impl View for BackupRow {
    type V = BackupInfo;

    open spec fn view(&self) -> BackupInfo {
        BackupInfo {
            schema_version: self.schema_version,
            path: self.path@,
            hash: self.hash@,
            migration: match self.migration {
                Some(name) => Some(name@),
                None => None,
            },
        }
    }
}

/// What is known of the backups.
pub open spec fn backup_infos(rows: Seq<BackupRow>) -> Seq<BackupInfo> {
    rows.map_values(|row: BackupRow| row@)
}

} // verus!
