//! The table of artifacts: what builds have left to be kept.

use crate::buildset_table::BuildsetTable;
#[allow(unused_imports)]
use crate::buildset_table::{has_buildset, BuildsetRow};
use crate::ids::BuildsetId;
use crate::model::Timestamp;
#[allow(unused_imports)]
use crate::seqs::{in_order, is_listing, lemma_insert_in_order, lemma_listing_grows, orders};
use crate::store::{artifact_size, integrity, refused, StoreError};
#[allow(unused_imports)]
use crate::store::fits_sqlite;
use crate::text::{concat3, contains_text, order_str, str_equal, TextOrder};
#[allow(unused_imports)]
use crate::text::{
    lemma_bytes_before_irreflexive, lemma_bytes_before_transitive, text_before, texts,
};
use vstd::prelude::*;
#[allow(unused_imports)]
use vstd::utf8::encode_utf8;

verus! {

/// An artifact that is kept, or was.
#[derive(Clone, Debug, PartialEq, Eq)]
pub struct ArtifactRecord {
    pub artifact_id: String,
    pub buildset_id: BuildsetId,
    pub source_path: String,
    pub retained_path: String,
    pub hash: String,
    pub size: u64,
    pub retention_state: String,
    pub created_at: Timestamp,
    pub expires_at: Timestamp,
}

/// What is known of an artifact.
#[verifier::ext_equal]
pub struct ArtifactInfo {
    pub artifact_id: Seq<char>,
    pub buildset_id: BuildsetId,
    pub source_path: Seq<char>,
    pub retained_path: Seq<char>,
    pub hash: Seq<char>,
    pub size: u64,
    pub retention_state: Seq<char>,
    pub created_at: Timestamp,
    pub expires_at: Timestamp,
}

impl View for ArtifactRecord {
    type V = ArtifactInfo;

    open spec fn view(&self) -> ArtifactInfo {
        ArtifactInfo {
            artifact_id: self.artifact_id@,
            buildset_id: self.buildset_id,
            source_path: self.source_path@,
            retained_path: self.retained_path@,
            hash: self.hash@,
            size: self.size,
            retention_state: self.retention_state@,
            created_at: self.created_at,
            expires_at: self.expires_at,
        }
    }
}

/// What is known of the artifacts.
pub open spec fn artifact_infos(rows: Seq<ArtifactRecord>) -> Seq<ArtifactInfo> {
    rows.map_values(|row: ArtifactRecord| row@)
}

/// The two are the same artifact, or lie at the same place.
pub open spec fn coincide(a: ArtifactInfo, b: ArtifactInfo) -> bool {
    a.artifact_id == b.artifact_id || (a.buildset_id == b.buildset_id && a.retained_path
        == b.retained_path)
}

/// No two artifacts coincide.
pub open spec fn artifacts_sound(infos: Seq<ArtifactInfo>) -> bool {
    forall|i: int, j: int|
        0 <= i < j < infos.len() ==> !coincide(#[trigger] infos[i], #[trigger] infos[j])
}

/// The artifact can be in this state.
pub open spec fn is_retention_state(state: Seq<char>) -> bool {
    state == "retained"@ || state == "pinned"@ || state == "pruned"@
}

/// The artifact is taken up.
pub open spec fn is_taken_up(infos: Seq<ArtifactInfo>, info: ArtifactInfo) -> bool {
    is_retention_state(info.retention_state) && forall|i: int|
        0 <= i < infos.len() ==> !coincide(#[trigger] infos[i], info)
}

/// The artifacts after the first `n` of some have been offered.
pub open spec fn taken_up(infos: Seq<ArtifactInfo>, offered: Seq<ArtifactInfo>, n: nat) -> Seq<
    ArtifactInfo,
>
    decreases n,
{
    if n == 0 {
        infos
    } else {
        let fewer = (n - 1) as nat;
        let had = taken_up(infos, offered, fewer);
        if is_taken_up(had, offered[n - 1]) {
            had.push(offered[n - 1])
        } else {
            had
        }
    }
}

/// Why an artifact cannot be recorded.
pub enum RetentionFault {
    TooLarge(u64),
    Constraint,
}

/// What stands against recording one of some artifacts: it is too large, or it would be
/// taken up and its build is not known.
pub open spec fn retention_fault(
    infos: Seq<ArtifactInfo>,
    builds: Seq<BuildsetRow>,
    offered: Seq<ArtifactInfo>,
    i: int,
) -> Option<RetentionFault> {
    if !fits_sqlite(offered[i].size) {
        Some(RetentionFault::TooLarge(offered[i].size))
    } else if is_taken_up(taken_up(infos, offered, i as nat), offered[i]) && !has_buildset(
        builds,
        offered[i].buildset_id,
    ) {
        Some(RetentionFault::Constraint)
    } else {
        None
    }
}

/// The first artifact that something stands against.
pub open spec fn first_refused(
    infos: Seq<ArtifactInfo>,
    builds: Seq<BuildsetRow>,
    offered: Seq<ArtifactInfo>,
    i: int,
) -> bool {
    &&& 0 <= i < offered.len()
    &&& retention_fault(infos, builds, offered, i) is Some
    &&& forall|j: int|
        0 <= j < i ==> (#[trigger] retention_fault(infos, builds, offered, j)) is None
}

/// Nothing stands against recording the artifacts.
pub open spec fn can_retain(
    infos: Seq<ArtifactInfo>,
    builds: Seq<BuildsetRow>,
    offered: Seq<ArtifactInfo>,
) -> bool {
    forall|i: int|
        0 <= i < offered.len() ==> (#[trigger] retention_fault(infos, builds, offered, i)) is None
}

/// The error reports the fault.
pub open spec fn retention_error(error: StoreError, fault: RetentionFault) -> bool {
    match fault {
        RetentionFault::TooLarge(size) => error == StoreError::ArtifactTooLarge(size),
        RetentionFault::Constraint => error is Sql,
    }
}

/// The list has the artifacts that are still kept, in the order of their places.
pub open spec fn lists_retained(infos: Seq<ArtifactInfo>, listed: Seq<usize>) -> bool {
    &&& is_listing(listed, infos.len(), |i: usize| is_kept(infos[i as int]))
    &&& in_order(
        listed,
        |a: usize, b: usize|
            text_before(infos[a as int].retained_path, infos[b as int].retained_path),
    )
}

/// The list has the artifacts whose time has run out, in the order of their places.
pub open spec fn lists_expired(
    infos: Seq<ArtifactInfo>,
    now: Timestamp,
    listed: Seq<usize>,
) -> bool {
    &&& is_listing(listed, infos.len(), |i: usize| is_expired(infos[i as int], now))
    &&& in_order(
        listed,
        |a: usize, b: usize|
            text_before(infos[a as int].retained_path, infos[b as int].retained_path),
    )
}

/// The artifact is still kept.
pub open spec fn is_kept(info: ArtifactInfo) -> bool {
    info.retention_state == "retained"@ || info.retention_state == "pinned"@
}

/// The time of the artifact has run out.
pub open spec fn is_expired(info: ArtifactInfo, now: Timestamp) -> bool {
    info.retention_state == "retained"@ && info.expires_at.unix_nanos <= now.unix_nanos
}

/// How much the artifacts among the first `n` take up that can be given up.
pub open spec fn retained_bytes(infos: Seq<ArtifactInfo>, n: nat) -> nat
    decreases n,
{
    if n == 0 {
        0
    } else {
        retained_bytes(infos, (n - 1) as nat) + if infos[n - 1].retention_state == "retained"@ {
            infos[n - 1].size as nat
        } else {
            0
        }
    }
}

/// The artifact can change its state.
pub open spec fn can_change(
    infos: Seq<ArtifactInfo>,
    artifact: Seq<char>,
    expected: Seq<Seq<char>>,
) -> bool {
    exists|i: int|
        0 <= i < infos.len() && (#[trigger] infos[i]).artifact_id == artifact && expected.contains(
            infos[i].retention_state,
        )
}

/// The artifacts after one has changed its state.
pub open spec fn changed(
    infos: Seq<ArtifactInfo>,
    artifact: Seq<char>,
    expected: Seq<Seq<char>>,
    state: Seq<char>,
) -> Seq<ArtifactInfo> {
    infos.map_values(
        |info: ArtifactInfo|
            if info.artifact_id == artifact && expected.contains(info.retention_state) {
                ArtifactInfo { retention_state: state, ..info }
            } else {
                info
            },
    )
}

/// The table of artifacts.
#[derive(Clone, Debug, PartialEq, Eq)]
pub struct ArtifactTable {
    pub rows: Vec<ArtifactRecord>,
}

impl ArtifactTable {
    /// The table holds together.
    pub open spec fn wf(self) -> bool {
        artifacts_sound(artifact_infos(self.rows@))
    }

    /// An empty table.
    pub fn new() -> (r: ArtifactTable)
        ensures
            r.wf(),
            r.rows@.len() == 0,
    {
        ArtifactTable { rows: Vec::new() }
    }

    fn accepts(&self, record: &ArtifactRecord) -> (r: bool)
        ensures
            r == is_taken_up(artifact_infos(self.rows@), record@),
    {
        let state = record.retention_state.as_str();
        if !str_equal(state, "retained") && !str_equal(state, "pinned") && !str_equal(
            state,
            "pruned",
        ) {
            return false;
        }
        let ghost infos = artifact_infos(self.rows@);
        let mut i: usize = 0;
        while i < self.rows.len()
            invariant
                i <= self.rows@.len(),
                infos == artifact_infos(self.rows@),
                forall|j: int| 0 <= j < i ==> !coincide(#[trigger] infos[j], record@),
            decreases self.rows@.len() - i,
        {
            assert(infos[i as int] == self.rows@[i as int]@);
            let row = &self.rows[i];
            if str_equal(row.artifact_id.as_str(), record.artifact_id.as_str()) || (
            row.buildset_id.0 == record.buildset_id.0 && str_equal(
                row.retained_path.as_str(),
                record.retained_path.as_str(),
            )) {
                assert(coincide(infos[i as int], record@));
                return false;
            }
            i += 1;
        }
        true
    }

    fn add_row(&mut self, record: ArtifactRecord)
        requires
            old(self).wf(),
            is_taken_up(artifact_infos(old(self).rows@), record@),
        ensures
            final(self).wf(),
            final(self).rows@ == old(self).rows@.push(record),
            artifact_infos(final(self).rows@) == artifact_infos(old(self).rows@).push(record@),
    {
        let ghost had = artifact_infos(self.rows@);
        let ghost info = record@;
        self.rows.push(record);
        proof {
            let now = artifact_infos(self.rows@);
            assert(now =~= had.push(info));
            assert forall|i: int, j: int| 0 <= i < j < now.len() implies !coincide(
                #[trigger] now[i],
                #[trigger] now[j],
            ) by {
                assert(now[i] == had[i]);
                if j < had.len() {
                    assert(now[j] == had[j]);
                }
            }
        }
    }

    /// Takes up the artifacts that are not known yet, all of them or none.
    pub fn retain_all(
        &mut self,
        records: Vec<ArtifactRecord>,
        buildsets: &BuildsetTable,
    ) -> (r: Result<(), StoreError>)
        requires
            old(self).wf(),
        ensures
            final(self).wf(),
            final(self).rows@.len() >= old(self).rows@.len(),
            final(self).rows@.take(old(self).rows@.len() as int) == old(self).rows@,
            r is Ok <==> can_retain(
                artifact_infos(old(self).rows@),
                buildsets.rows@,
                artifact_infos(records@),
            ),
            r is Ok ==> artifact_infos(final(self).rows@) == taken_up(
                artifact_infos(old(self).rows@),
                artifact_infos(records@),
                records@.len(),
            ),
            r is Err ==> final(self).rows@ == old(self).rows@,
            r matches Err(error) ==> exists|i: int| #[trigger]
                first_refused(
                    artifact_infos(old(self).rows@),
                    buildsets.rows@,
                    artifact_infos(records@),
                    i,
                ) && retention_error(
                    error,
                    retention_fault(
                        artifact_infos(old(self).rows@),
                        buildsets.rows@,
                        artifact_infos(records@),
                        i,
                    )->Some_0,
                ),
    {
        let ghost first = self.rows@;
        let ghost start = artifact_infos(self.rows@);
        let ghost offered = artifact_infos(records@);
        let ghost builds = buildsets.rows@;
        let known: usize = self.rows.len();
        let mut left = records;
        let ghost mut n: nat = 0;
        assert(first.take(known as int) =~= first);
        while left.len() > 0
            invariant
                n <= offered.len(),
                left@.len() == offered.len() - n,
                artifact_infos(left@) == offered.skip(n as int),
                self.wf(),
                known == first.len(),
                known <= self.rows@.len(),
                first == old(self).rows@,
                start == artifact_infos(first),
                offered == artifact_infos(records@),
                builds == buildsets.rows@,
                old(self).wf(),
                self.rows@.take(known as int) == first,
                artifact_infos(self.rows@) == taken_up(start, offered, n),
                forall|j: int|
                    0 <= j < n ==> (#[trigger] retention_fault(start, builds, offered, j)) is None,
            decreases left@.len(),
        {
            let ghost had = artifact_infos(self.rows@);
            let ghost rest = left@;
            let ghost rows = self.rows@;
            assert(artifact_infos(rest)[0] == rest[0]@);
            assert(offered.skip(n as int)[0] == offered[n as int]);
            let record = left.remove(0);
            assert(artifact_infos(left@) =~= offered.skip(n as int + 1)) by {
                assert forall|k: int| 0 <= k < left@.len() implies #[trigger] artifact_infos(
                    left@,
                )[k] == offered.skip(n as int + 1)[k] by {
                    assert(left@[k] == rest[k + 1]);
                    assert(artifact_infos(rest)[k + 1] == offered.skip(n as int)[k + 1]);
                }
            }
            let ghost fault = retention_fault(start, builds, offered, n as int);
            assert(taken_up(start, offered, n as int as nat) == had);
            match artifact_size(record.size) {
                Ok(_) => {},
                Err(error) => {
                    assert(first_refused(start, builds, offered, n as int));
                    self.rows.truncate(known);
                    return Err(error);
                },
            }
            if self.accepts(&record) {
                if !buildsets.holds(record.buildset_id) {
                    assert(first_refused(start, builds, offered, n as int));
                    self.rows.truncate(known);
                    return Err(refused("FOREIGN KEY constraint failed"));
                }
                self.add_row(record);
                assert(self.rows@.take(known as int) =~= rows.take(known as int));
            }
            assert(fault is None);
            proof {
                n = n + 1;
            }
        }
        Ok(())
    }

    /// Records one artifact that a build has left.
    pub fn record(&mut self, record: ArtifactRecord, buildsets: &BuildsetTable) -> (r: Result<
        (),
        StoreError,
    >)
        requires
            old(self).wf(),
        ensures
            final(self).wf(),
            ({
                let infos = artifact_infos(old(self).rows@);
                &&& r is Ok <==> fits_sqlite(record.size) && is_taken_up(infos, record@)
                    && has_buildset(buildsets.rows@, record.buildset_id)
                &&& r is Ok ==> artifact_infos(final(self).rows@) == infos.push(record@)
                &&& r is Err ==> final(self).rows@ == old(self).rows@
                &&& r matches Err(error) ==> if fits_sqlite(record.size) {
                    error is Sql
                } else {
                    error == StoreError::ArtifactTooLarge(record.size)
                }
            }),
    {
        match artifact_size(record.size) {
            Ok(_) => {},
            Err(error) => {
                return Err(error);
            },
        }
        if !self.accepts(&record) {
            return Err(refused("UNIQUE constraint failed: artifacts"));
        }
        if !buildsets.holds(record.buildset_id) {
            return Err(refused("FOREIGN KEY constraint failed"));
        }
        self.add_row(record);
        Ok(())
    }

    /// The positions of the artifacts that are still kept, in the order of their places.
    pub fn retained_artifacts(&self) -> (r: Vec<usize>)
        ensures
            lists_retained(artifact_infos(self.rows@), r@),
    {
        let ghost infos = artifact_infos(self.rows@);
        let ghost pick = |i: usize| is_kept(infos[i as int]);
        let ghost before = |a: usize, b: usize|
            text_before(infos[a as int].retained_path, infos[b as int].retained_path);
        assert(orders(before)) by {
            assert forall|a: usize| !(#[trigger] before(a, a)) by {
                lemma_bytes_before_irreflexive(encode_utf8(infos[a as int].retained_path));
            }
            assert forall|a: usize, b: usize, c: usize|
                #[trigger] before(a, b) && #[trigger] before(b, c) implies before(a, c) by {
                lemma_bytes_before_transitive(
                    encode_utf8(infos[a as int].retained_path),
                    encode_utf8(infos[b as int].retained_path),
                    encode_utf8(infos[c as int].retained_path),
                );
            }
        }
        let mut listed: Vec<usize> = Vec::new();
        let mut i: usize = 0;
        while i < self.rows.len()
            invariant
                i <= self.rows@.len(),
                infos == artifact_infos(self.rows@),
                pick == (|i: usize| is_kept(infos[i as int])),
                before == (|a: usize, b: usize|
                    text_before(infos[a as int].retained_path, infos[b as int].retained_path)),
                orders(before),
                in_order(listed@, before),
                is_listing(listed@, i as nat, pick),
            decreases self.rows@.len() - i,
        {
            assert(infos[i as int] == self.rows@[i as int]@);
            let row = &self.rows[i];
            if str_equal(row.retention_state.as_str(), "retained") || str_equal(
                row.retention_state.as_str(),
                "pinned",
            ) {
                assert(pick(i));
                let mut at: usize = 0;
                let mut ahead = true;
                while at < listed.len() && ahead
                    invariant
                        at <= listed@.len(),
                        i < self.rows@.len(),
                        infos == artifact_infos(self.rows@),
                        infos[i as int] == row@,
                        before == (|a: usize, b: usize|
                            text_before(
                                infos[a as int].retained_path,
                                infos[b as int].retained_path,
                            )),
                        is_listing(listed@, i as nat, pick),
                        forall|k: int| 0 <= k < at ==> !before(i, #[trigger] listed@[k]),
                        !ahead ==> at < listed@.len() && before(i, listed@[at as int]),
                    decreases
                        listed@.len() - at + if ahead {
                            1int
                        } else {
                            0
                        },
                {
                    let other = &self.rows[listed[at]];
                    assert(infos[listed@[at as int] as int] == other@);
                    if order_str(row.retained_path.as_str(), other.retained_path.as_str())
                        == TextOrder::Before {
                        assert(before(i, listed@[at as int]));
                        ahead = false;
                    } else {
                        assert(!before(i, listed@[at as int]));
                        at += 1;
                    }
                }
                proof {
                    lemma_insert_in_order(listed@, at as int, i, before);
                    lemma_listing_grows(listed@, at as int, i, pick);
                }
                listed.insert(at, i);
            } else {
                assert(!pick(i));
            }
            i += 1;
        }
        listed
    }

    /// Checks that an artifact is in one of the expected states.
    pub fn check_change(&self, artifact_id: &str, expected: &Vec<String>) -> (r: Result<
        (),
        StoreError,
    >)
        ensures
            r is Ok <==> can_change(artifact_infos(self.rows@), artifact_id@, texts(expected@)),
            r matches Err(error) ==> error.broken(
                "artifact "@ + artifact_id@ + " was not in the expected retention state"@,
            ),
    {
        let ghost infos = artifact_infos(self.rows@);
        let mut i: usize = 0;
        while i < self.rows.len()
            invariant
                i <= self.rows@.len(),
                infos == artifact_infos(self.rows@),
                forall|j: int|
                    0 <= j < i ==> !((#[trigger] infos[j]).artifact_id == artifact_id@ && texts(
                        expected@,
                    ).contains(infos[j].retention_state)),
            decreases self.rows@.len() - i,
        {
            assert(infos[i as int] == self.rows@[i as int]@);
            if str_equal(self.rows[i].artifact_id.as_str(), artifact_id) && contains_text(
                expected,
                self.rows[i].retention_state.as_str(),
            ) {
                return Ok(());
            }
            i += 1;
        }
        Err(
            integrity(
                concat3(
                    "artifact ",
                    artifact_id,
                    " was not in the expected retention state",
                ).as_str(),
            ),
        )
    }

    /// Changes the state of an artifact that is in one of the expected states.
    pub fn change_state(&mut self, artifact_id: &str, expected: &Vec<String>, state: &str)
        requires
            old(self).wf(),
        ensures
            final(self).wf(),
            artifact_infos(final(self).rows@) == changed(
                artifact_infos(old(self).rows@),
                artifact_id@,
                texts(expected@),
                state@,
            ),
    {
        let ghost infos = artifact_infos(self.rows@);
        let ghost goal = changed(infos, artifact_id@, texts(expected@), state@);
        let mut i: usize = 0;
        while i < self.rows.len()
            invariant
                i <= self.rows@.len(),
                self.rows@.len() == infos.len(),
                infos == artifact_infos(old(self).rows@),
                goal == changed(infos, artifact_id@, texts(expected@), state@),
                forall|j: int| 0 <= j < i ==> (#[trigger] self.rows@[j])@ == goal[j],
                forall|j: int| i <= j < infos.len() ==> (#[trigger] self.rows@[j])@ == infos[j],
            decreases self.rows@.len() - i,
        {
            assert(self.rows@[i as int]@ == infos[i as int]);
            if str_equal(self.rows[i].artifact_id.as_str(), artifact_id) && contains_text(
                expected,
                self.rows[i].retention_state.as_str(),
            ) {
                self.rows[i].retention_state = state.to_owned();
                assert(self.rows@[i as int]@ =~= ArtifactInfo {
                    retention_state: state@,
                    ..infos[i as int]
                });
            }
            assert(self.rows@[i as int]@ == goal[i as int]);
            i += 1;
        }
        proof {
            let now = artifact_infos(self.rows@);
            assert(now =~= goal);
            assert forall|a: int, b: int| 0 <= a < b < now.len() implies !coincide(
                #[trigger] now[a],
                #[trigger] now[b],
            ) by {
                assert(!coincide(infos[a], infos[b]));
            }
        }
    }

    /// The artifact, if it is still kept.
    pub fn artifact(&self, artifact_id: &str) -> (r: Option<usize>)
        ensures
            match r {
                Some(i) => i < self.rows@.len() && self.rows@[i as int]@.artifact_id
                    == artifact_id@ && is_kept(self.rows@[i as int]@),
                None => forall|i: int|
                    0 <= i < self.rows@.len() ==> !((#[trigger] self.rows@[i])@.artifact_id
                        == artifact_id@ && is_kept(self.rows@[i]@)),
            },
    {
        let mut i: usize = 0;
        while i < self.rows.len()
            invariant
                i <= self.rows@.len(),
                forall|j: int|
                    0 <= j < i ==> !((#[trigger] self.rows@[j])@.artifact_id == artifact_id@
                        && is_kept(self.rows@[j]@)),
            decreases self.rows@.len() - i,
        {
            let row = &self.rows[i];
            if str_equal(row.artifact_id.as_str(), artifact_id) && (str_equal(
                row.retention_state.as_str(),
                "retained",
            ) || str_equal(row.retention_state.as_str(), "pinned")) {
                return Some(i);
            }
            i += 1;
        }
        None
    }

    /// The positions of the artifacts whose time has run out, in the order of their places.
    pub fn expired_artifacts(&self, now: Timestamp) -> (r: Vec<usize>)
        ensures
            lists_expired(artifact_infos(self.rows@), now, r@),
    {
        let ghost infos = artifact_infos(self.rows@);
        let ghost pick = |i: usize| is_expired(infos[i as int], now);
        let ghost kept = |i: usize| is_kept(infos[i as int]);
        let ghost before = |a: usize, b: usize|
            text_before(infos[a as int].retained_path, infos[b as int].retained_path);
        let all = self.retained_artifacts();
        let mut found: Vec<usize> = Vec::new();
        let ghost mut places: Seq<int> = Seq::empty();
        let mut i: usize = 0;
        while i < all.len()
            invariant
                i <= all@.len(),
                infos == artifact_infos(self.rows@),
                pick == (|i: usize| is_expired(infos[i as int], now)),
                kept == (|i: usize| is_kept(infos[i as int])),
                is_listing(all@, infos.len(), kept),
                places.len() == found@.len(),
                forall|k: int|
                    0 <= k < places.len() ==> 0 <= #[trigger] places[k] < i && found@[k]
                        == all@[places[k]] && pick(found@[k]),
                forall|k: int, l: int|
                    0 <= k < l < places.len() ==> #[trigger] places[k] < #[trigger] places[l],
                forall|k: int|
                    0 <= k < i && pick(#[trigger] all@[k]) ==> found@.contains(all@[k]),
            decreases all@.len() - i,
        {
            let ghost had = found@;
            assert(all@[i as int] < infos.len());
            let row = &self.rows[all[i]];
            assert(infos[all@[i as int] as int] == row@);
            if str_equal(row.retention_state.as_str(), "retained") && row.expires_at.unix_nanos
                <= now.unix_nanos {
                found.push(all[i]);
                proof {
                    places = places.push(i as int);
                    assert(found@[had.len() as int] == all@[i as int]);
                }
            }
            proof {
                assert forall|k: int| 0 <= k < i + 1 && pick(#[trigger] all@[k]) implies found@.contains(
                    all@[k],
                ) by {
                    if k < i {
                        let m = choose|m: int| 0 <= m < had.len() && had[m] == all@[k];
                        assert(found@[m] == all@[k]);
                    }
                }
            }
            i += 1;
        }
        proof {
            assert forall|k: int| 0 <= k < found@.len() implies (#[trigger] found@[k])
                < infos.len() && pick(found@[k]) by {
                assert(found@[k] == all@[places[k]]);
            }
            assert forall|k: int, l: int| 0 <= k < found@.len() && 0 <= l < found@.len() && k
                != l implies found@[k] != found@[l] by {
                assert(found@[k] == all@[places[k]] && found@[l] == all@[places[l]]);
                if k < l {
                    assert(places[k] < places[l]);
                } else {
                    assert(places[l] < places[k]);
                }
            }
            assert forall|n: usize| n < infos.len() && #[trigger] pick(
                n,
            ) implies found@.contains(n) by {
                assert(kept(n));
                assert(all@.contains(n));
                let k = choose|k: int| 0 <= k < all@.len() && all@[k] == n;
                assert(pick(all@[k]));
            }
            assert forall|k: int, l: int| 0 <= k < l < found@.len() implies !before(
                #[trigger] found@[l],
                #[trigger] found@[k],
            ) by {
                assert(places[k] < places[l]);
                assert(!before(all@[places[l]], all@[places[k]]));
            }
        }
        found
    }

    /// How much the artifacts take up that can be given up. A total that the database cannot
    /// hold is refused.
    pub fn retained_artifact_bytes(&self) -> (r: Option<u64>)
        ensures
            match r {
                Some(bytes) => bytes == retained_bytes(
                    artifact_infos(self.rows@),
                    self.rows@.len(),
                ),
                None => retained_bytes(artifact_infos(self.rows@), self.rows@.len()) > i64::MAX,
            },
            r is Some ==> r->Some_0 <= i64::MAX,
    {
        let ghost infos = artifact_infos(self.rows@);
        let mut sum: u64 = 0;
        let mut i: usize = 0;
        while i < self.rows.len()
            invariant
                i <= self.rows@.len(),
                infos == artifact_infos(self.rows@),
                sum == retained_bytes(infos, i as nat),
                sum <= i64::MAX,
            decreases self.rows@.len() - i,
        {
            assert(infos[i as int] == self.rows@[i as int]@);
            assert(retained_bytes(infos, (i + 1) as nat) == retained_bytes(infos, i as nat) + if infos[i as int].retention_state
                == "retained"@ {
                infos[i as int].size as nat
            } else {
                0
            });
            if str_equal(self.rows[i].retention_state.as_str(), "retained") {
                let size = self.rows[i].size;
                if size > 0x7fff_ffff_ffff_ffff - sum {
                    proof {
                        lemma_retained_grows(infos, (i + 1) as nat, infos.len());
                    }
                    return None;
                }
                sum = sum + size;
            }
            i += 1;
        }
        Some(sum)
    }
}

proof fn lemma_retained_grows(infos: Seq<ArtifactInfo>, m: nat, n: nat)
    requires
        m <= n,
    ensures
        retained_bytes(infos, m) <= retained_bytes(infos, n),
    decreases n,
{
    if m < n {
        lemma_retained_grows(infos, m, (n - 1) as nat);
    }
}

/// An artifact that is pinned never runs out of time.
pub proof fn law_pinned_artifacts_stay(info: ArtifactInfo, now: Timestamp)
    requires
        info.retention_state == "pinned"@,
    ensures
        is_kept(info),
        !is_expired(info, now),
{
    reveal_strlit("retained");
    reveal_strlit("pinned");
    assert("retained"@.len() != "pinned"@.len());
}

/// Offering the same artifacts again changes nothing.
pub proof fn law_artifacts_are_taken_up_once(
    infos: Seq<ArtifactInfo>,
    offered: Seq<ArtifactInfo>,
    i: int,
)
    requires
        0 <= i < offered.len(),
    ensures
        !is_taken_up(taken_up(infos, offered, offered.len()), offered[i]),
{
    lemma_not_taken_again(infos, offered, offered.len(), i);
}

proof fn lemma_not_taken_again(
    infos: Seq<ArtifactInfo>,
    offered: Seq<ArtifactInfo>,
    n: nat,
    i: int,
)
    requires
        0 <= i < n <= offered.len(),
    ensures
        !is_taken_up(taken_up(infos, offered, n), offered[i]),
    decreases n,
{
    let fewer = (n - 1) as nat;
    let had = taken_up(infos, offered, fewer);
    let now = taken_up(infos, offered, n);
    if i < fewer {
        lemma_not_taken_again(infos, offered, fewer, i);
        if is_retention_state(offered[i].retention_state) {
            let k = choose|k: int| 0 <= k < had.len() && coincide(#[trigger] had[k], offered[i]);
            assert(now[k] == had[k]);
            assert(coincide(now[k], offered[i]));
        }
    } else if is_taken_up(had, offered[i]) {
        assert(now[had.len() as int] == offered[i]);
        assert(coincide(now[had.len() as int], offered[i]));
    }
}

} // verus!
