//! The tables of builds and of the certificates that they have earned.

use crate::ids::{BuildsetId, CertificateId, ValidationGenerationId};
use crate::model::{Buildset, PassCertificate};
use crate::state::BuildsetState;
use crate::store::{refused, StoreError};
use vstd::prelude::*;

verus! {

/// A build; its validation is the one that it was begun for.
#[derive(Clone, Debug, PartialEq, Eq)]
pub struct BuildsetRow {
    pub id: BuildsetId,
    pub generation_id: ValidationGenerationId,
    pub buildset: Buildset,
}

/// The build is not over.
pub open spec fn is_building(state: BuildsetState) -> bool {
    state == BuildsetState::Pending || state == BuildsetState::Preparing || state
        == BuildsetState::Running
}

/// Whether the build is not over.
pub fn still_builds(state: BuildsetState) -> (r: bool)
    ensures
        r == is_building(state),
{
    match state {
        BuildsetState::Pending | BuildsetState::Preparing | BuildsetState::Running => true,
        _ => false,
    }
}

/// There is a row of the build.
pub open spec fn has_buildset(rows: Seq<BuildsetRow>, id: BuildsetId) -> bool {
    exists|i: int| 0 <= i < rows.len() && (#[trigger] rows[i]).id == id
}

/// Both builds are of one validation and not over.
pub open spec fn builds_compete(a: BuildsetRow, b: BuildsetRow) -> bool {
    a.generation_id == b.generation_id && is_building(a.buildset.state) && is_building(
        b.buildset.state,
    )
}

/// No two rows are of the same build, and a validation has one build under way at most.
pub open spec fn buildsets_sound(rows: Seq<BuildsetRow>) -> bool {
    forall|i: int, j: int|
        0 <= i < j < rows.len() ==> (#[trigger] rows[i]).id != (#[trigger] rows[j]).id
            && !builds_compete(rows[i], rows[j])
}

/// The row of a new build.
pub open spec fn build_row(buildset: Buildset) -> BuildsetRow {
    BuildsetRow {
        id: buildset.id,
        generation_id: buildset.validation_generation_id,
        buildset,
    }
}

/// The build can be taken up.
pub open spec fn can_build(rows: Seq<BuildsetRow>, buildset: Buildset) -> bool {
    &&& !has_buildset(rows, buildset.id)
    &&& forall|i: int|
        0 <= i < rows.len() ==> !builds_compete(#[trigger] rows[i], build_row(buildset))
    &&& buildset.retry_of matches Some(of) ==> of == buildset.id || has_buildset(rows, of)
}

/// The row after its build has come to another state.
pub open spec fn rebuilt_row(row: BuildsetRow, buildset: Buildset) -> BuildsetRow {
    if row.id == buildset.id {
        BuildsetRow { buildset, ..row }
    } else {
        row
    }
}

/// The rows after a build has come to another state.
pub open spec fn rebuilt(rows: Seq<BuildsetRow>, buildset: Buildset) -> Seq<BuildsetRow> {
    rows.map_values(|row: BuildsetRow| rebuilt_row(row, buildset))
}

/// No other build of its validation stands in the way of the build.
pub open spec fn can_rebuild(rows: Seq<BuildsetRow>, buildset: Buildset) -> bool {
    buildsets_sound(rebuilt(rows, buildset))
}

/// The table of builds, the oldest first.
#[derive(Clone, Debug, PartialEq, Eq)]
pub struct BuildsetTable {
    pub rows: Vec<BuildsetRow>,
}

impl BuildsetTable {
    /// The table holds together.
    pub open spec fn wf(self) -> bool {
        buildsets_sound(self.rows@)
    }

    /// An empty table.
    pub fn new() -> (r: BuildsetTable)
        ensures
            r.wf(),
            r.rows@.len() == 0,
    {
        BuildsetTable { rows: Vec::new() }
    }

    fn position(&self, id: BuildsetId) -> (r: Option<usize>)
        ensures
            match r {
                Some(i) => i < self.rows@.len() && self.rows@[i as int].id == id,
                None => !has_buildset(self.rows@, id),
            },
    {
        let mut i: usize = 0;
        while i < self.rows.len()
            invariant
                i <= self.rows@.len(),
                forall|j: int| 0 <= j < i ==> (#[trigger] self.rows@[j]).id != id,
            decreases self.rows@.len() - i,
        {
            if self.rows[i].id.0 == id.0 {
                return Some(i);
            }
            i += 1;
        }
        None
    }

    /// Whether there is a row of a build.
    pub fn holds(&self, id: BuildsetId) -> (r: bool)
        ensures
            r == has_buildset(self.rows@, id),
    {
        match self.position(id) {
            Some(_) => true,
            None => false,
        }
    }

    /// Whether a validation has a build under way, but for one row.
    fn is_under_way(&self, generation: ValidationGenerationId, but: usize) -> (r: bool)
        ensures
            r <==> exists|i: int|
                0 <= i < self.rows@.len() && i != but && (#[trigger] self.rows@[i]).generation_id
                    == generation && is_building(self.rows@[i].buildset.state),
    {
        let mut i: usize = 0;
        while i < self.rows.len()
            invariant
                i <= self.rows@.len(),
                forall|j: int|
                    0 <= j < i && j != but ==> !((#[trigger] self.rows@[j]).generation_id
                        == generation && is_building(self.rows@[j].buildset.state)),
            decreases self.rows@.len() - i,
        {
            if i != but && self.rows[i].generation_id.0 == generation.0 && still_builds(
                self.rows[i].buildset.state,
            ) {
                return true;
            }
            i += 1;
        }
        false
    }

    /// Takes up a build.
    pub fn insert(&mut self, buildset: Buildset) -> (r: Result<(), StoreError>)
        requires
            old(self).wf(),
        ensures
            final(self).wf(),
            r is Ok <==> can_build(old(self).rows@, buildset),
            r is Ok ==> final(self).rows@ == old(self).rows@.push(build_row(buildset)),
            r is Err ==> final(self).rows@ == old(self).rows@,
            r matches Err(error) ==> error is Sql,
    {
        if self.holds(buildset.id) {
            return Err(refused("UNIQUE constraint failed: buildsets.buildset_id"));
        }
        let none: usize = self.rows.len();
        if still_builds(buildset.state) && self.is_under_way(
            buildset.validation_generation_id,
            none,
        ) {
            proof {
                let i = choose|i: int|
                    0 <= i < self.rows@.len() && i != none && (
                    #[trigger] self.rows@[i]).generation_id == buildset.validation_generation_id
                        && is_building(self.rows@[i].buildset.state);
                assert(builds_compete(self.rows@[i], build_row(buildset)));
            }
            return Err(refused("UNIQUE constraint failed: buildsets.generation_id"));
        }
        if let Some(of) = buildset.retry_of {
            if of.0 != buildset.id.0 && !self.holds(of) {
                return Err(refused("FOREIGN KEY constraint failed"));
            }
        }
        let ghost had = self.rows@;
        self.rows.push(
            BuildsetRow {
                id: buildset.id,
                generation_id: buildset.validation_generation_id,
                buildset,
            },
        );
        proof {
            let now = self.rows@;
            assert forall|i: int, j: int| 0 <= i < j < now.len() implies (#[trigger] now[i]).id != (
            #[trigger] now[j]).id && !builds_compete(now[i], now[j]) by {
                assert(now[i] == had[i]);
                if j < had.len() {
                    assert(now[j] == had[j]);
                }
            }
        }
        Ok(())
    }

    /// Writes down the state that a build has come to. A build that is not known is left
    /// out.
    pub fn update(&mut self, buildset: Buildset) -> (r: Result<(), StoreError>)
        requires
            old(self).wf(),
        ensures
            final(self).wf(),
            r is Ok <==> can_rebuild(old(self).rows@, buildset),
            r is Ok ==> final(self).rows@ == rebuilt(old(self).rows@, buildset),
            r is Err ==> final(self).rows@ == old(self).rows@,
            r matches Err(error) ==> error is Sql,
    {
        let ghost had = self.rows@;
        let ghost goal = rebuilt(had, buildset);
        let at: usize = match self.position(buildset.id) {
            Some(at) => at,
            None => {
                assert(goal =~= had);
                return Ok(());
            },
        };
        assert forall|k: int| 0 <= k < had.len() && k != at implies (#[trigger] had[k]).id
            != buildset.id by {
            if k < at {
                assert(had[k].id != had[at as int].id);
            } else {
                assert(had[at as int].id != had[k].id);
            }
        }
        let generation = self.rows[at].generation_id;
        if still_builds(buildset.state) && self.is_under_way(generation, at) {
            proof {
                let i = choose|i: int|
                    0 <= i < had.len() && i != at && (#[trigger] had[i]).generation_id
                        == generation && is_building(had[i].buildset.state);
                assert(goal[i] == had[i]);
                assert(goal[at as int].generation_id == generation);
                assert(goal[at as int].buildset == buildset);
                if i < at {
                    assert(builds_compete(goal[i], goal[at as int]));
                } else {
                    assert(builds_compete(goal[at as int], goal[i]));
                }
            }
            return Err(refused("UNIQUE constraint failed: buildsets.generation_id"));
        }
        self.rows[at].buildset = buildset;
        proof {
            assert(self.rows@ =~= goal);
            assert forall|i: int, j: int| 0 <= i < j < goal.len() implies (
            #[trigger] goal[i]).id != (#[trigger] goal[j]).id && !builds_compete(
                goal[i],
                goal[j],
            ) by {
                assert(had[i].id != had[j].id && !builds_compete(had[i], had[j]));
                assert(i != at ==> goal[i] == had[i]);
                assert(j != at ==> goal[j] == had[j]);
            }
        }
        Ok(())
    }

    /// The builds, the newest first.
    pub fn newest_first(&self) -> (r: Vec<&Buildset>)
        ensures
            r@.len() == self.rows@.len(),
            forall|k: int|
                0 <= k < r@.len() ==> *(#[trigger] r@[k]) == self.rows@[self.rows@.len() - 1
                    - k].buildset,
    {
        let mut list: Vec<&Buildset> = Vec::new();
        let mut i: usize = self.rows.len();
        while i > 0
            invariant
                i <= self.rows@.len(),
                list@.len() == self.rows@.len() - i,
                forall|k: int|
                    0 <= k < list@.len() ==> *(#[trigger] list@[k]) == self.rows@[self.rows@.len()
                        - 1 - k].buildset,
            decreases i,
        {
            i -= 1;
            list.push(&self.rows[i].buildset);
        }
        list
    }
}

/// There is a row of the certificate.
pub open spec fn has_certificate(rows: Seq<PassCertificate>, id: CertificateId) -> bool {
    exists|i: int| 0 <= i < rows.len() && (#[trigger] rows[i]).id == id
}

/// The certificate is another one, and of another build.
pub open spec fn can_certify(rows: Seq<PassCertificate>, certificate: PassCertificate) -> bool {
    forall|i: int|
        0 <= i < rows.len() ==> (#[trigger] rows[i]).id != certificate.id && rows[i].buildset_id
            != certificate.buildset_id
}

/// No two certificates are the same, or of the same build.
pub open spec fn certificates_sound(rows: Seq<PassCertificate>) -> bool {
    forall|i: int, j: int|
        0 <= i < j < rows.len() ==> (#[trigger] rows[i]).id != (#[trigger] rows[j]).id
            && rows[i].buildset_id != rows[j].buildset_id
}

/// The table of certificates, the oldest first.
#[derive(Clone, Debug, PartialEq, Eq)]
pub struct CertificateTable {
    pub rows: Vec<PassCertificate>,
}

impl CertificateTable {
    /// The table holds together.
    pub open spec fn wf(self) -> bool {
        certificates_sound(self.rows@)
    }

    /// An empty table.
    pub fn new() -> (r: CertificateTable)
        ensures
            r.wf(),
            r.rows@.len() == 0,
    {
        CertificateTable { rows: Vec::new() }
    }

    /// Whether there is a row of a certificate.
    pub fn holds(&self, id: CertificateId) -> (r: bool)
        ensures
            r == has_certificate(self.rows@, id),
    {
        let mut i: usize = 0;
        while i < self.rows.len()
            invariant
                i <= self.rows@.len(),
                forall|j: int| 0 <= j < i ==> (#[trigger] self.rows@[j]).id != id,
            decreases self.rows@.len() - i,
        {
            if self.rows[i].id.0 == id.0 {
                return true;
            }
            i += 1;
        }
        false
    }

    /// Takes up a certificate.
    pub fn insert(&mut self, certificate: PassCertificate) -> (r: Result<(), StoreError>)
        requires
            old(self).wf(),
        ensures
            final(self).wf(),
            r is Ok <==> can_certify(old(self).rows@, certificate),
            r is Ok ==> final(self).rows@ == old(self).rows@.push(certificate),
            r is Err ==> final(self).rows@ == old(self).rows@,
            r matches Err(error) ==> error is Sql,
    {
        let mut i: usize = 0;
        while i < self.rows.len()
            invariant
                i <= self.rows@.len(),
                self.rows@ == old(self).rows@,
                self.wf(),
                forall|j: int|
                    0 <= j < i ==> (#[trigger] self.rows@[j]).id != certificate.id
                        && self.rows@[j].buildset_id != certificate.buildset_id,
            decreases self.rows@.len() - i,
        {
            if self.rows[i].id.0 == certificate.id.0 || self.rows[i].buildset_id.0
                == certificate.buildset_id.0 {
                return Err(refused("UNIQUE constraint failed: pass_certificates"));
            }
            i += 1;
        }
        self.rows.push(certificate);
        Ok(())
    }
}

/// A validation that has a build under way is not built once more.
pub proof fn law_a_validation_is_built_once_at_a_time(rows: Seq<BuildsetRow>, buildset: Buildset)
    requires
        is_building(buildset.state),
        exists|i: int|
            0 <= i < rows.len() && (#[trigger] rows[i]).generation_id
                == buildset.validation_generation_id && is_building(rows[i].buildset.state),
    ensures
        !can_build(rows, buildset),
{
    let i = choose|i: int|
        0 <= i < rows.len() && (#[trigger] rows[i]).generation_id
            == buildset.validation_generation_id && is_building(rows[i].buildset.state);
    assert(builds_compete(rows[i], build_row(buildset)));
}

} // verus!
