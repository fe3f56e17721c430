//! Whether a store that was read from a database holds together.

use crate::artifact_table::ArtifactRecord;
#[allow(unused_imports)]
use crate::artifact_table::{artifact_infos, artifacts_sound, coincide};
use crate::buildset_table::{still_builds, BuildsetRow};
#[allow(unused_imports)]
use crate::buildset_table::{builds_compete, buildsets_sound, certificates_sound};
use crate::configuration_table::SnapshotRow;
#[allow(unused_imports)]
use crate::configuration_table::{snapshot_infos, snapshots_sound};
use crate::event::DomainEvent;
#[allow(unused_imports)]
use crate::event_table::{clashes, event_infos, events_sound};
use crate::generation_table::GenerationRow;
#[allow(unused_imports)]
use crate::generation_table::{counts_for, generations_sound};
use crate::item_table::ItemRow;
#[allow(unused_imports)]
use crate::item_table::{key_of, keys_of, keys_sound};
use crate::model::PassCertificate;
use crate::promotion_table::PromotionRow;
#[allow(unused_imports)]
use crate::promotion_table::{promotion_infos, promotions_sound};
use crate::repository_store::RepositoryStore;
use crate::repository_table::RepositoryRow;
#[allow(unused_imports)]
use crate::repository_table::repositories_sound;
use crate::result_table::ResultRow;
#[allow(unused_imports)]
use crate::result_table::{result_infos, results_sound};
use crate::seed_table::SeedRecord;
#[allow(unused_imports)]
use crate::seed_table::{seed_infos, seeds_clash, seeds_sound};
use crate::text::str_equal;
#[allow(unused_imports)]
use crate::volume_table::{reservations_sound, reserves, volumes_sound};
use crate::volume_table::{ReservationRow, VolumeRow};
use vstd::prelude::*;

verus! {

spec fn repositories_apart(a: RepositoryRow, b: RepositoryRow) -> bool {
    a.state.id != b.state.id
}

fn repositories_fit(rows: &Vec<RepositoryRow>) -> (r: bool)
    ensures
        r == repositories_sound(rows@),
{
    let mut i: usize = 0;
    while i < rows.len()
        invariant
            i <= rows@.len(),
            forall|j: int, k: int|
                0 <= j < k < i ==> repositories_apart(#[trigger] rows@[j], #[trigger] rows@[k]),
            forall|j: int| 0 <= j < i ==> (#[trigger] rows@[j]).queue_revision <= i64::MAX && rows@[j].event_sequence <= i64::MAX,
        decreases rows@.len() - i,
    {
        let row = &rows[i];
        if !(row.queue_revision <= 0x7fff_ffff_ffff_ffff && row.event_sequence <= 0x7fff_ffff_ffff_ffff) {
            return false;
        }
        let mut j: usize = 0;
        while j < i
            invariant
                j <= i < rows@.len(),
                forall|k: int| 0 <= k < j ==> repositories_apart(#[trigger] rows@[k], rows@[i as int]),
            decreases i - j,
        {
            let (x, y) = (&rows[j], &rows[i]);
            if x.state.id.0 == y.state.id.0 {
                assert(!repositories_apart(rows@[j as int], rows@[i as int]));
                return false;
            }
            j += 1;
        }
        i += 1;
    }
    true
}

spec fn items_apart(a: ItemRow, b: ItemRow) -> bool {
    a.item.id != b.item.id && !(a.repository_id == b.repository_id && a.number == b.number)
}

fn items_fit(rows: &Vec<ItemRow>) -> (r: bool)
    ensures
        r == keys_sound(keys_of(rows@)),
{
    let mut i: usize = 0;
    while i < rows.len()
        invariant
            i <= rows@.len(),
            forall|j: int, k: int|
                0 <= j < k < i ==> items_apart(#[trigger] rows@[j], #[trigger] rows@[k]),
        decreases rows@.len() - i,
    {
        let mut j: usize = 0;
        while j < i
            invariant
                j <= i < rows@.len(),
                forall|k: int| 0 <= k < j ==> items_apart(#[trigger] rows@[k], rows@[i as int]),
            decreases i - j,
        {
            let (x, y) = (&rows[j], &rows[i]);
            if x.item.id.0 == y.item.id.0 || (x.repository_id.0 == y.repository_id.0 && x.number == y.number) {
                proof {
                    let infos = keys_of(rows@);
                    assert(infos[j as int] == key_of(rows@[j as int]));
                    assert(infos[i as int] == key_of(rows@[i as int]));
                    assert(!items_apart(rows@[j as int], rows@[i as int]));
                }
                return false;
            }
            j += 1;
        }
        i += 1;
    }
    true
}

spec fn generations_apart(a: GenerationRow, b: GenerationRow) -> bool {
    a.generation.id != b.generation.id && !(counts_for(a, b.generation.item_id) && b.current)
}

fn generations_fit(rows: &Vec<GenerationRow>) -> (r: bool)
    ensures
        r == generations_sound(rows@),
{
    let mut i: usize = 0;
    while i < rows.len()
        invariant
            i <= rows@.len(),
            forall|j: int, k: int|
                0 <= j < k < i ==> generations_apart(#[trigger] rows@[j], #[trigger] rows@[k]),
        decreases rows@.len() - i,
    {
        let mut j: usize = 0;
        while j < i
            invariant
                j <= i < rows@.len(),
                forall|k: int| 0 <= k < j ==> generations_apart(#[trigger] rows@[k], rows@[i as int]),
            decreases i - j,
        {
            let (x, y) = (&rows[j], &rows[i]);
            if x.generation.id.0 == y.generation.id.0 || (x.current && y.current && x.generation.item_id.0 == y.generation.item_id.0) {
                assert(!generations_apart(rows@[j as int], rows@[i as int]));
                return false;
            }
            j += 1;
        }
        i += 1;
    }
    true
}

spec fn volumes_apart(a: VolumeRow, b: VolumeRow) -> bool {
    a.volume_id@ != b.volume_id@
}

fn volumes_fit(rows: &Vec<VolumeRow>) -> (r: bool)
    ensures
        r == volumes_sound(rows@),
{
    let mut i: usize = 0;
    while i < rows.len()
        invariant
            i <= rows@.len(),
            forall|j: int, k: int|
                0 <= j < k < i ==> volumes_apart(#[trigger] rows@[j], #[trigger] rows@[k]),
        decreases rows@.len() - i,
    {
        let mut j: usize = 0;
        while j < i
            invariant
                j <= i < rows@.len(),
                forall|k: int| 0 <= k < j ==> volumes_apart(#[trigger] rows@[k], rows@[i as int]),
            decreases i - j,
        {
            let (x, y) = (&rows[j], &rows[i]);
            if str_equal(x.volume_id.as_str(), y.volume_id.as_str()) {
                assert(!volumes_apart(rows@[j as int], rows@[i as int]));
                return false;
            }
            j += 1;
        }
        i += 1;
    }
    true
}

spec fn reservations_apart(a: ReservationRow, b: ReservationRow) -> bool {
    !reserves(a, b.command_id, b.volume_id@)
}

fn reservations_fit(rows: &Vec<ReservationRow>) -> (r: bool)
    ensures
        r == reservations_sound(rows@),
{
    let mut i: usize = 0;
    while i < rows.len()
        invariant
            i <= rows@.len(),
            forall|j: int, k: int|
                0 <= j < k < i ==> reservations_apart(#[trigger] rows@[j], #[trigger] rows@[k]),
            forall|j: int| 0 <= j < i ==> (#[trigger] rows@[j]).allowance >= 0,
        decreases rows@.len() - i,
    {
        let row = &rows[i];
        if !(row.allowance >= 0) {
            return false;
        }
        let mut j: usize = 0;
        while j < i
            invariant
                j <= i < rows@.len(),
                forall|k: int| 0 <= k < j ==> reservations_apart(#[trigger] rows@[k], rows@[i as int]),
            decreases i - j,
        {
            let (x, y) = (&rows[j], &rows[i]);
            if x.command_id.0 == y.command_id.0 && str_equal(x.volume_id.as_str(), y.volume_id.as_str()) {
                assert(!reservations_apart(rows@[j as int], rows@[i as int]));
                return false;
            }
            j += 1;
        }
        i += 1;
    }
    true
}

spec fn events_apart(a: DomainEvent, b: DomainEvent) -> bool {
    !clashes(a@, b@.repository_id, b@.sequence, b@.id)
}

fn events_fit(rows: &Vec<DomainEvent>) -> (r: bool)
    ensures
        r == events_sound(event_infos(rows@)),
{
    let mut i: usize = 0;
    while i < rows.len()
        invariant
            i <= rows@.len(),
            forall|j: int, k: int|
                0 <= j < k < i ==> events_apart(#[trigger] rows@[j], #[trigger] rows@[k]),
        decreases rows@.len() - i,
    {
        let mut j: usize = 0;
        while j < i
            invariant
                j <= i < rows@.len(),
                forall|k: int| 0 <= k < j ==> events_apart(#[trigger] rows@[k], rows@[i as int]),
            decreases i - j,
        {
            let (x, y) = (&rows[j], &rows[i]);
            if x.id.0 == y.id.0 || (x.repository_id.0 == y.repository_id.0 && x.sequence == y.sequence) {
                proof {
                    let infos = event_infos(rows@);
                    assert(infos[j as int] == rows@[j as int]@);
                    assert(infos[i as int] == rows@[i as int]@);
                    assert(!events_apart(rows@[j as int], rows@[i as int]));
                }
                return false;
            }
            j += 1;
        }
        i += 1;
    }
    true
}

spec fn results_apart(a: ResultRow, b: ResultRow) -> bool {
    a@.command_id != b@.command_id
}

fn results_fit(rows: &Vec<ResultRow>) -> (r: bool)
    ensures
        r == results_sound(result_infos(rows@)),
{
    let mut i: usize = 0;
    while i < rows.len()
        invariant
            i <= rows@.len(),
            forall|j: int, k: int|
                0 <= j < k < i ==> results_apart(#[trigger] rows@[j], #[trigger] rows@[k]),
        decreases rows@.len() - i,
    {
        let mut j: usize = 0;
        while j < i
            invariant
                j <= i < rows@.len(),
                forall|k: int| 0 <= k < j ==> results_apart(#[trigger] rows@[k], rows@[i as int]),
            decreases i - j,
        {
            let (x, y) = (&rows[j], &rows[i]);
            if x.command_id.0 == y.command_id.0 {
                proof {
                    let infos = result_infos(rows@);
                    assert(infos[j as int] == rows@[j as int]@);
                    assert(infos[i as int] == rows@[i as int]@);
                    assert(!results_apart(rows@[j as int], rows@[i as int]));
                }
                return false;
            }
            j += 1;
        }
        i += 1;
    }
    true
}

spec fn artifacts_apart(a: ArtifactRecord, b: ArtifactRecord) -> bool {
    !coincide(a@, b@)
}

fn artifacts_fit(rows: &Vec<ArtifactRecord>) -> (r: bool)
    ensures
        r == artifacts_sound(artifact_infos(rows@)),
{
    let mut i: usize = 0;
    while i < rows.len()
        invariant
            i <= rows@.len(),
            forall|j: int, k: int|
                0 <= j < k < i ==> artifacts_apart(#[trigger] rows@[j], #[trigger] rows@[k]),
        decreases rows@.len() - i,
    {
        let mut j: usize = 0;
        while j < i
            invariant
                j <= i < rows@.len(),
                forall|k: int| 0 <= k < j ==> artifacts_apart(#[trigger] rows@[k], rows@[i as int]),
            decreases i - j,
        {
            let (x, y) = (&rows[j], &rows[i]);
            if str_equal(x.artifact_id.as_str(), y.artifact_id.as_str()) || (x.buildset_id.0 == y.buildset_id.0 && str_equal(x.retained_path.as_str(), y.retained_path.as_str())) {
                proof {
                    let infos = artifact_infos(rows@);
                    assert(infos[j as int] == rows@[j as int]@);
                    assert(infos[i as int] == rows@[i as int]@);
                    assert(!artifacts_apart(rows@[j as int], rows@[i as int]));
                }
                return false;
            }
            j += 1;
        }
        i += 1;
    }
    true
}

spec fn seeds_apart(a: SeedRecord, b: SeedRecord) -> bool {
    !seeds_clash(a@, b@)
}

fn seeds_fit(rows: &Vec<SeedRecord>) -> (r: bool)
    ensures
        r == seeds_sound(seed_infos(rows@)),
{
    let mut i: usize = 0;
    while i < rows.len()
        invariant
            i <= rows@.len(),
            forall|j: int, k: int|
                0 <= j < k < i ==> seeds_apart(#[trigger] rows@[j], #[trigger] rows@[k]),
        decreases rows@.len() - i,
    {
        let mut j: usize = 0;
        while j < i
            invariant
                j <= i < rows@.len(),
                forall|k: int| 0 <= k < j ==> seeds_apart(#[trigger] rows@[k], rows@[i as int]),
            decreases i - j,
        {
            let (x, y) = (&rows[j], &rows[i]);
            if str_equal(x.id.as_str(), y.id.as_str()) || (x.repository_id.0 == y.repository_id.0 && str_equal(x.profile.as_str(), y.profile.as_str()) && x.generation == y.generation) {
                proof {
                    let infos = seed_infos(rows@);
                    assert(infos[j as int] == rows@[j as int]@);
                    assert(infos[i as int] == rows@[i as int]@);
                    assert(!seeds_apart(rows@[j as int], rows@[i as int]));
                }
                return false;
            }
            j += 1;
        }
        i += 1;
    }
    true
}

spec fn buildsets_apart(a: BuildsetRow, b: BuildsetRow) -> bool {
    a.id != b.id && !builds_compete(a, b)
}

fn buildsets_fit(rows: &Vec<BuildsetRow>) -> (r: bool)
    ensures
        r == buildsets_sound(rows@),
{
    let mut i: usize = 0;
    while i < rows.len()
        invariant
            i <= rows@.len(),
            forall|j: int, k: int|
                0 <= j < k < i ==> buildsets_apart(#[trigger] rows@[j], #[trigger] rows@[k]),
        decreases rows@.len() - i,
    {
        let mut j: usize = 0;
        while j < i
            invariant
                j <= i < rows@.len(),
                forall|k: int| 0 <= k < j ==> buildsets_apart(#[trigger] rows@[k], rows@[i as int]),
            decreases i - j,
        {
            let (x, y) = (&rows[j], &rows[i]);
            if x.id.0 == y.id.0 || (x.generation_id.0 == y.generation_id.0 && still_builds(x.buildset.state) && still_builds(y.buildset.state)) {
                assert(!buildsets_apart(rows@[j as int], rows@[i as int]));
                return false;
            }
            j += 1;
        }
        i += 1;
    }
    true
}

spec fn certificates_apart(a: PassCertificate, b: PassCertificate) -> bool {
    a.id != b.id && a.buildset_id != b.buildset_id
}

fn certificates_fit(rows: &Vec<PassCertificate>) -> (r: bool)
    ensures
        r == certificates_sound(rows@),
{
    let mut i: usize = 0;
    while i < rows.len()
        invariant
            i <= rows@.len(),
            forall|j: int, k: int|
                0 <= j < k < i ==> certificates_apart(#[trigger] rows@[j], #[trigger] rows@[k]),
        decreases rows@.len() - i,
    {
        let mut j: usize = 0;
        while j < i
            invariant
                j <= i < rows@.len(),
                forall|k: int| 0 <= k < j ==> certificates_apart(#[trigger] rows@[k], rows@[i as int]),
            decreases i - j,
        {
            let (x, y) = (&rows[j], &rows[i]);
            if x.id.0 == y.id.0 || x.buildset_id.0 == y.buildset_id.0 {
                assert(!certificates_apart(rows@[j as int], rows@[i as int]));
                return false;
            }
            j += 1;
        }
        i += 1;
    }
    true
}

spec fn promotions_apart(a: PromotionRow, b: PromotionRow) -> bool {
    a@.item_id != b@.item_id
}

fn promotions_fit(rows: &Vec<PromotionRow>) -> (r: bool)
    ensures
        r == promotions_sound(promotion_infos(rows@)),
{
    let mut i: usize = 0;
    while i < rows.len()
        invariant
            i <= rows@.len(),
            forall|j: int, k: int|
                0 <= j < k < i ==> promotions_apart(#[trigger] rows@[j], #[trigger] rows@[k]),
        decreases rows@.len() - i,
    {
        let mut j: usize = 0;
        while j < i
            invariant
                j <= i < rows@.len(),
                forall|k: int| 0 <= k < j ==> promotions_apart(#[trigger] rows@[k], rows@[i as int]),
            decreases i - j,
        {
            let (x, y) = (&rows[j], &rows[i]);
            if x.item_id.0 == y.item_id.0 {
                proof {
                    let infos = promotion_infos(rows@);
                    assert(infos[j as int] == rows@[j as int]@);
                    assert(infos[i as int] == rows@[i as int]@);
                    assert(!promotions_apart(rows@[j as int], rows@[i as int]));
                }
                return false;
            }
            j += 1;
        }
        i += 1;
    }
    true
}

spec fn configurations_apart(a: SnapshotRow, b: SnapshotRow) -> bool {
    a@.digest != b@.digest
}

fn configurations_fit(rows: &Vec<SnapshotRow>) -> (r: bool)
    ensures
        r == snapshots_sound(snapshot_infos(rows@)),
{
    let mut i: usize = 0;
    while i < rows.len()
        invariant
            i <= rows@.len(),
            forall|j: int, k: int|
                0 <= j < k < i ==> configurations_apart(#[trigger] rows@[j], #[trigger] rows@[k]),
        decreases rows@.len() - i,
    {
        let mut j: usize = 0;
        while j < i
            invariant
                j <= i < rows@.len(),
                forall|k: int| 0 <= k < j ==> configurations_apart(#[trigger] rows@[k], rows@[i as int]),
            decreases i - j,
        {
            let (x, y) = (&rows[j], &rows[i]);
            if str_equal(x.digest.as_str(), y.digest.as_str()) {
                proof {
                    let infos = snapshot_infos(rows@);
                    assert(infos[j as int] == rows@[j as int]@);
                    assert(infos[i as int] == rows@[i as int]@);
                    assert(!configurations_apart(rows@[j as int], rows@[i as int]));
                }
                return false;
            }
            j += 1;
        }
        i += 1;
    }
    true
}

impl RepositoryStore {
    /// Whether the store holds together.
    pub fn fits_together(&self) -> (r: bool)
        ensures
            r == self.wf(),
    {
        repositories_fit(&self.repositories.rows)
            && items_fit(&self.items.rows)
            && generations_fit(&self.generations.rows)
            && volumes_fit(&self.volumes.volumes)
            && reservations_fit(&self.volumes.reservations)
            && events_fit(&self.events.rows)
            && results_fit(&self.results.rows)
            && artifacts_fit(&self.artifacts.rows)
            && seeds_fit(&self.seeds.rows)
            && buildsets_fit(&self.buildsets.rows)
            && certificates_fit(&self.certificates.rows)
            && promotions_fit(&self.promotions.rows)
            && configurations_fit(&self.configurations.rows)
    }
}

} // verus!
