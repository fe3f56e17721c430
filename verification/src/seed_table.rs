//! The table of seeds: prepared directories from which slots are cloned.

use crate::document::Document;
#[allow(unused_imports)]
use crate::document::Tree;
use crate::ids::RepositoryId;
use crate::outside::{hash_hex, json_value, write_json};
#[allow(unused_imports)]
use crate::outside::{blake3_hex, json_written};
#[allow(unused_imports)]
use crate::seqs::{in_order, is_listing, lemma_insert_in_order, lemma_listing_grows, orders};
use crate::store::{artifact_size, integrity, refused, to_sqlite, StoreError};
#[allow(unused_imports)]
use crate::store::fits_sqlite;
use crate::text::{concat3, str_equal};
use vstd::prelude::*;

verus! {

/// A seed.
#[derive(Debug, PartialEq, Eq)]
pub struct SeedRecord {
    pub id: String,
    pub repository_id: RepositoryId,
    pub profile: String,
    pub generation: u64,
    pub path: String,
    pub logical_size: u64,
    pub state: String,
    pub manifest: Document,
}

/// What is known of a seed.
#[verifier::ext_equal]
pub struct SeedInfo {
    pub id: Seq<char>,
    pub repository_id: RepositoryId,
    pub profile: Seq<char>,
    pub generation: u64,
    pub path: Seq<char>,
    pub logical_size: u64,
    pub state: Seq<char>,
    pub manifest: Tree,
}

impl View for SeedRecord {
    type V = SeedInfo;

    open spec fn view(&self) -> SeedInfo {
        SeedInfo {
            id: self.id@,
            repository_id: self.repository_id,
            profile: self.profile@,
            generation: self.generation,
            path: self.path@,
            logical_size: self.logical_size,
            state: self.state@,
            manifest: self.manifest@,
        }
    }
}

/// What is known of the seeds.
pub open spec fn seed_infos(rows: Seq<SeedRecord>) -> Seq<SeedInfo> {
    rows.map_values(|row: SeedRecord| row@)
}

/// The two records say the same of a seed.
pub open spec fn same_seed(a: SeedInfo, b: SeedInfo) -> bool {
    &&& a.id == b.id
    &&& a.repository_id == b.repository_id
    &&& a.profile == b.profile
    &&& a.generation == b.generation
    &&& a.path == b.path
    &&& a.logical_size == b.logical_size
    &&& a.state == b.state
    &&& a.manifest.same_contents(b.manifest)
}

/// The row of a seed.
pub open spec fn seed_at(infos: Seq<SeedInfo>, i: int, id: Seq<char>) -> bool {
    0 <= i < infos.len() && infos[i].id == id
}

/// There is a row of the seed.
pub open spec fn has_seed(infos: Seq<SeedInfo>, id: Seq<char>) -> bool {
    exists|i: int| seed_at(infos, i, id)
}

/// The row of the seed.
pub open spec fn seed_of(infos: Seq<SeedInfo>, id: Seq<char>) -> SeedInfo {
    infos[choose|i: int| seed_at(infos, i, id)]
}

/// The two cannot both be recorded: they are of the same name, or of the same generation.
pub open spec fn seeds_clash(a: SeedInfo, b: SeedInfo) -> bool {
    a.id == b.id || (a.repository_id == b.repository_id && a.profile == b.profile && a.generation
        == b.generation)
}

/// No two seeds clash.
pub open spec fn seeds_sound(infos: Seq<SeedInfo>) -> bool {
    forall|i: int, j: int|
        0 <= i < j < infos.len() ==> !seeds_clash(#[trigger] infos[i], #[trigger] infos[j])
}

/// A new seed can be recorded.
pub open spec fn can_record(infos: Seq<SeedInfo>, info: SeedInfo) -> bool {
    forall|i: int| 0 <= i < infos.len() ==> !seeds_clash(#[trigger] infos[i], info)
}

/// Why a seed cannot be published.
pub enum SeedFault {
    Generation,
    TooLarge(u64),
    Conflict,
    Clash,
}

/// What stands against publishing a seed.
pub open spec fn publication_fault(infos: Seq<SeedInfo>, seed: SeedInfo) -> Option<SeedFault> {
    if !fits_sqlite(seed.generation) {
        Some(SeedFault::Generation)
    } else if !fits_sqlite(seed.logical_size) {
        Some(SeedFault::TooLarge(seed.logical_size))
    } else if has_seed(infos, seed.id) {
        if same_seed(seed_of(infos, seed.id), seed) {
            None
        } else {
            Some(SeedFault::Conflict)
        }
    } else if can_record(infos, seed) {
        None
    } else {
        Some(SeedFault::Clash)
    }
}

/// The error reports the fault.
pub open spec fn seed_error(error: StoreError, id: Seq<char>, fault: SeedFault) -> bool {
    match fault {
        SeedFault::Generation => error.broken("seed generation exceeds SQLite range"@),
        SeedFault::TooLarge(bytes) => error == StoreError::ArtifactTooLarge(bytes),
        SeedFault::Conflict => error.broken(
            "seed "@ + id + " conflicts with its recovery evidence"@,
        ),
        SeedFault::Clash => error is Sql,
    }
}

/// The seeds after one has been published.
pub open spec fn published(infos: Seq<SeedInfo>, seed: SeedInfo) -> Seq<SeedInfo> {
    if has_seed(infos, seed.id) {
        infos
    } else {
        infos.push(seed)
    }
}

/// The seeds after one has been pruned.
pub open spec fn pruned(infos: Seq<SeedInfo>, id: Seq<char>) -> Seq<SeedInfo> {
    infos.map_values(
        |info: SeedInfo|
            if info.id == id {
                SeedInfo { state: "pruned"@, ..info }
            } else {
                info
            },
    )
}

/// The seed can be pruned as expected.
pub open spec fn can_prune(infos: Seq<SeedInfo>, expected: SeedInfo) -> bool {
    has_seed(infos, expected.id) && seed_of(infos, expected.id).state == "published"@ && same_seed(
        seed_of(infos, expected.id),
        expected,
    )
}

/// The seeds after the first `n` of some have been pruned as expected.
pub open spec fn all_pruned(infos: Seq<SeedInfo>, expected: Seq<SeedInfo>, n: nat) -> Option<
    Seq<SeedInfo>,
>
    decreases n,
{
    if n == 0 {
        Some(infos)
    } else {
        match all_pruned(infos, expected, (n - 1) as nat) {
            Some(had) => if can_prune(had, expected[n - 1]) {
                Some(pruned(had, expected[n - 1].id))
            } else {
                None
            },
            None => None,
        }
    }
}

/// The first seed that is not as expected.
pub open spec fn stops_at(infos: Seq<SeedInfo>, expected: Seq<SeedInfo>, i: int) -> bool {
    &&& 0 <= i < expected.len()
    &&& all_pruned(infos, expected, i as nat) matches Some(had) && !can_prune(had, expected[i])
}

/// The error says why a seed is not pruned: it is not published, or not as expected.
pub open spec fn pruning_error(
    error: StoreError,
    infos: Seq<SeedInfo>,
    expected: SeedInfo,
) -> bool {
    if has_seed(infos, expected.id) && seed_of(infos, expected.id).state == "published"@ {
        error.broken("seed "@ + expected.id + " differs from its pruning intent"@)
    } else {
        error is Sql
    }
}

proof fn lemma_seed_unique(infos: Seq<SeedInfo>, i: int, id: Seq<char>)
    requires
        seeds_sound(infos),
        seed_at(infos, i, id),
    ensures
        has_seed(infos, id),
        seed_of(infos, id) == infos[i],
{
    let k = choose|k: int| seed_at(infos, k, id);
    if k < i {
        assert(!seeds_clash(infos[k], infos[i]));
    } else if i < k {
        assert(!seeds_clash(infos[i], infos[k]));
    }
}

proof fn lemma_pruning_lost(infos: Seq<SeedInfo>, expected: Seq<SeedInfo>, m: nat, n: nat)
    requires
        m <= n,
        all_pruned(infos, expected, m) is None,
    ensures
        all_pruned(infos, expected, n) is None,
    decreases n,
{
    if m < n {
        lemma_pruning_lost(infos, expected, m, (n - 1) as nat);
    }
}

impl SeedRecord {
    /// Whether another record says the same of the seed.
    pub fn says_same(&self, other: &SeedRecord) -> (r: bool)
        ensures
            r == same_seed(self@, other@),
    {
        str_equal(self.id.as_str(), other.id.as_str()) && self.repository_id.0
            == other.repository_id.0 && str_equal(self.profile.as_str(), other.profile.as_str())
            && self.generation == other.generation && str_equal(
            self.path.as_str(),
            other.path.as_str(),
        ) && self.logical_size == other.logical_size && str_equal(
            self.state.as_str(),
            other.state.as_str(),
        ) && self.manifest.matches_contents(&other.manifest)
    }

    /// A copy of the record.
    pub fn duplicate(&self) -> (r: SeedRecord)
        ensures
            r@ == self@,
    {
        SeedRecord {
            id: self.id.as_str().to_owned(),
            repository_id: self.repository_id,
            profile: self.profile.as_str().to_owned(),
            generation: self.generation,
            path: self.path.as_str().to_owned(),
            logical_size: self.logical_size,
            state: self.state.as_str().to_owned(),
            manifest: self.manifest.duplicate(),
        }
    }
}

/// How many entries a manifest lists.
pub open spec fn entries_listed(manifest: Tree) -> nat {
    match manifest.field("entries"@) {
        Some(Tree::List(items)) => items.len(),
        _ => 0,
    }
}

/// How many entries a manifest lists.
pub fn entry_count(manifest: &Document) -> (r: usize)
    ensures
        r == entries_listed(manifest@),
{
    match manifest.get("entries") {
        Some(Document::List(items)) => items.len(),
        _ => 0,
    }
}

/// The digest of a manifest, if it can be written.
pub fn manifest_hash(manifest: &Document) -> (r: Option<String>)
    ensures
        r is Some <==> manifest@.has_notation(),
        r matches Some(hash) ==> hash@ == blake3_hex(json_written(manifest@)),
{
    if manifest.can_write() {
        Some(hash_hex(write_json(&json_value(manifest)).as_slice()))
    } else {
        None
    }
}

/// The list has the seeds of a repository, the newest generation first.
pub open spec fn lists_seeds(
    infos: Seq<SeedInfo>,
    repository: RepositoryId,
    listed: Seq<usize>,
) -> bool {
    &&& is_listing(
        listed,
        infos.len(),
        |i: usize| infos[i as int].repository_id == repository,
    )
    &&& in_order(
        listed,
        |a: usize, b: usize| infos[a as int].generation > infos[b as int].generation,
    )
}

/// The table of seeds.
#[derive(Debug, PartialEq, Eq)]
pub struct SeedTable {
    pub rows: Vec<SeedRecord>,
}

impl SeedTable {
    /// The table holds together.
    pub open spec fn wf(self) -> bool {
        seeds_sound(seed_infos(self.rows@))
    }

    /// An empty table.
    pub fn new() -> (r: SeedTable)
        ensures
            r.wf(),
            r.rows@.len() == 0,
    {
        SeedTable { rows: Vec::new() }
    }

    fn position(&self, id: &str) -> (r: Option<usize>)
        requires
            self.wf(),
        ensures
            match r {
                Some(i) => i < self.rows@.len() && seed_at(
                    seed_infos(self.rows@),
                    i as int,
                    id@,
                ) && has_seed(seed_infos(self.rows@), id@) && self.rows@[i as int]@ == seed_of(
                    seed_infos(self.rows@),
                    id@,
                ),
                None => !has_seed(seed_infos(self.rows@), id@),
            },
    {
        let ghost infos = seed_infos(self.rows@);
        let mut i: usize = 0;
        while i < self.rows.len()
            invariant
                i <= self.rows@.len(),
                self.wf(),
                infos == seed_infos(self.rows@),
                forall|j: int| 0 <= j < i ==> !(#[trigger] seed_at(infos, j, id@)),
            decreases self.rows@.len() - i,
        {
            assert(infos[i as int] == self.rows@[i as int]@);
            if str_equal(self.rows[i].id.as_str(), id) {
                proof {
                    lemma_seed_unique(infos, i as int, id@);
                }
                return Some(i);
            }
            i += 1;
        }
        None
    }

    /// Whether there is a row of a seed.
    pub fn holds(&self, id: &str) -> (r: bool)
        requires
            self.wf(),
        ensures
            r == has_seed(seed_infos(self.rows@), id@),
    {
        match self.position(id) {
            Some(_) => true,
            None => false,
        }
    }

    fn can_record_seed(&self, seed: &SeedRecord) -> (r: bool)
        ensures
            r == can_record(seed_infos(self.rows@), seed@),
    {
        let ghost infos = seed_infos(self.rows@);
        let mut i: usize = 0;
        while i < self.rows.len()
            invariant
                i <= self.rows@.len(),
                infos == seed_infos(self.rows@),
                forall|j: int| 0 <= j < i ==> !seeds_clash(#[trigger] infos[j], seed@),
            decreases self.rows@.len() - i,
        {
            assert(infos[i as int] == self.rows@[i as int]@);
            let row = &self.rows[i];
            if str_equal(row.id.as_str(), seed.id.as_str()) || (row.repository_id.0
                == seed.repository_id.0 && str_equal(row.profile.as_str(), seed.profile.as_str())
                && row.generation == seed.generation) {
                assert(seeds_clash(infos[i as int], seed@));
                return false;
            }
            i += 1;
        }
        true
    }

    fn check_numbers(seed: &SeedRecord) -> (r: Result<(), StoreError>)
        ensures
            r is Ok <==> fits_sqlite(seed.generation) && fits_sqlite(seed.logical_size),
            r matches Err(error) ==> if !fits_sqlite(seed.generation) {
                seed_error(error, seed.id@, SeedFault::Generation)
            } else {
                seed_error(error, seed.id@, SeedFault::TooLarge(seed.logical_size))
            },
    {
        match to_sqlite(seed.generation, "seed generation exceeds SQLite range") {
            Ok(_) => {},
            Err(error) => {
                return Err(error);
            },
        }
        match artifact_size(seed.logical_size) {
            Ok(_) => Ok(()),
            Err(error) => Err(error),
        }
    }

    fn add_row(&mut self, seed: SeedRecord)
        requires
            old(self).wf(),
            can_record(seed_infos(old(self).rows@), seed@),
        ensures
            final(self).wf(),
            seed_infos(final(self).rows@) == seed_infos(old(self).rows@).push(seed@),
    {
        let ghost had = seed_infos(self.rows@);
        let ghost info = seed@;
        self.rows.push(seed);
        proof {
            let now = seed_infos(self.rows@);
            assert(now =~= had.push(info));
            assert forall|i: int, j: int| 0 <= i < j < now.len() implies !seeds_clash(
                #[trigger] now[i],
                #[trigger] now[j],
            ) by {
                assert(now[i] == had[i]);
                if j < had.len() {
                    assert(now[j] == had[j]);
                }
            }
        }
    }

    /// Records a new seed.
    pub fn record_seed(&mut self, seed: SeedRecord) -> (r: Result<(), StoreError>)
        requires
            old(self).wf(),
        ensures
            final(self).wf(),
            ({
                let infos = seed_infos(old(self).rows@);
                let numbers = fits_sqlite(seed.generation) && fits_sqlite(seed.logical_size);
                &&& r is Ok <==> numbers && can_record(infos, seed@)
                &&& r is Ok ==> seed_infos(final(self).rows@) == infos.push(seed@)
                &&& r is Err ==> final(self).rows@ == old(self).rows@
                &&& r matches Err(error) ==> if !fits_sqlite(seed.generation) {
                    seed_error(error, seed.id@, SeedFault::Generation)
                } else if !fits_sqlite(seed.logical_size) {
                    seed_error(error, seed.id@, SeedFault::TooLarge(seed.logical_size))
                } else {
                    error is Sql
                }
            }),
    {
        match SeedTable::check_numbers(&seed) {
            Ok(()) => {},
            Err(error) => {
                return Err(error);
            },
        }
        if !self.can_record_seed(&seed) {
            return Err(refused("UNIQUE constraint failed: seed_generations"));
        }
        self.add_row(seed);
        Ok(())
    }

    /// Checks that a seed can be published.
    pub fn check_publication(&self, seed: &SeedRecord) -> (r: Result<(), StoreError>)
        requires
            self.wf(),
        ensures
            match publication_fault(seed_infos(self.rows@), seed@) {
                Some(fault) => r matches Err(error) && seed_error(error, seed.id@, fault),
                None => r is Ok,
            },
    {
        match SeedTable::check_numbers(seed) {
            Ok(()) => {},
            Err(error) => {
                return Err(error);
            },
        }
        match self.position(seed.id.as_str()) {
            Some(i) => {
                if self.rows[i].says_same(seed) {
                    Ok(())
                } else {
                    Err(
                        integrity(
                            concat3(
                                "seed ",
                                seed.id.as_str(),
                                " conflicts with its recovery evidence",
                            ).as_str(),
                        ),
                    )
                }
            },
            None => if self.can_record_seed(seed) {
                Ok(())
            } else {
                Err(refused("UNIQUE constraint failed: seed_generations"))
            },
        }
    }

    /// Publishes a seed; one that is known already is left as it is.
    pub fn publish(&mut self, seed: SeedRecord)
        requires
            old(self).wf(),
            publication_fault(seed_infos(old(self).rows@), seed@) is None,
        ensures
            final(self).wf(),
            seed_infos(final(self).rows@) == published(seed_infos(old(self).rows@), seed@),
    {
        match self.position(seed.id.as_str()) {
            Some(_) => {},
            None => {
                self.add_row(seed);
            },
        }
    }

    fn prune_row(&mut self, at: usize)
        requires
            old(self).wf(),
            at < old(self).rows@.len(),
        ensures
            final(self).wf(),
            seed_infos(final(self).rows@) == pruned(
                seed_infos(old(self).rows@),
                old(self).rows@[at as int].id@,
            ),
    {
        let ghost infos = seed_infos(self.rows@);
        let ghost id = self.rows@[at as int].id@;
        self.rows[at].state = "pruned".to_owned();
        proof {
            let goal = pruned(infos, id);
            let now = seed_infos(self.rows@);
            assert forall|k: int| 0 <= k < now.len() implies #[trigger] now[k] == goal[k] by {
                if k == at {
                    assert(now[k] =~= goal[k]);
                } else {
                    assert(self.rows@[k] == old(self).rows@[k]);
                    if k < at {
                        assert(!seeds_clash(infos[k], infos[at as int]));
                    } else {
                        assert(!seeds_clash(infos[at as int], infos[k]));
                    }
                }
            }
            assert(now =~= goal);
            assert forall|a: int, b: int| 0 <= a < b < now.len() implies !seeds_clash(
                #[trigger] now[a],
                #[trigger] now[b],
            ) by {
                assert(!seeds_clash(infos[a], infos[b]));
            }
        }
    }

    /// Marks a seed as pruned.
    pub fn mark_seed_pruned(&mut self, seed_id: &str) -> (r: Result<(), StoreError>)
        requires
            old(self).wf(),
        ensures
            final(self).wf(),
            r is Ok <==> has_seed(seed_infos(old(self).rows@), seed_id@),
            r is Ok ==> seed_infos(final(self).rows@) == pruned(
                seed_infos(old(self).rows@),
                seed_id@,
            ),
            r is Err ==> final(self).rows@ == old(self).rows@,
            r matches Err(error) ==> error is Sql,
    {
        match self.position(seed_id) {
            Some(i) => {
                self.prune_row(i);
                Ok(())
            },
            None => Err(refused("Query returned no rows")),
        }
    }

    /// The table after seeds have been pruned that are as expected; this table stays as it
    /// is.
    pub fn purge(&self, seeds: &Vec<SeedRecord>) -> (r: Result<SeedTable, StoreError>)
        requires
            self.wf(),
        ensures
            match all_pruned(seed_infos(self.rows@), seed_infos(seeds@), seeds@.len()) {
                Some(after) => r matches Ok(table) && table.wf() && seed_infos(table.rows@)
                    == after,
                None => r is Err,
            },
            r matches Err(error) ==> exists|i: int| #[trigger]
                stops_at(seed_infos(self.rows@), seed_infos(seeds@), i) && pruning_error(
                    error,
                    all_pruned(seed_infos(self.rows@), seed_infos(seeds@), i as nat)->Some_0,
                    seed_infos(seeds@)[i],
                ),
    {
        let ghost start = seed_infos(self.rows@);
        let ghost expected = seed_infos(seeds@);
        let mut table = self.duplicate();
        let mut i: usize = 0;
        while i < seeds.len()
            invariant
                i <= seeds@.len(),
                table.wf(),
                start == seed_infos(self.rows@),
                expected == seed_infos(seeds@),
                all_pruned(start, expected, i as nat) == Some(seed_infos(table.rows@)),
            decreases seeds@.len() - i,
        {
            let ghost had = seed_infos(table.rows@);
            let ghost n = (i + 1) as nat;
            assert(expected[i as int] == seeds@[i as int]@);
            assert(all_pruned(start, expected, (n - 1) as nat) == Some(had));
            assert(can_prune(had, expected[i as int]) || stops_at(start, expected, i as int));
            let seed = &seeds[i];
            let at: usize = match table.position(seed.id.as_str()) {
                Some(at) => at,
                None => {
                    proof {
                        lemma_pruning_lost(start, expected, n, expected.len());
                    }
                    return Err(refused("Query returned no rows"));
                },
            };
            if !str_equal(table.rows[at].state.as_str(), "published") {
                proof {
                    lemma_pruning_lost(start, expected, n, expected.len());
                }
                return Err(refused("Query returned no rows"));
            }
            if !table.rows[at].says_same(seed) {
                proof {
                    lemma_pruning_lost(start, expected, n, expected.len());
                }
                return Err(
                    integrity(
                        concat3(
                            "seed ",
                            seed.id.as_str(),
                            " differs from its pruning intent",
                        ).as_str(),
                    ),
                );
            }
            table.prune_row(at);
            i += 1;
        }
        Ok(table)
    }

    /// The positions of the seeds of a repository, the newest generation first.
    pub fn seed_records(&self, repository: RepositoryId) -> (r: Vec<usize>)
        ensures
            lists_seeds(seed_infos(self.rows@), repository, r@),
    {
        let ghost infos = seed_infos(self.rows@);
        let ghost pick = |i: usize| infos[i as int].repository_id == repository;
        let ghost before = |a: usize, b: usize|
            infos[a as int].generation > infos[b as int].generation;
        assert(orders(before));
        let mut listed: Vec<usize> = Vec::new();
        let mut i: usize = 0;
        while i < self.rows.len()
            invariant
                i <= self.rows@.len(),
                infos == seed_infos(self.rows@),
                pick == (|i: usize| infos[i as int].repository_id == repository),
                before == (|a: usize, b: usize|
                    infos[a as int].generation > infos[b as int].generation),
                orders(before),
                in_order(listed@, before),
                is_listing(listed@, i as nat, pick),
            decreases self.rows@.len() - i,
        {
            assert(infos[i as int] == self.rows@[i as int]@);
            if self.rows[i].repository_id.0 == repository.0 {
                assert(pick(i));
                let mut at: usize = 0;
                let mut ahead = true;
                while at < listed.len() && ahead
                    invariant
                        at <= listed@.len(),
                        i < self.rows@.len(),
                        infos == seed_infos(self.rows@),
                        infos[i as int] == self.rows@[i as int]@,
                        before == (|a: usize, b: usize|
                            infos[a as int].generation > infos[b as int].generation),
                        is_listing(listed@, i as nat, pick),
                        forall|k: int| 0 <= k < at ==> !before(i, #[trigger] listed@[k]),
                        !ahead ==> at < listed@.len() && before(i, listed@[at as int]),
                    decreases
                        listed@.len() - at + if ahead {
                            1int
                        } else {
                            0
                        },
                {
                    let other = listed[at];
                    assert(infos[other as int] == self.rows@[other as int]@);
                    if self.rows[i].generation > self.rows[other].generation {
                        assert(before(i, listed@[at as int]));
                        ahead = false;
                    } else {
                        assert(!before(i, listed@[at as int]));
                        at += 1;
                    }
                }
                proof {
                    lemma_insert_in_order(listed@, at as int, i, before);
                    lemma_listing_grows(listed@, at as int, i, pick);
                }
                listed.insert(at, i);
            } else {
                assert(!pick(i));
            }
            i += 1;
        }
        listed
    }

    fn duplicate(&self) -> (r: SeedTable)
        ensures
            seed_infos(r.rows@) == seed_infos(self.rows@),
    {
        let mut rows: Vec<SeedRecord> = Vec::new();
        let mut i: usize = 0;
        while i < self.rows.len()
            invariant
                i <= self.rows@.len(),
                rows@.len() == i,
                forall|j: int| 0 <= j < i ==> (#[trigger] rows@[j])@ == self.rows@[j]@,
            decreases self.rows@.len() - i,
        {
            rows.push(self.rows[i].duplicate());
            i += 1;
        }
        assert(seed_infos(rows@) =~= seed_infos(self.rows@));
        SeedTable { rows }
    }
}

/// A seed that has been pruned is not pruned again.
pub proof fn law_seeds_are_pruned_once(infos: Seq<SeedInfo>, expected: SeedInfo)
    requires
        seeds_sound(infos),
        can_prune(infos, expected),
    ensures
        !can_prune(pruned(infos, expected.id), expected),
{
    let after = pruned(infos, expected.id);
    let i = choose|i: int| seed_at(infos, i, expected.id);
    assert forall|a: int, b: int| 0 <= a < b < after.len() implies !seeds_clash(
        #[trigger] after[a],
        #[trigger] after[b],
    ) by {
        assert(!seeds_clash(infos[a], infos[b]));
    }
    assert(seed_at(after, i, expected.id));
    lemma_seed_unique(after, i, expected.id);
    reveal_strlit("pruned");
    reveal_strlit("published");
    assert("pruned"@.len() != "published"@.len());
}

} // verus!
