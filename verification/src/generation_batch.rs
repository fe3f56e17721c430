//! Many validations at once: they are recorded together, or not at all.

#[allow(unused_imports)]
use crate::generation_table::{
    already_counts, counts_for, has_generation, invalidated, is_retained, reactivated, recorded,
    GenerationRow,
};
use crate::generation_table::{unavailable, GenerationTable};
use crate::ids::{QueueItemId, ValidationGenerationId};
use crate::model::ValidationGeneration;
#[allow(unused_imports)]
use crate::outside::uuid_text;
use crate::store::{refused, StoreError};
use vstd::prelude::*;

verus! {

/// The rows after the first `n` validations have been recorded.
pub open spec fn all_recorded(
    rows: Seq<GenerationRow>,
    generations: Seq<ValidationGeneration>,
    n: nat,
) -> Option<Seq<GenerationRow>>
    decreases n,
{
    if n == 0 {
        Some(rows)
    } else {
        match all_recorded(rows, generations, (n - 1) as nat) {
            Some(had) => if has_generation(had, generations[n - 1].id) {
                None
            } else {
                Some(recorded(had, generations[n - 1]))
            },
            None => None,
        }
    }
}

/// The rows after the first `n` validations have been made to count again.
pub open spec fn all_reactivated(
    rows: Seq<GenerationRow>,
    restored: Seq<ValidationGeneration>,
    n: nat,
) -> Option<Seq<GenerationRow>>
    decreases n,
{
    if n == 0 {
        Some(rows)
    } else {
        match all_reactivated(rows, restored, (n - 1) as nat) {
            Some(had) => if is_retained(had, restored[n - 1]) {
                Some(reactivated(had, restored[n - 1]))
            } else {
                None
            },
            None => None,
        }
    }
}

/// The validation is among the first `n`.
pub open spec fn is_among(
    generations: Seq<ValidationGeneration>,
    n: nat,
    id: ValidationGenerationId,
) -> bool {
    exists|i: int| 0 <= i < n && (#[trigger] generations[i]).id == id
}

/// The validation of the item is among the first `n`.
pub open spec fn is_among_for(
    generations: Seq<ValidationGeneration>,
    n: nat,
    id: ValidationGenerationId,
    item: QueueItemId,
) -> bool {
    exists|i: int|
        0 <= i < n && (#[trigger] generations[i]).id == id && generations[i].item_id == item
}

/// The first validation that cannot be made to count again.
pub open spec fn first_unavailable(
    rows: Seq<GenerationRow>,
    restored: Seq<ValidationGeneration>,
    i: int,
) -> bool {
    &&& 0 <= i < restored.len()
    &&& all_reactivated(rows, restored, i as nat) matches Some(had) && !is_retained(
        had,
        restored[i],
    )
}

proof fn lemma_recorded_has(
    rows: Seq<GenerationRow>,
    generation: ValidationGeneration,
    id: ValidationGenerationId,
    item: QueueItemId,
)
    ensures
        has_generation(recorded(rows, generation), id) <==> has_generation(rows, id)
            || generation.id == id,
        row_for(recorded(rows, generation), id, item) <==> row_for(rows, id, item) || (
        generation.id == id && generation.item_id == item),
{
    let after = recorded(rows, generation);
    assert(after.len() == rows.len() + 1);
    assert(after[rows.len() as int].generation == generation);
    assert forall|i: int| 0 <= i < rows.len() implies (#[trigger] after[i]).generation.id
        == rows[i].generation.id && after[i].generation.item_id == rows[i].generation.item_id by {
        assert(after[i] == invalidated(rows, generation.item_id, generation.id)[i]);
    }
    if has_generation(rows, id) {
        let i = choose|i: int| 0 <= i < rows.len() && (#[trigger] rows[i]).generation.id == id;
        assert(after[i].generation.id == id);
    }
    if row_for(rows, id, item) {
        let i = choose|i: int|
            0 <= i < rows.len() && (#[trigger] rows[i]).generation.id == id
                && rows[i].generation.item_id == item;
        assert(after[i].generation.id == id);
    }
    if has_generation(after, id) {
        let i = choose|i: int| 0 <= i < after.len() && (#[trigger] after[i]).generation.id == id;
        if i < rows.len() {
            assert(rows[i].generation.id == id);
        }
    }
    if row_for(after, id, item) {
        let i = choose|i: int|
            0 <= i < after.len() && (#[trigger] after[i]).generation.id == id
                && after[i].generation.item_id == item;
        if i < rows.len() {
            assert(rows[i].generation.id == id);
        }
    }
}

/// There is a row of the validation for the item.
pub open spec fn row_for(
    rows: Seq<GenerationRow>,
    id: ValidationGenerationId,
    item: QueueItemId,
) -> bool {
    exists|i: int|
        0 <= i < rows.len() && (#[trigger] rows[i]).generation.id == id
            && rows[i].generation.item_id == item
}

proof fn lemma_all_recorded_has(
    rows: Seq<GenerationRow>,
    generations: Seq<ValidationGeneration>,
    n: nat,
    id: ValidationGenerationId,
    item: QueueItemId,
)
    requires
        n <= generations.len(),
        all_recorded(rows, generations, n) is Some,
    ensures
        has_generation(all_recorded(rows, generations, n)->Some_0, id) <==> has_generation(
            rows,
            id,
        ) || is_among(generations, n, id),
        row_for(all_recorded(rows, generations, n)->Some_0, id, item) <==> row_for(rows, id, item)
            || is_among_for(generations, n, id, item),
    decreases n,
{
    if n > 0 {
        let fewer = (n - 1) as nat;
        lemma_all_recorded_has(rows, generations, fewer, id, item);
        let had = all_recorded(rows, generations, fewer)->Some_0;
        lemma_recorded_has(had, generations[n - 1], id, item);
        assert(is_among(generations, n, id) <==> is_among(generations, fewer, id)
            || generations[n - 1].id == id);
        assert(is_among_for(generations, n, id, item) <==> is_among_for(
            generations,
            fewer,
            id,
            item,
        ) || (generations[n - 1].id == id && generations[n - 1].item_id == item));
    }
}

proof fn lemma_reactivated_for(
    rows: Seq<GenerationRow>,
    restored: ValidationGeneration,
    id: ValidationGenerationId,
    item: QueueItemId,
)
    ensures
        row_for(reactivated(rows, restored), id, item) <==> row_for(rows, id, item),
{
    let after = reactivated(rows, restored);
    if !already_counts(rows, restored) {
        let middle = invalidated(rows, restored.item_id, restored.id);
        assert forall|i: int| 0 <= i < rows.len() implies (#[trigger] after[i]).generation.id
            == rows[i].generation.id && after[i].generation.item_id
            == rows[i].generation.item_id by {
            assert(middle[i].generation.id == rows[i].generation.id);
            assert(middle[i].generation.item_id == rows[i].generation.item_id);
        }
        if row_for(rows, id, item) {
            let i = choose|i: int|
                0 <= i < rows.len() && (#[trigger] rows[i]).generation.id == id
                    && rows[i].generation.item_id == item;
            assert(after[i].generation.id == id);
        }
        if row_for(after, id, item) {
            let i = choose|i: int|
                0 <= i < after.len() && (#[trigger] after[i]).generation.id == id
                    && after[i].generation.item_id == item;
            assert(rows[i].generation.id == id);
        }
    }
}

proof fn lemma_all_reactivated_for(
    rows: Seq<GenerationRow>,
    restored: Seq<ValidationGeneration>,
    n: nat,
    id: ValidationGenerationId,
    item: QueueItemId,
)
    requires
        all_reactivated(rows, restored, n) is Some,
    ensures
        row_for(all_reactivated(rows, restored, n)->Some_0, id, item) <==> row_for(rows, id, item),
    decreases n,
{
    if n > 0 {
        let fewer = (n - 1) as nat;
        lemma_all_reactivated_for(rows, restored, fewer, id, item);
        lemma_reactivated_for(
            all_reactivated(rows, restored, fewer)->Some_0,
            restored[n - 1],
            id,
            item,
        );
    }
}

proof fn lemma_recording_lost(
    rows: Seq<GenerationRow>,
    generations: Seq<ValidationGeneration>,
    m: nat,
    n: nat,
)
    requires
        m <= n,
        all_recorded(rows, generations, m) is None,
    ensures
        all_recorded(rows, generations, n) is None,
    decreases n,
{
    if m < n {
        lemma_recording_lost(rows, generations, m, (n - 1) as nat);
    }
}

proof fn lemma_reactivation_lost(
    rows: Seq<GenerationRow>,
    restored: Seq<ValidationGeneration>,
    m: nat,
    n: nat,
)
    requires
        m <= n,
        all_reactivated(rows, restored, m) is None,
    ensures
        all_reactivated(rows, restored, n) is None,
    decreases n,
{
    if m < n {
        lemma_reactivation_lost(rows, restored, m, (n - 1) as nat);
    }
}

proof fn lemma_recording_known(
    rows: Seq<GenerationRow>,
    generations: Seq<ValidationGeneration>,
    m: nat,
    n: nat,
)
    requires
        m <= n,
        all_recorded(rows, generations, n) is Some,
    ensures
        all_recorded(rows, generations, m) is Some,
{
    if all_recorded(rows, generations, m) is None {
        lemma_recording_lost(rows, generations, m, n);
    }
}

proof fn lemma_reactivation_known(
    rows: Seq<GenerationRow>,
    restored: Seq<ValidationGeneration>,
    m: nat,
    n: nat,
)
    requires
        m <= n,
        all_reactivated(rows, restored, n) is Some,
    ensures
        all_reactivated(rows, restored, m) is Some,
{
    if all_reactivated(rows, restored, m) is None {
        lemma_reactivation_lost(rows, restored, m, n);
    }
}

/// There is one first validation that cannot be made to count again.
pub proof fn lemma_first_unavailable_unique(
    rows: Seq<GenerationRow>,
    restored: Seq<ValidationGeneration>,
    i: int,
    j: int,
)
    requires
        first_unavailable(rows, restored, i),
        first_unavailable(rows, restored, j),
    ensures
        i == j,
{
    if i < j {
        lemma_reactivation_known(rows, restored, (i + 1) as nat, j as nat);
        assert((i + 1 - 1) as nat == i as nat);
    } else if j < i {
        lemma_reactivation_known(rows, restored, (j + 1) as nat, i as nat);
        assert((j + 1 - 1) as nat == j as nat);
    }
}

fn among(generations: &Vec<ValidationGeneration>, n: usize, id: ValidationGenerationId) -> (r: bool)
    requires
        n <= generations@.len(),
    ensures
        r == is_among(generations@, n as nat, id),
{
    let mut i: usize = 0;
    while i < n
        invariant
            i <= n <= generations@.len(),
            !is_among(generations@, i as nat, id),
        decreases n - i,
    {
        if generations[i].id.0 == id.0 {
            return true;
        }
        i += 1;
    }
    false
}

fn among_for(
    generations: &Vec<ValidationGeneration>,
    id: ValidationGenerationId,
    item: QueueItemId,
) -> (r: bool)
    ensures
        r == is_among_for(generations@, generations@.len(), id, item),
{
    let mut i: usize = 0;
    while i < generations.len()
        invariant
            i <= generations@.len(),
            !is_among_for(generations@, i as nat, id, item),
        decreases generations@.len() - i,
    {
        if generations[i].id.0 == id.0 && generations[i].item_id.0 == item.0 {
            return true;
        }
        i += 1;
    }
    false
}

impl GenerationTable {
    fn has_row_for(&self, id: ValidationGenerationId, item: QueueItemId) -> (r: bool)
        ensures
            r == row_for(self.rows@, id, item),
    {
        let mut i: usize = 0;
        while i < self.rows.len()
            invariant
                i <= self.rows@.len(),
                forall|j: int|
                    0 <= j < i ==> !((#[trigger] self.rows@[j]).generation.id == id
                        && self.rows@[j].generation.item_id == item),
            decreases self.rows@.len() - i,
        {
            if self.rows[i].generation.id.0 == id.0 && self.rows[i].generation.item_id.0
                == item.0 {
                return true;
            }
            i += 1;
        }
        false
    }

    /// Checks that validations can be recorded.
    pub fn check_record_all(&self, generations: &Vec<ValidationGeneration>) -> (r: Result<
        (),
        StoreError,
    >)
        ensures
            r is Ok <==> all_recorded(self.rows@, generations@, generations@.len()) is Some,
            r matches Err(error) ==> error is Sql,
    {
        let mut i: usize = 0;
        while i < generations.len()
            invariant
                i <= generations@.len(),
                all_recorded(self.rows@, generations@, i as nat) is Some,
            decreases generations@.len() - i,
        {
            let id = generations[i].id;
            let ghost n = (i + 1) as nat;
            proof {
                lemma_all_recorded_has(
                    self.rows@,
                    generations@,
                    i as nat,
                    id,
                    generations@[i as int].item_id,
                );
                assert((n - 1) as nat == i as nat);
            }
            let known = match self.position(id) {
                Some(_) => true,
                None => false,
            };
            assert(known == has_generation(self.rows@, id));
            if known || among(generations, i, id) {
                proof {
                    assert(all_recorded(self.rows@, generations@, n) is None);
                    lemma_recording_lost(self.rows@, generations@, n, generations@.len());
                }
                return Err(
                    refused("UNIQUE constraint failed: validation_generations.generation_id"),
                );
            }
            assert(all_recorded(self.rows@, generations@, n) is Some);
            i += 1;
        }
        Ok(())
    }

    /// Checks that validations can be made to count again once others have been recorded.
    pub fn check_reactivate_all(
        &self,
        generations: &Vec<ValidationGeneration>,
        restored: &Vec<ValidationGeneration>,
    ) -> (r: Result<(), StoreError>)
        requires
            all_recorded(self.rows@, generations@, generations@.len()) is Some,
        ensures
            ({
                let middle = all_recorded(
                    self.rows@,
                    generations@,
                    generations@.len(),
                )->Some_0;
                &&& r is Ok <==> all_reactivated(middle, restored@, restored@.len()) is Some
                &&& r matches Err(error) ==> exists|i: int| #[trigger]
                    first_unavailable(middle, restored@, i) && error.broken(
                        "retained generation "@ + uuid_text(restored@[i].id.0) + " for item "@
                            + uuid_text(restored@[i].item_id.0)
                            + " was not available for reactivation"@,
                    )
            }),
    {
        let ghost middle = all_recorded(self.rows@, generations@, generations@.len())->Some_0;
        let mut i: usize = 0;
        while i < restored.len()
            invariant
                i <= restored@.len(),
                all_recorded(self.rows@, generations@, generations@.len()) == Some(middle),
                all_reactivated(middle, restored@, i as nat) is Some,
            decreases restored@.len() - i,
        {
            let one = &restored[i];
            let ghost n = (i + 1) as nat;
            proof {
                assert((n - 1) as nat == i as nat);
                lemma_all_recorded_has(
                    self.rows@,
                    generations@,
                    generations@.len(),
                    one.id,
                    one.item_id,
                );
                lemma_all_reactivated_for(middle, restored@, i as nat, one.id, one.item_id);
            }
            let ghost had = all_reactivated(middle, restored@, i as nat)->Some_0;
            assert(is_retained(had, *one) == row_for(had, one.id, one.item_id));
            if !self.has_row_for(one.id, one.item_id) && !among_for(
                generations,
                one.id,
                one.item_id,
            ) {
                proof {
                    assert(first_unavailable(middle, restored@, i as int));
                    assert(all_reactivated(middle, restored@, n) is None);
                    lemma_reactivation_lost(middle, restored@, n, restored@.len());
                }
                return Err(unavailable(one));
            }
            assert(all_reactivated(middle, restored@, n) is Some);
            i += 1;
        }
        Ok(())
    }

    /// Records validations.
    pub fn record_all(&mut self, generations: Vec<ValidationGeneration>)
        requires
            old(self).wf(),
            all_recorded(old(self).rows@, generations@, generations@.len()) is Some,
        ensures
            final(self).wf(),
            all_recorded(old(self).rows@, generations@, generations@.len()) == Some(
                final(self).rows@,
            ),
    {
        let ghost start = self.rows@;
        let ghost all = generations@;
        let mut left = generations;
        let ghost mut n: nat = 0;
        while left.len() > 0
            invariant
                n <= all.len(),
                left@ == all.skip(n as int),
                self.wf(),
                all_recorded(start, all, all.len()) is Some,
                all_recorded(start, all, n) == Some(self.rows@),
            decreases left@.len(),
        {
            assert(left@[0] == all[n as int]);
            let generation = left.remove(0);
            assert(left@ =~= all.skip(n as int + 1));
            proof {
                lemma_recording_known(start, all, n + 1, all.len());
                assert((n + 1 - 1) as nat == n);
            }
            let outcome = self.replace_generation(generation);
            assert(outcome is Ok);
            proof {
                n = n + 1;
            }
        }
    }

    /// Makes validations count again.
    pub fn reactivate_all(&mut self, restored: Vec<ValidationGeneration>)
        requires
            old(self).wf(),
            all_reactivated(old(self).rows@, restored@, restored@.len()) is Some,
        ensures
            final(self).wf(),
            all_reactivated(old(self).rows@, restored@, restored@.len()) == Some(
                final(self).rows@,
            ),
    {
        let ghost start = self.rows@;
        let ghost all = restored@;
        let mut left = restored;
        let ghost mut n: nat = 0;
        while left.len() > 0
            invariant
                n <= all.len(),
                left@ == all.skip(n as int),
                self.wf(),
                all_reactivated(start, all, all.len()) is Some,
                all_reactivated(start, all, n) == Some(self.rows@),
            decreases left@.len(),
        {
            assert(left@[0] == all[n as int]);
            let generation = left.remove(0);
            assert(left@ =~= all.skip(n as int + 1));
            proof {
                lemma_reactivation_known(start, all, n + 1, all.len());
                assert((n + 1 - 1) as nat == n);
            }
            let outcome = self.activate_retained_generation(generation);
            assert(outcome is Ok);
            proof {
                n = n + 1;
            }
        }
    }

    /// Checks that a first validation of an item can be recorded.
    pub fn check_first(&self, id: ValidationGenerationId, item: QueueItemId) -> (r: Result<
        (),
        StoreError,
    >)
        ensures
            r is Ok <==> can_begin(self.rows@, id, item),
            r matches Err(error) ==> error is Sql,
    {
        let mut i: usize = 0;
        while i < self.rows.len()
            invariant
                i <= self.rows@.len(),
                forall|j: int|
                    0 <= j < i ==> (#[trigger] self.rows@[j]).generation.id != id && !counts_for(
                        self.rows@[j],
                        item,
                    ),
            decreases self.rows@.len() - i,
        {
            let row = &self.rows[i];
            if row.generation.id.0 == id.0 || (row.current && row.generation.item_id.0 == item.0) {
                return Err(refused("UNIQUE constraint failed: validation_generations"));
            }
            i += 1;
        }
        Ok(())
    }

    /// Records the first validation of an item.
    pub fn begin(&mut self, generation: ValidationGeneration)
        requires
            old(self).wf(),
            can_begin(old(self).rows@, generation.id, generation.item_id),
        ensures
            final(self).wf(),
            final(self).rows@ == old(self).rows@.push(
                GenerationRow { generation, current: true },
            ),
    {
        let ghost had = self.rows@;
        self.rows.push(GenerationRow { generation, current: true });
        proof {
            let now = self.rows@;
            assert forall|i: int, j: int| 0 <= i < j < now.len() implies (
            #[trigger] now[i]).generation.id != (#[trigger] now[j]).generation.id && !(counts_for(
                now[i],
                now[j].generation.item_id,
            ) && now[j].current) by {
                assert(now[i] == had[i]);
                if j < had.len() {
                    assert(now[j] == had[j]);
                }
            }
        }
    }
}

/// A first validation of the item can be recorded.
pub open spec fn can_begin(
    rows: Seq<GenerationRow>,
    id: ValidationGenerationId,
    item: QueueItemId,
) -> bool {
    forall|i: int|
        0 <= i < rows.len() ==> (#[trigger] rows[i]).generation.id != id && !counts_for(
            rows[i],
            item,
        )
}

} // verus!
