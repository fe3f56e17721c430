//! The table of validations: what each item is, or was, validated as.

use crate::ids::{QueueItemId, ValidationGenerationId};
use crate::model::ValidationGeneration;
#[allow(unused_imports)]
use crate::outside::uuid_text;
use crate::store::{refused, StoreError};
use crate::text::concat3;
use vstd::prelude::*;

verus! {

/// A validation, and whether it is the one that counts for its item.
#[derive(Clone, Debug, PartialEq, Eq)]
pub struct GenerationRow {
    pub generation: ValidationGeneration,
    pub current: bool,
}

/// The row counts for an item.
pub open spec fn counts_for(row: GenerationRow, item: QueueItemId) -> bool {
    row.current && row.generation.item_id == item
}

/// No two rows are of the same validation, and no two count for the same item.
pub open spec fn generations_sound(rows: Seq<GenerationRow>) -> bool {
    forall|i: int, j: int|
        0 <= i < j < rows.len() ==> (#[trigger] rows[i]).generation.id != (
        #[trigger] rows[j]).generation.id && !(counts_for(rows[i], rows[j].generation.item_id)
            && rows[j].current)
}

/// A row of a validation that another one has taken the place of.
pub open spec fn displaced(row: GenerationRow, by: ValidationGenerationId) -> GenerationRow {
    GenerationRow {
        generation: ValidationGeneration { invalidated_by: Some(by), ..row.generation },
        current: false,
    }
}

/// The rows after another validation has taken the place of the one that counts for an
/// item.
pub open spec fn invalidated(
    rows: Seq<GenerationRow>,
    item: QueueItemId,
    by: ValidationGenerationId,
) -> Seq<GenerationRow> {
    rows.map_values(
        |row: GenerationRow|
            if counts_for(row, item) {
                displaced(row, by)
            } else {
                row
            },
    )
}

/// There is a row of the validation.
pub open spec fn has_generation(rows: Seq<GenerationRow>, id: ValidationGenerationId) -> bool {
    exists|i: int| 0 <= i < rows.len() && (#[trigger] rows[i]).generation.id == id
}

/// The rows after a new validation has been recorded.
pub open spec fn recorded(rows: Seq<GenerationRow>, generation: ValidationGeneration) -> Seq<
    GenerationRow,
> {
    invalidated(rows, generation.item_id, generation.id).push(
        GenerationRow { generation, current: true },
    )
}

/// The validation already counts for its item.
pub open spec fn already_counts(rows: Seq<GenerationRow>, restored: ValidationGeneration) -> bool {
    exists|i: int|
        0 <= i < rows.len() && counts_for(#[trigger] rows[i], restored.item_id)
            && rows[i].generation.id == restored.id
}

/// There is a row that can be made to count again.
pub open spec fn is_retained(rows: Seq<GenerationRow>, restored: ValidationGeneration) -> bool {
    exists|i: int|
        0 <= i < rows.len() && (#[trigger] rows[i]).generation.id == restored.id
            && rows[i].generation.item_id == restored.item_id
}

/// The rows after a validation has been made to count again.
pub open spec fn reactivated(rows: Seq<GenerationRow>, restored: ValidationGeneration) -> Seq<
    GenerationRow,
> {
    if already_counts(rows, restored) {
        rows
    } else {
        invalidated(rows, restored.item_id, restored.id).map_values(
            |row: GenerationRow|
                if row.generation.id == restored.id && row.generation.item_id
                    == restored.item_id {
                    GenerationRow { generation: restored, current: true }
                } else {
                    row
                },
        )
    }
}

/// The table of validations.
#[derive(Clone, Debug, PartialEq, Eq)]
pub struct GenerationTable {
    pub rows: Vec<GenerationRow>,
}

impl GenerationTable {
    /// The table holds together.
    pub open spec fn wf(self) -> bool {
        generations_sound(self.rows@)
    }

    /// An empty table.
    pub fn new() -> (r: GenerationTable)
        ensures
            r.wf(),
            r.rows@.len() == 0,
    {
        GenerationTable { rows: Vec::new() }
    }

    pub(crate) fn position(&self, id: ValidationGenerationId) -> (r: Option<usize>)
        ensures
            match r {
                Some(i) => i < self.rows@.len() && self.rows@[i as int].generation.id == id,
                None => !has_generation(self.rows@, id),
            },
    {
        let mut i: usize = 0;
        while i < self.rows.len()
            invariant
                i <= self.rows@.len(),
                forall|j: int| 0 <= j < i ==> (#[trigger] self.rows@[j]).generation.id != id,
            decreases self.rows@.len() - i,
        {
            if self.rows[i].generation.id.0 == id.0 {
                return Some(i);
            }
            i += 1;
        }
        None
    }

    /// Another validation takes the place of the one that counts for an item.
    fn invalidate(&mut self, item: QueueItemId, by: ValidationGenerationId)
        requires
            old(self).wf(),
        ensures
            final(self).rows@ == invalidated(old(self).rows@, item, by),
            final(self).wf(),
            forall|i: int|
                0 <= i < final(self).rows@.len() ==> !counts_for(
                    #[trigger] final(self).rows@[i],
                    item,
                ),
    {
        let ghost had = self.rows@;
        let ghost goal = invalidated(had, item, by);
        let mut i: usize = 0;
        while i < self.rows.len()
            invariant
                i <= self.rows@.len(),
                self.rows@.len() == had.len(),
                goal == invalidated(had, item, by),
                forall|j: int| 0 <= j < i ==> #[trigger] self.rows@[j] == goal[j],
                forall|j: int| i <= j < had.len() ==> #[trigger] self.rows@[j] == had[j],
            decreases self.rows@.len() - i,
        {
            assert(self.rows@[i as int] == had[i as int]);
            if self.rows[i].current && self.rows[i].generation.item_id.0 == item.0 {
                self.rows[i].current = false;
                self.rows[i].generation.invalidated_by = Some(by);
                assert(self.rows@[i as int] == displaced(had[i as int], by));
            }
            assert(self.rows@[i as int] == goal[i as int]);
            i += 1;
        }
        assert(self.rows@ =~= goal);
        proof {
            assert forall|i: int| 0 <= i < goal.len() implies !counts_for(
                #[trigger] goal[i],
                item,
            ) by {
                assert(goal[i] == if counts_for(had[i], item) {
                    displaced(had[i], by)
                } else {
                    had[i]
                });
            }
            assert forall|i: int, j: int| 0 <= i < j < goal.len() implies (
            #[trigger] goal[i]).generation.id != (#[trigger] goal[j]).generation.id && !(
            counts_for(goal[i], goal[j].generation.item_id) && goal[j].current) by {
                assert(had[i].generation.id != had[j].generation.id);
            }
        }
    }

    /// Records a new validation, which counts for its item from now on.
    pub fn replace_generation(&mut self, generation: ValidationGeneration) -> (r: Result<
        (),
        StoreError,
    >)
        requires
            old(self).wf(),
        ensures
            final(self).wf(),
            r is Ok <==> !has_generation(old(self).rows@, generation.id),
            r is Ok ==> final(self).rows@ == recorded(old(self).rows@, generation),
            r is Err ==> final(self).rows@ == old(self).rows@,
            r matches Err(error) ==> error is Sql,
    {
        if let Some(_) = self.position(generation.id) {
            return Err(refused("UNIQUE constraint failed: validation_generations.generation_id"));
        }
        let ghost had = self.rows@;
        self.invalidate(generation.item_id, generation.id);
        let ghost middle = self.rows@;
        self.rows.push(GenerationRow { generation, current: true });
        proof {
            let goal = recorded(had, generation);
            assert(self.rows@ =~= goal);
            assert forall|i: int, j: int| 0 <= i < j < goal.len() implies (
            #[trigger] goal[i]).generation.id != (#[trigger] goal[j]).generation.id && !(
            counts_for(goal[i], goal[j].generation.item_id) && goal[j].current) by {
                assert(goal[i] == middle[i]);
                if j < middle.len() {
                    assert(goal[j] == middle[j]);
                } else {
                    assert(had[i].generation.id != generation.id);
                    assert(!counts_for(middle[i], generation.item_id));
                }
            }
        }
        Ok(())
    }

    fn counting(&self, item: QueueItemId, id: ValidationGenerationId) -> (r: bool)
        ensures
            r == exists|i: int|
                0 <= i < self.rows@.len() && counts_for(#[trigger] self.rows@[i], item)
                    && self.rows@[i].generation.id == id,
    {
        let mut i: usize = 0;
        while i < self.rows.len()
            invariant
                i <= self.rows@.len(),
                forall|j: int|
                    0 <= j < i ==> !(counts_for(#[trigger] self.rows@[j], item)
                        && self.rows@[j].generation.id == id),
            decreases self.rows@.len() - i,
        {
            if self.rows[i].current && self.rows[i].generation.item_id.0 == item.0
                && self.rows[i].generation.id.0 == id.0 {
                assert(counts_for(self.rows@[i as int], item));
                return true;
            }
            i += 1;
        }
        false
    }

    /// Makes a validation count again that has been retained.
    pub fn activate_retained_generation(&mut self, restored: ValidationGeneration) -> (r: Result<
        (),
        StoreError,
    >)
        requires
            old(self).wf(),
        ensures
            final(self).wf(),
            r is Ok <==> is_retained(old(self).rows@, restored),
            r is Ok ==> final(self).rows@ == reactivated(old(self).rows@, restored),
            r is Err ==> final(self).rows@ == old(self).rows@,
            r matches Err(error) ==> error.broken(
                "retained generation "@ + uuid_text(restored.id.0) + " for item "@ + uuid_text(
                    restored.item_id.0,
                ) + " was not available for reactivation"@,
            ),
    {
        let ghost had = self.rows@;
        if self.counting(restored.item_id, restored.id) {
            proof {
                let i = choose|i: int|
                    0 <= i < had.len() && counts_for(#[trigger] had[i], restored.item_id)
                        && had[i].generation.id == restored.id;
                assert(had[i].generation.id == restored.id);
            }
            return Ok(());
        }
        let at: usize = match self.position(restored.id) {
            Some(at) => if self.rows[at].generation.item_id.0 == restored.item_id.0 {
                assert(had[at as int].generation.id == restored.id);
                at
            } else {
                proof {
                    assert forall|i: int| 0 <= i < had.len() implies !((
                    #[trigger] had[i]).generation.id == restored.id && had[i].generation.item_id
                        == restored.item_id) by {
                        if i < at {
                            assert(had[i].generation.id != had[at as int].generation.id);
                        } else if i > at {
                            assert(had[at as int].generation.id != had[i].generation.id);
                        }
                    }
                }
                return Err(unavailable(&restored));
            },
            None => {
                return Err(unavailable(&restored));
            },
        };
        self.invalidate(restored.item_id, restored.id);
        let ghost middle = self.rows@;
        let ghost row = GenerationRow { generation: restored, current: true };
        self.rows[at].current = true;
        self.rows[at].generation = restored;
        proof {
            assert(self.rows@ =~= middle.update(at as int, row));
            let goal = reactivated(had, restored);
            assert forall|i: int| 0 <= i < had.len() implies #[trigger] self.rows@[i] == goal[i] by {
                if i != at {
                    if i < at {
                        assert(had[i].generation.id != had[at as int].generation.id);
                    } else {
                        assert(had[at as int].generation.id != had[i].generation.id);
                    }
                    assert(middle[i].generation.id == had[i].generation.id);
                } else {
                    assert(middle[i].generation.id == had[i].generation.id);
                    assert(middle[i].generation.item_id == had[i].generation.item_id);
                }
            }
            assert(self.rows@ =~= goal);
            assert forall|i: int, j: int| 0 <= i < j < goal.len() implies (
            #[trigger] goal[i]).generation.id != (#[trigger] goal[j]).generation.id && !(
            counts_for(goal[i], goal[j].generation.item_id) && goal[j].current) by {
                assert(had[i].generation.id != had[j].generation.id);
                assert(middle[i].generation.id != middle[j].generation.id);
                assert(!counts_for(middle[i], restored.item_id));
                assert(!counts_for(middle[j], restored.item_id));
                assert(goal[i] == self.rows@[i] && goal[j] == self.rows@[j]);
            }
        }
        Ok(())
    }
}

pub(crate) fn unavailable(restored: &ValidationGeneration) -> (r: StoreError)
    ensures
        r.broken(
            "retained generation "@ + uuid_text(restored.id.0) + " for item "@ + uuid_text(
                restored.item_id.0,
            ) + " was not available for reactivation"@,
        ),
{
    let mut text = concat3("retained generation ", restored.id.to_text().as_str(), " for item ");
    text.append(restored.item_id.to_text().as_str());
    text.append(" was not available for reactivation");
    StoreError::Integrity(text)
}

/// At any time at most one validation counts for an item.
pub proof fn law_one_generation_counts(rows: Seq<GenerationRow>, item: QueueItemId, i: int, j: int)
    requires
        generations_sound(rows),
        0 <= i < rows.len(),
        0 <= j < rows.len(),
        counts_for(rows[i], item),
        counts_for(rows[j], item),
    ensures
        i == j,
{
}

/// A validation that has just been recorded counts for its item, and the one before it
/// knows what took its place.
pub proof fn law_recorded_generations_count(rows: Seq<GenerationRow>, generation: ValidationGeneration)
    requires
        generations_sound(rows),
    ensures
        ({
            let after = recorded(rows, generation);
            &&& counts_for(after.last(), generation.item_id)
            &&& after.last().generation == generation
            &&& forall|i: int|
                0 <= i < rows.len() && counts_for(#[trigger] rows[i], generation.item_id)
                    ==> after[i].generation.invalidated_by == Some(generation.id)
                    && !after[i].current
        }),
{
}

} // verus!
