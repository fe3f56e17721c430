//! The table of repositories: the state of each, and the numbers that it has come to.

use crate::ids::RepositoryId;
use crate::model::RepositoryState;
use crate::store::{integrity, StoreError};
use crate::text::{concat3, decimal_string};
#[allow(unused_imports)]
use crate::text::decimal;
use vstd::prelude::*;

verus! {

/// A repository. The two numbers are those by which the store goes; the state may be
/// behind them.
#[derive(Clone, Debug, PartialEq, Eq)]
pub struct RepositoryRow {
    pub state: RepositoryState,
    pub queue_revision: u64,
    pub event_sequence: u64,
}

/// The row of a repository.
pub open spec fn repository_at(rows: Seq<RepositoryRow>, i: int, id: RepositoryId) -> bool {
    0 <= i < rows.len() && rows[i].state.id == id
}

/// The repository is known.
pub open spec fn has_repository(rows: Seq<RepositoryRow>, id: RepositoryId) -> bool {
    exists|i: int| repository_at(rows, i, id)
}

/// Where the row of a repository is.
pub open spec fn repository_index(rows: Seq<RepositoryRow>, id: RepositoryId) -> int {
    choose|i: int| repository_at(rows, i, id)
}

/// The row of a repository.
pub open spec fn repository_row(rows: Seq<RepositoryRow>, id: RepositoryId) -> RepositoryRow {
    rows[repository_index(rows, id)]
}

/// The rows after that of a repository has been replaced.
pub open spec fn with_repository(rows: Seq<RepositoryRow>, row: RepositoryRow) -> Seq<
    RepositoryRow,
> {
    rows.update(repository_index(rows, row.state.id), row)
}

/// The row of a repository whose state says where it has come to.
pub open spec fn told_by_state(state: RepositoryState) -> RepositoryRow {
    RepositoryRow {
        state,
        queue_revision: state.queue_revision,
        event_sequence: state.event_sequence,
    }
}

/// The row of a repository that has come to other numbers.
pub open spec fn come_to(row: RepositoryRow, revision: u64, sequence: u64) -> RepositoryRow {
    RepositoryRow {
        state: RepositoryState { queue_revision: revision, event_sequence: sequence, ..row.state },
        queue_revision: revision,
        event_sequence: sequence,
    }
}

/// The row of a repository whose state has changed, but not its queue.
pub open spec fn restated(row: RepositoryRow, state: RepositoryState) -> RepositoryRow {
    RepositoryRow { state, event_sequence: state.event_sequence, ..row }
}

/// No two rows are of the same repository, and the numbers fit into the database.
pub open spec fn repositories_sound(rows: Seq<RepositoryRow>) -> bool {
    &&& forall|i: int, j: int|
        0 <= i < j < rows.len() ==> (#[trigger] rows[i]).state.id != (#[trigger] rows[j]).state.id
    &&& forall|i: int|
        0 <= i < rows.len() ==> (#[trigger] rows[i]).queue_revision <= i64::MAX
            && rows[i].event_sequence <= i64::MAX
}

pub proof fn lemma_repository_unique(rows: Seq<RepositoryRow>, i: int, id: RepositoryId)
    requires
        repositories_sound(rows),
        repository_at(rows, i, id),
    ensures
        has_repository(rows, id),
        repository_index(rows, id) == i,
{
    let k = repository_index(rows, id);
    if k < i {
        assert(rows[k].state.id != rows[i].state.id);
    } else if i < k {
        assert(rows[i].state.id != rows[k].state.id);
    }
}

/// The table of repositories.
#[derive(Clone, Debug, PartialEq, Eq)]
pub struct RepositoryTable {
    pub rows: Vec<RepositoryRow>,
}

impl RepositoryTable {
    /// The table holds together.
    pub open spec fn wf(self) -> bool {
        repositories_sound(self.rows@)
    }

    /// An empty table.
    pub fn new() -> (r: RepositoryTable)
        ensures
            r.wf(),
            r.rows@.len() == 0,
    {
        RepositoryTable { rows: Vec::new() }
    }

    /// Where the row of a repository is.
    pub fn find(&self, id: RepositoryId) -> (r: Option<usize>)
        requires
            self.wf(),
        ensures
            match r {
                Some(i) => i < self.rows@.len() && has_repository(self.rows@, id)
                    && repository_index(self.rows@, id) == i && self.rows@[i as int].state.id == id,
                None => !has_repository(self.rows@, id),
            },
    {
        let mut i: usize = 0;
        while i < self.rows.len()
            invariant
                i <= self.rows@.len(),
                self.wf(),
                forall|j: int| 0 <= j < i ==> !(#[trigger] repository_at(self.rows@, j, id)),
            decreases self.rows@.len() - i,
        {
            if self.rows[i].state.id.0 == id.0 {
                proof {
                    lemma_repository_unique(self.rows@, i as int, id);
                }
                return Some(i);
            }
            i += 1;
        }
        None
    }

    /// Replaces the state of a repository.
    pub fn write(&mut self, at: usize, state: RepositoryState)
        requires
            old(self).wf(),
            at < old(self).rows@.len(),
            old(self).rows@[at as int].state.id == state.id,
            state.queue_revision <= i64::MAX,
            state.event_sequence <= i64::MAX,
        ensures
            final(self).wf(),
            final(self).rows@ == with_repository(old(self).rows@, told_by_state(state)),
    {
        let ghost had = self.rows@;
        proof {
            lemma_repository_unique(had, at as int, state.id);
        }
        self.rows[at].queue_revision = state.queue_revision;
        self.rows[at].event_sequence = state.event_sequence;
        self.rows[at].state = state;
        proof {
            assert(self.rows@ =~= had.update(at as int, told_by_state(state)));
        }
    }

    /// A repository comes to other numbers.
    pub fn advance(&mut self, at: usize, revision: u64, sequence: u64)
        requires
            old(self).wf(),
            at < old(self).rows@.len(),
            revision <= i64::MAX,
            sequence <= i64::MAX,
        ensures
            final(self).wf(),
            final(self).rows@ == with_repository(
                old(self).rows@,
                come_to(old(self).rows@[at as int], revision, sequence),
            ),
    {
        let ghost had = self.rows@;
        proof {
            lemma_repository_unique(had, at as int, had[at as int].state.id);
        }
        self.rows[at].queue_revision = revision;
        self.rows[at].event_sequence = sequence;
        self.rows[at].state.queue_revision = revision;
        self.rows[at].state.event_sequence = sequence;
        proof {
            let row = come_to(had[at as int], revision, sequence);
            assert(self.rows@[at as int] == row);
            assert(self.rows@ =~= had.update(at as int, row));
        }
    }

    /// Replaces the state of a repository whose queue has not changed.
    pub fn restate(&mut self, at: usize, state: RepositoryState)
        requires
            old(self).wf(),
            at < old(self).rows@.len(),
            old(self).rows@[at as int].state.id == state.id,
            state.event_sequence <= i64::MAX,
        ensures
            final(self).wf(),
            final(self).rows@ == with_repository(
                old(self).rows@,
                restated(old(self).rows@[at as int], state),
            ),
    {
        let ghost had = self.rows@;
        proof {
            lemma_repository_unique(had, at as int, state.id);
        }
        self.rows[at].event_sequence = state.event_sequence;
        self.rows[at].state = state;
        proof {
            let row = restated(had[at as int], state);
            assert(self.rows@[at as int] == row);
            assert(self.rows@ =~= had.update(at as int, row));
        }
    }

    /// Records how far the events of a repository have come; its state is left as it is.
    pub fn raise(&mut self, at: usize, sequence: u64)
        requires
            old(self).wf(),
            at < old(self).rows@.len(),
            sequence <= i64::MAX,
        ensures
            final(self).wf(),
            final(self).rows@ == with_repository(
                old(self).rows@,
                (RepositoryRow { event_sequence: sequence, ..old(self).rows@[at as int] }),
            ),
    {
        let ghost had = self.rows@;
        proof {
            lemma_repository_unique(had, at as int, had[at as int].state.id);
        }
        self.rows[at].event_sequence = sequence;
        proof {
            let row = RepositoryRow { event_sequence: sequence, ..had[at as int] };
            assert(self.rows@[at as int] == row);
            assert(self.rows@ =~= had.update(at as int, row));
        }
    }

    /// Takes up a repository, or replaces its state.
    pub fn initialize_repository(&mut self, state: RepositoryState)
        requires
            old(self).wf(),
            state.queue_revision <= i64::MAX,
            state.event_sequence <= i64::MAX,
        ensures
            final(self).wf(),
            final(self).rows@ == if has_repository(old(self).rows@, state.id) {
                with_repository(old(self).rows@, told_by_state(state))
            } else {
                old(self).rows@.push(told_by_state(state))
            },
    {
        match self.find(state.id) {
            Some(at) => {
                self.write(at, state);
            },
            None => {
                let ghost had = self.rows@;
                let queue_revision = state.queue_revision;
                let event_sequence = state.event_sequence;
                self.rows.push(RepositoryRow { state, queue_revision, event_sequence });
                proof {
                    let now = self.rows@;
                    assert(now =~= had.push(told_by_state(state)));
                    assert forall|i: int, j: int| 0 <= i < j < now.len() implies (
                    #[trigger] now[i]).state.id != (#[trigger] now[j]).state.id by {
                        assert(now[i] == had[i]);
                        if j < had.len() {
                            assert(now[j] == had[j]);
                        } else {
                            assert(!repository_at(had, i, state.id));
                        }
                    }
                }
            },
        }
    }

    /// The state of the repository that the store is for.
    pub fn repository_state(&self) -> (r: Result<&RepositoryState, StoreError>)
        ensures
            match r {
                Ok(state) => self.rows@.len() == 1 && *state == self.rows@[0].state,
                Err(error) => if self.rows@.len() == 0 {
                    error == StoreError::RepositoryMissing
                } else {
                    self.rows@.len() > 1 && error.broken(
                        "repository database contains "@ + decimal(self.rows@.len())
                            + " competing identities"@,
                    )
                },
            },
    {
        if self.rows.len() > 1 {
            let count: u64 = self.rows.len() as u64;
            return Err(
                integrity(
                    concat3(
                        "repository database contains ",
                        decimal_string(count).as_str(),
                        " competing identities",
                    ).as_str(),
                ),
            );
        }
        if self.rows.len() == 0 {
            return Err(StoreError::RepositoryMissing);
        }
        Ok(&self.rows[0].state)
    }

    /// Replaces the state of a repository that is known.
    pub fn update_repository_state(&mut self, state: RepositoryState) -> (r: Result<
        (),
        StoreError,
    >)
        requires
            old(self).wf(),
            state.queue_revision <= i64::MAX,
            state.event_sequence <= i64::MAX,
        ensures
            final(self).wf(),
            r is Ok <==> has_repository(old(self).rows@, state.id),
            r is Ok ==> final(self).rows@ == with_repository(
                old(self).rows@,
                told_by_state(state),
            ),
            r is Err ==> final(self).rows@ == old(self).rows@,
            r matches Err(error) ==> error == StoreError::RepositoryMissing,
    {
        match self.find(state.id) {
            Some(at) => {
                self.write(at, state);
                Ok(())
            },
            None => Err(StoreError::RepositoryMissing),
        }
    }
}

} // verus!
