//! The table of events: what has happened, in the order in which it was numbered.

use crate::event::{Actor, DomainEvent};
use crate::ids::{CommandId, EventId, RepositoryId};
use crate::model::Timestamp;
#[allow(unused_imports)]
use crate::seqs::{in_order, lemma_insert_in_order, orders};
use crate::store::{refused, StoreError};
use vstd::prelude::*;

verus! {

/// What is known of an event.
#[verifier::ext_equal]
pub struct EventInfo {
    pub id: EventId,
    pub repository_id: RepositoryId,
    pub sequence: u64,
    pub actor: Actor,
    pub command_id: Option<CommandId>,
    pub kind: Seq<char>,
    pub payload: Seq<char>,
    pub created_at: Timestamp,
}

impl View for DomainEvent {
    type V = EventInfo;

    open spec fn view(&self) -> EventInfo {
        EventInfo {
            id: self.id,
            repository_id: self.repository_id,
            sequence: self.sequence,
            actor: self.actor,
            command_id: self.command_id,
            kind: self.kind@,
            payload: self.payload@,
            created_at: self.created_at,
        }
    }
}

/// What is known of the events.
pub open spec fn event_infos(rows: Seq<DomainEvent>) -> Seq<EventInfo> {
    rows.map_values(|row: DomainEvent| row@)
}

/// What is told of something that happens: under which name, and with what.
#[derive(Clone, Debug, PartialEq, Eq)]
pub struct Notice {
    pub id: EventId,
    pub payload: String,
    pub created_at: Timestamp,
}

/// The event of a notice.
pub open spec fn noticed(
    notice: Notice,
    repository: RepositoryId,
    sequence: u64,
    actor: Actor,
    command: Option<CommandId>,
    kind: Seq<char>,
) -> EventInfo {
    EventInfo {
        id: notice.id,
        repository_id: repository,
        sequence,
        actor,
        command_id: command,
        kind,
        payload: notice.payload@,
        created_at: notice.created_at,
    }
}

/// The event clashes with one of that repository, number and name.
pub open spec fn clashes(
    info: EventInfo,
    repository: RepositoryId,
    sequence: u64,
    id: EventId,
) -> bool {
    info.id == id || (info.repository_id == repository && info.sequence == sequence)
}

/// An event of that repository, number and name cannot be recorded.
pub open spec fn event_taken(
    infos: Seq<EventInfo>,
    repository: RepositoryId,
    sequence: u64,
    id: EventId,
) -> bool {
    exists|i: int| 0 <= i < infos.len() && clashes(#[trigger] infos[i], repository, sequence, id)
}

/// No two events have the same name, or the same number in a repository.
pub open spec fn events_sound(infos: Seq<EventInfo>) -> bool {
    forall|i: int, j: int|
        0 <= i < j < infos.len() ==> !clashes(
            #[trigger] infos[i],
            (#[trigger] infos[j]).repository_id,
            infos[j].sequence,
            infos[j].id,
        )
}

/// The event comes after a number. No event comes before a number that is beyond what the
/// store can hold.
pub open spec fn is_after(info: EventInfo, sequence: u64) -> bool {
    sequence > i64::MAX || info.sequence > sequence
}

/// The list has the events after a number, in their order.
pub open spec fn lists_after(infos: Seq<EventInfo>, sequence: u64, listed: Seq<usize>) -> bool {
    &&& forall|k: int|
        0 <= k < listed.len() ==> (#[trigger] listed[k]) < infos.len() && is_after(
            infos[listed[k] as int],
            sequence,
        )
    &&& listed.no_duplicates()
    &&& in_order(
        listed,
        |a: usize, b: usize| infos[a as int].sequence < infos[b as int].sequence,
    )
    &&& forall|i: int|
        0 <= i < infos.len() && is_after(#[trigger] infos[i], sequence) ==> listed.contains(
            i as usize,
        )
}

/// The table of events.
#[derive(Clone, Debug, PartialEq, Eq)]
pub struct EventTable {
    pub rows: Vec<DomainEvent>,
}

impl EventTable {
    /// The table holds together.
    pub open spec fn wf(self) -> bool {
        events_sound(event_infos(self.rows@))
    }

    /// An empty table.
    pub fn new() -> (r: EventTable)
        ensures
            r.wf(),
            r.rows@.len() == 0,
    {
        EventTable { rows: Vec::new() }
    }

    /// Whether an event of that repository, number and name cannot be recorded.
    pub fn is_taken(&self, repository: RepositoryId, sequence: u64, id: EventId) -> (r: bool)
        ensures
            r == event_taken(event_infos(self.rows@), repository, sequence, id),
    {
        let ghost infos = event_infos(self.rows@);
        let mut i: usize = 0;
        while i < self.rows.len()
            invariant
                i <= self.rows@.len(),
                infos == event_infos(self.rows@),
                forall|j: int|
                    0 <= j < i ==> !clashes(#[trigger] infos[j], repository, sequence, id),
            decreases self.rows@.len() - i,
        {
            assert(infos[i as int] == self.rows@[i as int]@);
            let row = &self.rows[i];
            if row.id.0 == id.0 || (row.repository_id.0 == repository.0 && row.sequence
                == sequence) {
                assert(clashes(infos[i as int], repository, sequence, id));
                return true;
            }
            i += 1;
        }
        false
    }

    fn add_event(&mut self, event: DomainEvent)
        requires
            old(self).wf(),
            !event_taken(
                event_infos(old(self).rows@),
                event.repository_id,
                event.sequence,
                event.id,
            ),
        ensures
            final(self).wf(),
            event_infos(final(self).rows@) == event_infos(old(self).rows@).push(event@),
    {
        let ghost had = event_infos(self.rows@);
        let ghost info = event@;
        self.rows.push(event);
        proof {
            let now = event_infos(self.rows@);
            assert(now =~= had.push(info));
            assert forall|i: int, j: int| 0 <= i < j < now.len() implies !clashes(
                #[trigger] now[i],
                (#[trigger] now[j]).repository_id,
                now[j].sequence,
                now[j].id,
            ) by {
                assert(now[i] == had[i]);
                if j < had.len() {
                    assert(now[j] == had[j]);
                }
            }
        }
    }

    /// Records an event.
    pub fn publish(
        &mut self,
        notice: Notice,
        repository: RepositoryId,
        sequence: u64,
        actor: Actor,
        command: Option<CommandId>,
        kind: &str,
    ) -> (r: DomainEvent)
        requires
            old(self).wf(),
            !event_taken(event_infos(old(self).rows@), repository, sequence, notice.id),
        ensures
            final(self).wf(),
            r@ == noticed(notice, repository, sequence, actor, command, kind@),
            event_infos(final(self).rows@) == event_infos(old(self).rows@).push(r@),
    {
        let event = DomainEvent {
            id: notice.id,
            repository_id: repository,
            sequence,
            actor,
            command_id: command,
            kind: kind.to_owned(),
            payload: notice.payload.as_str().to_owned(),
            created_at: notice.created_at,
        };
        self.add_event(event);
        DomainEvent {
            id: notice.id,
            repository_id: repository,
            sequence,
            actor,
            command_id: command,
            kind: kind.to_owned(),
            payload: notice.payload,
            created_at: notice.created_at,
        }
    }

    /// Records an event as it is.
    pub fn append_event(&mut self, event: DomainEvent) -> (r: Result<(), StoreError>)
        requires
            old(self).wf(),
        ensures
            final(self).wf(),
            r is Ok <==> !event_taken(
                event_infos(old(self).rows@),
                event.repository_id,
                event.sequence,
                event.id,
            ),
            r is Ok ==> event_infos(final(self).rows@) == event_infos(old(self).rows@).push(
                event@,
            ),
            r is Err ==> final(self).rows@ == old(self).rows@,
            r matches Err(error) ==> error is Sql,
    {
        if self.is_taken(event.repository_id, event.sequence, event.id) {
            return Err(refused("UNIQUE constraint failed: events.repository_id, events.sequence"));
        }
        self.add_event(event);
        Ok(())
    }

    /// The positions of the first events after a number, in their order.
    pub fn events_after(&self, sequence: u64, limit: u32) -> (r: Vec<usize>)
        ensures
            exists|all: Seq<usize>| #[trigger]
                lists_after(event_infos(self.rows@), sequence, all) && r@ == all.take(
                    if all.len() < limit {
                        all.len() as int
                    } else {
                        limit as int
                    },
                ),
    {
        let ghost infos = event_infos(self.rows@);
        let ghost before = |a: usize, b: usize|
            infos[a as int].sequence < infos[b as int].sequence;
        assert(orders(before));
        let mut listed: Vec<usize> = Vec::new();
        let mut i: usize = 0;
        while i < self.rows.len()
            invariant
                i <= self.rows@.len(),
                infos == event_infos(self.rows@),
                before == (|a: usize, b: usize|
                    infos[a as int].sequence < infos[b as int].sequence),
                orders(before),
                in_order(listed@, before),
                listed@.no_duplicates(),
                forall|k: int|
                    0 <= k < listed@.len() ==> (#[trigger] listed@[k]) < i && is_after(
                        infos[listed@[k] as int],
                        sequence,
                    ),
                forall|j: int|
                    0 <= j < i && is_after(#[trigger] infos[j], sequence) ==> listed@.contains(
                        j as usize,
                    ),
            decreases self.rows@.len() - i,
        {
            assert(infos[i as int] == self.rows@[i as int]@);
            let ghost had = listed@;
            if sequence > 0x7fff_ffff_ffff_ffff || self.rows[i].sequence > sequence {
                let mut at: usize = 0;
                while at < listed.len() && !(self.rows[i].sequence
                    < self.rows[listed[at]].sequence)
                    invariant
                        at <= listed@.len(),
                        i < self.rows@.len(),
                        infos == event_infos(self.rows@),
                        before == (|a: usize, b: usize|
                            infos[a as int].sequence < infos[b as int].sequence),
                        forall|k: int|
                            0 <= k < listed@.len() ==> (#[trigger] listed@[k]) < i,
                        forall|k: int| 0 <= k < at ==> !before(i, #[trigger] listed@[k]),
                    decreases listed@.len() - at,
                {
                    assert(infos[listed@[at as int] as int] == self.rows@[listed@[at as int] as int]@);
                    assert(infos[i as int] == self.rows@[i as int]@);
                    assert(!before(i, listed@[at as int]));
                    at += 1;
                }
                proof {
                    if at < listed@.len() {
                        assert(infos[listed@[at as int] as int] == self.rows@[listed@[at as int] as int]@);
                        assert(before(i, listed@[at as int]));
                    }
                    lemma_insert_in_order(listed@, at as int, i, before);
                }
                listed.insert(at, i);
                proof {
                    assert(listed@ == had.insert(at as int, i));
                    assert(listed@[at as int] == i);
                    assert forall|j: int|
                        0 <= j < i + 1 && is_after(
                            #[trigger] infos[j],
                            sequence,
                        ) implies listed@.contains(j as usize) by {
                        if j < i {
                            let k = choose|k: int| 0 <= k < had.len() && had[k] == j as usize;
                            if k < at {
                                assert(listed@[k] == j as usize);
                            } else {
                                assert(listed@[k + 1] == j as usize);
                            }
                        }
                    }
                    assert forall|k: int| 0 <= k < listed@.len() implies (
                    #[trigger] listed@[k]) < i + 1 && is_after(
                        infos[listed@[k] as int],
                        sequence,
                    ) by {
                        if k < at {
                            assert(listed@[k] == had[k]);
                        } else if k > at {
                            assert(listed@[k] == had[k - 1]);
                        }
                    }
                    assert forall|k: int, l: int|
                        0 <= k < listed@.len() && 0 <= l < listed@.len() && k
                            != l implies listed@[k] != listed@[l] by {
                        let a = if k < at { k } else { k - 1 };
                        let b = if l < at { l } else { l - 1 };
                        if k != at {
                            assert(listed@[k] == had[a] && had[a] < i);
                        }
                        if l != at {
                            assert(listed@[l] == had[b] && had[b] < i);
                        }
                    }
                }
            }
            i += 1;
        }
        let ghost all = listed@;
        assert(lists_after(infos, sequence, all));
        if listed.len() > limit as usize {
            listed.truncate(limit as usize);
            assert(listed@ =~= all.take(limit as int));
        } else {
            assert(listed@ =~= all.take(all.len() as int));
        }
        listed
    }
}

/// Whatever is recorded, no two events of a repository have the same number.
pub proof fn law_event_numbers_differ(infos: Seq<EventInfo>, i: int, j: int)
    requires
        events_sound(infos),
        0 <= i < infos.len(),
        0 <= j < infos.len(),
        i != j,
        infos[i].repository_id == infos[j].repository_id,
    ensures
        infos[i].sequence != infos[j].sequence,
{
    if i < j {
        assert(!clashes(infos[i], infos[j].repository_id, infos[j].sequence, infos[j].id));
    } else {
        assert(!clashes(infos[j], infos[i].repository_id, infos[i].sequence, infos[i].id));
    }
}

} // verus!
