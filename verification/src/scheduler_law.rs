//! Who is admitted, and who is granted what.

#[allow(unused_imports)]
use crate::ids::{BuildsetId, RepositoryId, StepId};
#[allow(unused_imports)]
use crate::scheduler::{
    amount, goes_before, is_best, permits, satisfiable, served_once_more, weighted_service,
    Amounts, DispatchRequest, Holding, Limits, PriorityClass, SchedulerView,
};
use vstd::prelude::*;

verus! {

/// How often a repository has been served.
pub open spec fn times_served(service: Map<u128, u64>, repository: RepositoryId) -> nat {
    if service.contains_key(repository.0) {
        service[repository.0] as nat
    } else {
        0
    }
}

proof fn lemma_best_first(
    service: Map<u128, u64>,
    pending: Seq<DispatchRequest>,
    best: int,
    other: int,
)
    requires
        is_best(service, pending, best),
        0 <= other < pending.len(),
    ensures
        !goes_before(service, pending[other], pending[best]),
        other < best ==> goes_before(service, pending[best], pending[other]),
{
    if other < best {
        assert(goes_before(service, pending[best], pending[other]));
    } else if other > best {
        assert(!goes_before(service, pending[other], pending[best]));
    }
}

/// The head of a gate goes before everything else; speculation before independent checks
/// and maintenance; maintenance only when nothing else waits.
pub proof fn law_gates_go_before_maintenance(
    service: Map<u128, u64>,
    pending: Seq<DispatchRequest>,
    best: int,
    other: int,
)
    requires
        is_best(service, pending, best),
        0 <= other < pending.len(),
    ensures
        pending[other].priority == PriorityClass::GateHead ==> pending[best].priority
            == PriorityClass::GateHead,
        pending[other].priority == PriorityClass::Speculative ==> pending[best].priority
            == PriorityClass::GateHead || pending[best].priority == PriorityClass::Speculative,
        pending[best].priority == PriorityClass::Maintenance ==> pending[other].priority
            == PriorityClass::Maintenance,
        pending[best].priority == PriorityClass::Independent ==> pending[other].priority
            == PriorityClass::Independent || pending[other].priority == PriorityClass::Maintenance,
{
    lemma_best_first(service, pending, best, other);
}

/// Among requests of one urgency whose repositories have been served alike, the one at the
/// front of its queue is admitted; among those, the one with the greatest affinity; and
/// among those, the one that has waited longest.
pub proof fn law_the_front_of_the_queue_goes_first(
    service: Map<u128, u64>,
    pending: Seq<DispatchRequest>,
    best: int,
    other: int,
)
    requires
        is_best(service, pending, best),
        0 <= other < pending.len(),
        pending[best].priority == pending[other].priority,
        weighted_service(service, pending[best]) == weighted_service(service, pending[other]),
    ensures
        pending[best].queue_position <= pending[other].queue_position,
        pending[best].queue_position == pending[other].queue_position
            ==> pending[best].affinity_score >= pending[other].affinity_score,
        pending[best].queue_position == pending[other].queue_position
            && pending[best].affinity_score == pending[other].affinity_score ==> best <= other,
{
    lemma_best_first(service, pending, best, other);
}

/// What a repository was served counts in whole shares of its weight; a weight of zero
/// counts as one.
pub proof fn law_service_counts_by_weight(service: Map<u128, u64>, request: DispatchRequest)
    ensures
        ({
            let served = times_served(service, request.repository_id);
            let weight: nat = if request.repository_weight == 0 {
                1
            } else {
                request.repository_weight as nat
            };
            let shares = weighted_service(service, request);
            &&& shares * weight <= served
            &&& served < (shares + 1) * weight
        }),
{
    let served = times_served(service, request.repository_id);
    let weight: nat = if request.repository_weight == 0 {
        1
    } else {
        request.repository_weight as nat
    };
    assert(served / weight * weight <= served < (served / weight + 1) * weight) by (
    nonlinear_arith)
        requires
            weight > 0,
    ;
}

proof fn lemma_unit_weight(service: Map<u128, u64>, request: DispatchRequest)
    requires
        request.repository_weight <= 1,
    ensures
        weighted_service(service, request) == times_served(service, request.repository_id),
{
    let shares = weighted_service(service, request);
    let weight: nat = if request.repository_weight == 0 {
        1
    } else {
        request.repository_weight as nat
    };
    law_service_counts_by_weight(service, request);
    assert(shares * weight == shares && (shares + 1) * weight == shares + 1) by (nonlinear_arith)
        requires
            weight == 1,
    ;
}

/// Of two equally urgent requests the one whose repository has been served less for its
/// weight goes first, however long its queue: nobody is starved by a busy neighbour.
pub proof fn law_busy_repositories_give_way(
    service: Map<u128, u64>,
    pending: Seq<DispatchRequest>,
    best: int,
    other: int,
)
    requires
        is_best(service, pending, best),
        0 <= other < pending.len(),
        pending[best].priority == pending[other].priority,
        pending[best].repository_weight == pending[other].repository_weight,
        pending[best].repository_weight <= 1,
    ensures
        times_served(service, pending[best].repository_id) <= times_served(
            service,
            pending[other].repository_id,
        ),
{
    lemma_best_first(service, pending, best, other);
    lemma_unit_weight(service, pending[best]);
    lemma_unit_weight(service, pending[other]);
}

/// Whenever somebody waits, somebody goes first.
pub proof fn law_somebody_goes_first(service: Map<u128, u64>, pending: Seq<DispatchRequest>)
    requires
        pending.len() > 0,
    ensures
        exists|i: int| is_best(service, pending, i),
    decreases pending.len(),
{
    let last = pending.len() - 1;
    if pending.len() == 1 {
        assert(is_best(service, pending, 0));
    } else {
        let rest = pending.drop_last();
        law_somebody_goes_first(service, rest);
        let b = choose|i: int| is_best(service, rest, i);
        if goes_before(service, pending[last], pending[b]) {
            assert forall|j: int| 0 <= j < last implies goes_before(
                service,
                pending[last],
                #[trigger] pending[j],
            ) by {
                assert(pending[j] == rest[j]);
                if j < b {
                    assert(goes_before(service, rest[b], rest[j]));
                } else if j > b {
                    assert(!goes_before(service, rest[j], rest[b]));
                }
            }
            assert(is_best(service, pending, last));
        } else {
            assert forall|j: int| 0 <= j < b implies goes_before(
                service,
                pending[b],
                #[trigger] pending[j],
            ) by {
                assert(rest[j] == pending[j]);
                assert(goes_before(service, rest[b], rest[j]));
            }
            assert forall|j: int| b < j < pending.len() implies !goes_before(
                service,
                #[trigger] pending[j],
                pending[b],
            ) by {
                if j < last {
                    assert(rest[j] == pending[j]);
                    assert(!goes_before(service, rest[j], rest[b]));
                }
            }
            assert(is_best(service, pending, b));
        }
    }
}

/// Admitting somebody takes one place, counts once for that repository and for no other, and
/// leaves the others waiting in their order; resources are not touched.
pub proof fn law_one_admission_takes_one_place(state: SchedulerView, i: int, other: RepositoryId)
    requires
        0 <= i < state.pending.len(),
        state.countable(),
    ensures
        ({
            let after = state.take_in(i);
            let admitted = state.pending[i].repository_id;
            &&& after.admitted == state.admitted + 1
            &&& after.pending.len() == state.pending.len() - 1
            &&& forall|k: int| 0 <= k < i ==> #[trigger] after.pending[k] == state.pending[k]
            &&& forall|k: int|
                i <= k < after.pending.len() ==> #[trigger] after.pending[k] == state.pending[k + 1]
            &&& times_served(after.service, admitted) == times_served(state.service, admitted) + 1
            &&& other != admitted ==> times_served(after.service, other) == times_served(
                state.service,
                other,
            )
            &&& after.limits == state.limits
            &&& after.cpu_reserved == state.cpu_reserved
            &&& after.memory_reserved == state.memory_reserved
            &&& after.semaphore_reserved == state.semaphore_reserved
            &&& after.holdings == state.holdings
            &&& after.granted == state.granted
        }),
{
    if state.service.contains_key(state.pending[i].repository_id.0) {
        assert(state.service.dom().contains(state.pending[i].repository_id.0));
    }
}

/// Somebody is admitted exactly if somebody waits and a place is free.
pub proof fn law_places_are_given_when_free(state: SchedulerView)
    ensures
        state.can_take_in() <==> state.pending.len() > 0 && state.admitted
            < state.limits.max_buildsets,
{
}

/// After admission no place is free while somebody waits; nobody was admitted who did not
/// wait; and as many were admitted as no longer wait.
pub proof fn law_no_place_stays_free(state: SchedulerView)
    ensures
        ({
            let after = state.take_in_all();
            &&& after.pending.len() == 0 || after.admitted >= state.limits.max_buildsets
            &&& after.admitted - state.admitted == state.pending.len() - after.pending.len()
            &&& after.limits == state.limits
            &&& after.cpu_reserved == state.cpu_reserved
            &&& after.memory_reserved == state.memory_reserved
            &&& after.semaphore_reserved == state.semaphore_reserved
            &&& after.holdings == state.holdings
            &&& forall|id: u128| #[trigger]
                state.granted.contains(id) ==> after.granted.contains(id)
            &&& forall|id: u128| #[trigger]
                after.granted.contains(id) ==> state.granted.contains(id) || state.waits(
                    BuildsetId(id),
                )
            &&& forall|k: int|
                0 <= k < after.pending.len() ==> state.pending.contains(#[trigger] after.pending[k])
        }),
    decreases state.pending.len(),
{
    if state.can_take_in() {
        law_somebody_goes_first(state.service, state.pending);
        let i = choose|i: int| is_best(state.service, state.pending, i);
        let admitted = state.take_in(i);
        let next = SchedulerView {
            granted: admitted.granted.insert(state.pending[i].buildset_id.0),
            ..admitted
        };
        law_no_place_stays_free(next);
        let after = state.take_in_all();
        assert(after == next.take_in_all());
        assert forall|id: u128| #[trigger] after.granted.contains(id) implies state.granted.contains(
            id,
        ) || state.waits(BuildsetId(id)) by {
            if !state.granted.contains(id) {
                if next.granted.contains(id) {
                    assert(state.pending[i].buildset_id == BuildsetId(id));
                } else {
                    assert(next.waits(BuildsetId(id)));
                    let k = choose|k: int|
                        0 <= k < next.pending.len() && (#[trigger] next.pending[k]).buildset_id
                            == BuildsetId(id);
                    let m = if k < i {
                        k
                    } else {
                        k + 1
                    };
                    assert(state.pending[m] == next.pending[k]);
                }
            }
        }
        assert forall|k: int| 0 <= k < after.pending.len() implies state.pending.contains(
            #[trigger] after.pending[k],
        ) by {
            assert(next.pending.contains(after.pending[k]));
            let j = choose|j: int| 0 <= j < next.pending.len() && next.pending[j]
                == after.pending[k];
            let m = if j < i {
                j
            } else {
                j + 1
            };
            assert(state.pending[m] == next.pending[j]);
        }
        assert forall|id: u128| #[trigger] state.granted.contains(id) implies after.granted.contains(
            id,
        ) by {
            assert(next.granted.contains(id));
        }
    } else {
        assert forall|k: int| 0 <= k < state.pending.len() implies state.pending.contains(
            #[trigger] state.pending[k],
        ) by {}
    }
}

/// A buildset that asks waits behind those that waited before, once, however often it asks;
/// asking changes nothing else.
pub proof fn law_asking_twice_is_asking_once(state: SchedulerView, request: DispatchRequest)
    ensures
        ({
            let once = state.request(request);
            &&& once.request(request) == once
            &&& once.waits(request.buildset_id) || once.granted.contains(request.buildset_id.0)
            &&& !state.waits(request.buildset_id) && !state.granted.contains(request.buildset_id.0)
                ==> once.pending == state.pending.push(request)
            &&& once.admitted == state.admitted
            &&& once.granted == state.granted
            &&& once.service == state.service
            &&& once.holdings == state.holdings
        }),
{
    let once = state.request(request);
    if !(state.waits(request.buildset_id) || state.granted.contains(request.buildset_id.0)) {
        assert(once.pending[state.pending.len() as int] == request);
    }
}

/// A buildset that takes the place it was given keeps it: the number of places taken stays,
/// and nobody else's place is touched.
pub proof fn law_claims_keep_the_place(state: SchedulerView, id: BuildsetId, other: u128)
    ensures
        state.claim(id).admitted == state.admitted,
        !state.claim(id).granted.contains(id.0),
        other != id.0 ==> (state.claim(id).granted.contains(other) <==> state.granted.contains(
            other,
        )),
        state.claim(id).pending == state.pending,
        state.claim(id).service == state.service,
{
}

/// A buildset that withdraws neither waits nor has a place, and nobody else is touched: the
/// others wait in their order, and a place is freed only if it was given one.
pub proof fn law_withdrawals_touch_nobody_else(state: SchedulerView, id: BuildsetId, other: u128)
    ensures
        !state.withdraw(id).granted.contains(id.0),
        other != id.0 ==> (state.withdraw(id).granted.contains(other) <==> state.granted.contains(
            other,
        )),
        !state.granted.contains(id.0) ==> state.withdraw(id).admitted == state.admitted,
        state.withdraw(id).service == state.service,
        forall|k: int|
            0 <= k < state.withdraw(id).pending.len() ==> (
            #[trigger] state.withdraw(id).pending[k]).buildset_id != id && state.pending.contains(
                state.withdraw(id).pending[k],
            ),
        forall|k: int|
            0 <= k < state.pending.len() && (#[trigger] state.pending[k]).buildset_id != id
                ==> state.withdraw(id).pending.contains(state.pending[k]),
{
    crate::seqs::lemma_filter_members(
        state.pending,
        |r: DispatchRequest| r.buildset_id != id,
    );
}

/// A request can be granted some time exactly if it fits a pool of which nothing is in use.
/// What fits now can be granted some time.
pub proof fn law_requests_fit_an_idle_pool(state: SchedulerView, request: Amounts)
    ensures
        ({
            let idle = SchedulerView {
                cpu_reserved: 0,
                memory_reserved: 0,
                semaphore_reserved: Map::empty(),
                ..state
            };
            satisfiable(state.limits, request) <==> idle.fits(request)
        }),
        state.fits(request) ==> satisfiable(state.limits, request),
{
    let idle = SchedulerView {
        cpu_reserved: 0,
        memory_reserved: 0,
        semaphore_reserved: Map::empty(),
        ..state
    };
    if satisfiable(state.limits, request) {
        assert forall|name: Seq<char>| #[trigger]
            request.semaphores.dom().contains(name) implies amount(idle.semaphore_reserved, name)
            + request.semaphores[name] <= permits(state.limits.semaphores, name) by {}
    }
    if idle.fits(request) {
        assert forall|name: Seq<char>| #[trigger]
            request.semaphores.dom().contains(name) implies request.semaphores[name] <= permits(
            state.limits.semaphores,
            name,
        ) by {
            assert(amount(idle.semaphore_reserved, name) + request.semaphores[name] <= permits(
                state.limits.semaphores,
                name,
            ));
        }
    }
    if state.fits(request) {
        assert forall|name: Seq<char>| #[trigger]
            request.semaphores.dom().contains(name) implies request.semaphores[name] <= permits(
            state.limits.semaphores,
            name,
        ) by {
            assert(amount(state.semaphore_reserved, name) + request.semaphores[name] <= permits(
                state.limits.semaphores,
                name,
            ));
        }
    }
}

/// A request is turned away only for a resource of which too little is left: tokens, memory,
/// or permits of a semaphore that it asks for. A semaphore that nobody configured has one.
pub proof fn law_what_is_left_is_granted(state: SchedulerView, request: Amounts)
    ensures
        !state.fits(request) ==> {
            ||| request.cpu_tokens > state.limits.cpu_tokens - state.cpu_reserved
            ||| request.memory_bytes > state.limits.memory_bytes - state.memory_reserved
            ||| exists|name: Seq<char>|
                request.semaphores.contains_key(name) && (#[trigger] request.semaphores[name])
                    + amount(state.semaphore_reserved, name) > permits(state.limits.semaphores, name)
        },
        forall|name: Seq<char>|
            !state.limits.semaphores.contains_key(name) ==> #[trigger] permits(
                state.limits.semaphores,
                name,
            ) == 1,
        forall|name: Seq<char>|
            state.limits.semaphores.contains_key(name) ==> #[trigger] permits(
                state.limits.semaphores,
                name,
            ) == state.limits.semaphores[name],
        forall|name: Seq<char>|
            state.semaphore_reserved.contains_key(name) ==> #[trigger] amount(
                state.semaphore_reserved,
                name,
            ) == state.semaphore_reserved[name],
        forall|name: Seq<char>|
            !state.semaphore_reserved.contains_key(name) ==> #[trigger] amount(
                state.semaphore_reserved,
                name,
            ) == 0,
{
    if !state.fits(request) && request.cpu_tokens <= state.limits.cpu_tokens - state.cpu_reserved
        && request.memory_bytes <= state.limits.memory_bytes - state.memory_reserved {
        let name = choose|name: Seq<char>| #[trigger]
            request.semaphores.dom().contains(name) && !(amount(state.semaphore_reserved, name)
                + request.semaphores[name] <= permits(state.limits.semaphores, name));
        assert(request.semaphores.contains_key(name) && request.semaphores[name] + amount(
            state.semaphore_reserved,
            name,
        ) > permits(state.limits.semaphores, name));
    }
}

/// A grant reserves exactly what was asked for, under the name of the step, and takes
/// nothing from the others.
pub proof fn law_grants_reserve_what_was_asked_for(
    state: SchedulerView,
    step_id: StepId,
    request: Amounts,
    name: Seq<char>,
)
    requires
        state.fits(request),
        amount(state.semaphore_reserved, name) + amount(request.semaphores, name) <= u16::MAX,
    ensures
        ({
            let after = state.acquire(step_id, request);
            &&& after.cpu_reserved - state.cpu_reserved == request.cpu_tokens
            &&& after.memory_reserved - state.memory_reserved == request.memory_bytes
            &&& amount(after.semaphore_reserved, name) - amount(state.semaphore_reserved, name)
                == amount(request.semaphores, name)
            &&& after.holds(step_id)
            &&& after.holdings.drop_last() == state.holdings
            &&& after.holdings.last().amounts == request
            &&& after.admitted == state.admitted
            &&& after.pending == state.pending
            &&& after.service == state.service
            &&& after.limits == state.limits
        }),
{
    let after = state.acquire(step_id, request);
    assert(after.holdings[state.holdings.len() as int].step_id == step_id);
    assert(after.holdings.drop_last() =~= state.holdings);
}

} // verus!
