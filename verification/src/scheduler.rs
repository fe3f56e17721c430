//! Admission of buildsets and allocation of step resources, across repositories.

use crate::ids::{BuildsetId, RepositoryId, StepId};
#[allow(unused_imports)]
use crate::seqs::{
    lemma_filter_ends, lemma_filter_members, lemma_filter_step, lemma_total_push,
    lemma_total_remove, total,
};
use crate::text_map::TextMap;
use std::collections::{HashMap, HashSet};
use vstd::prelude::*;

verus! {

broadcast use vstd::std_specs::hash::group_hash_axioms;

/// How urgent a buildset is; earlier classes go first.
#[derive(Clone, Copy, Debug, PartialEq, Eq, PartialOrd, Ord, Structural)]
pub enum PriorityClass {
    GateHead,
    Speculative,
    Independent,
    Maintenance,
}

impl PriorityClass {
    /// The place of the class in the order.
    pub open spec fn rank(self) -> nat {
        match self {
            PriorityClass::GateHead => 0,
            PriorityClass::Speculative => 1,
            PriorityClass::Independent => 2,
            PriorityClass::Maintenance => 3,
        }
    }

    /// The place of the class in the order.
    pub fn level(self) -> (r: u8)
        ensures
            r == self.rank(),
    {
        match self {
            PriorityClass::GateHead => 0,
            PriorityClass::Speculative => 1,
            PriorityClass::Independent => 2,
            PriorityClass::Maintenance => 3,
        }
    }
}

/// What there is to share. A semaphore without an entry has one permit.
#[derive(Clone, Debug, PartialEq, Eq)]
pub struct ResourceCapacity {
    pub max_buildsets: u16,
    pub cpu_tokens: u16,
    pub memory_bytes: u64,
    pub semaphores: TextMap<u16>,
}

/// What a step asks for.
#[derive(Clone, Debug, PartialEq, Eq)]
pub struct StepResources {
    pub cpu_tokens: u16,
    pub memory_bytes: u64,
    pub semaphores: TextMap<u16>,
}

/// A buildset that waits for admission.
#[derive(Clone, Copy, Debug, PartialEq, Eq, Structural)]
pub struct DispatchRequest {
    pub repository_id: RepositoryId,
    pub buildset_id: BuildsetId,
    pub priority: PriorityClass,
    pub queue_position: u16,
    pub repository_weight: u16,
    pub affinity_score: i64,
}

/// Why the scheduler refused.
#[derive(Debug, PartialEq, Eq)]
pub enum SchedulerError {
    Unsatisfiable(String),
    UnknownAllocation,
    Canceled,
}

impl SchedulerError {
    /// The message shown for the error.
    pub open spec fn text(self) -> Seq<char> {
        match self {
            SchedulerError::Unsatisfiable(what) =>
                "resource request can never fit in the configured pool: "@ + what@,
            SchedulerError::UnknownAllocation => "allocation does not exist"@,
            SchedulerError::Canceled => "resource admission was canceled"@,
        }
    }

    /// The message shown for the error.
    pub fn message(&self) -> (r: String)
        ensures
            r@ == self.text(),
    {
        match self {
            SchedulerError::Unsatisfiable(what) => {
                "resource request can never fit in the configured pool: ".to_owned().concat(
                    what.as_str(),
                )
            },
            SchedulerError::UnknownAllocation => "allocation does not exist".to_owned(),
            SchedulerError::Canceled => "resource admission was canceled".to_owned(),
        }
    }
}

/// What is in use.
#[derive(Clone, Debug, PartialEq, Eq)]
pub struct ResourceUsage {
    pub admitted_buildsets: u16,
    pub cpu_reserved: u16,
    pub memory_reserved: u64,
    pub semaphore_reserved: TextMap<u16>,
    pub pending_buildsets: u32,
}

/// The amounts of a `StepResources`.
#[verifier::ext_equal]
pub struct Amounts {
    pub cpu_tokens: nat,
    pub memory_bytes: nat,
    pub semaphores: Map<Seq<char>, u16>,
}

impl View for StepResources {
    type V = Amounts;

    open spec fn view(&self) -> Amounts {
        Amounts {
            cpu_tokens: self.cpu_tokens as nat,
            memory_bytes: self.memory_bytes as nat,
            semaphores: self.semaphores@,
        }
    }
}

/// The limits of a `ResourceCapacity`.
#[verifier::ext_equal]
pub struct Limits {
    pub max_buildsets: nat,
    pub cpu_tokens: nat,
    pub memory_bytes: nat,
    pub semaphores: Map<Seq<char>, u16>,
}

impl View for ResourceCapacity {
    type V = Limits;

    open spec fn view(&self) -> Limits {
        Limits {
            max_buildsets: self.max_buildsets as nat,
            cpu_tokens: self.cpu_tokens as nat,
            memory_bytes: self.memory_bytes as nat,
            semaphores: self.semaphores@,
        }
    }
}

/// The amount under a name; none if there is no entry.
pub open spec fn amount(amounts: Map<Seq<char>, u16>, name: Seq<char>) -> nat {
    if amounts.dom().contains(name) {
        amounts[name] as nat
    } else {
        0
    }
}

/// The permits of a semaphore; one if there is no entry.
pub open spec fn permits(limits: Map<Seq<char>, u16>, name: Seq<char>) -> nat {
    if limits.dom().contains(name) {
        limits[name] as nat
    } else {
        1
    }
}

/// A step that holds resources.
#[verifier::ext_equal]
pub struct Holding {
    pub step_id: StepId,
    pub amounts: Amounts,
}

/// The state of the scheduler: limits, use, and who waits.
#[verifier::ext_equal]
pub struct SchedulerView {
    pub limits: Limits,
    pub admitted: nat,
    pub cpu_reserved: nat,
    pub memory_reserved: nat,
    pub semaphore_reserved: Map<Seq<char>, u16>,
    pub holdings: Seq<Holding>,
    pub pending: Seq<DispatchRequest>,
    pub granted: Set<u128>,
    pub service: Map<u128, u64>,
}

/// The request could be granted on an idle pool.
pub open spec fn satisfiable(limits: Limits, request: Amounts) -> bool {
    &&& request.cpu_tokens <= limits.cpu_tokens
    &&& request.memory_bytes <= limits.memory_bytes
    &&& forall|name: Seq<char>| #[trigger]
        request.semaphores.dom().contains(name) ==> request.semaphores[name] <= permits(
            limits.semaphores,
            name,
        )
}

/// How often a repository has been served, in proportion to its weight.
pub open spec fn weighted_service(service: Map<u128, u64>, request: DispatchRequest) -> nat {
    let served: nat = if service.dom().contains(request.repository_id.0) {
        service[request.repository_id.0] as nat
    } else {
        0
    };
    let weight: nat = if request.repository_weight == 0 {
        1
    } else {
        request.repository_weight as nat
    };
    served / weight
}

/// Request `a` goes strictly before `b`: by priority, then by how little its
/// repository has been served, then by queue position, then by affinity.
pub open spec fn goes_before(
    service: Map<u128, u64>,
    a: DispatchRequest,
    b: DispatchRequest,
) -> bool {
    let (sa, sb) = (weighted_service(service, a), weighted_service(service, b));
    if a.priority.rank() != b.priority.rank() {
        a.priority.rank() < b.priority.rank()
    } else if sa != sb {
        sa < sb
    } else if a.queue_position != b.queue_position {
        a.queue_position < b.queue_position
    } else {
        a.affinity_score > b.affinity_score
    }
}

/// Position `i` holds the request that goes first; among equals, the one that came first.
pub open spec fn is_best(service: Map<u128, u64>, pending: Seq<DispatchRequest>, i: int) -> bool {
    &&& 0 <= i < pending.len()
    &&& forall|j: int|
        0 <= j < i ==> goes_before(service, pending[i], #[trigger] pending[j])
    &&& forall|j: int|
        i < j < pending.len() ==> !goes_before(service, #[trigger] pending[j], pending[i])
}

/// The repository has been served once more.
pub open spec fn served_once_more(service: Map<u128, u64>, repository: RepositoryId) -> Map<
    u128,
    u64,
> {
    service.insert(
        repository.0,
        if service.dom().contains(repository.0) {
            (service[repository.0] + 1) as u64
        } else {
            1
        },
    )
}

impl SchedulerView {
    /// What is reserved is what the holders hold.
    pub open spec fn consistent(self) -> bool {
        &&& forall|i: int, j: int|
            0 <= i < j < self.holdings.len() ==> (#[trigger] self.holdings[i]).step_id != (
            #[trigger] self.holdings[j]).step_id
        &&& self.cpu_reserved == total(self.holdings, |h: Holding| h.amounts.cpu_tokens)
        &&& self.memory_reserved == total(self.holdings, |h: Holding| h.amounts.memory_bytes)
        &&& forall|name: Seq<char>| #[trigger]
            amount(self.semaphore_reserved, name) == total(
                self.holdings,
                |h: Holding| amount(h.amounts.semaphores, name),
            )
        &&& forall|i: int, name: Seq<char>|
            0 <= i < self.holdings.len() && #[trigger] self.holdings[i].amounts.semaphores.dom().contains(
                name,
            ) ==> self.semaphore_reserved.dom().contains(name)
    }

    /// The step holds resources.
    pub open spec fn holds(self, step_id: StepId) -> bool {
        exists|i: int| 0 <= i < self.holdings.len() && (#[trigger] self.holdings[i]).step_id == step_id
    }

    /// The request can be granted next to what is reserved.
    pub open spec fn fits(self, request: Amounts) -> bool {
        &&& self.cpu_reserved + request.cpu_tokens <= self.limits.cpu_tokens
        &&& self.memory_reserved + request.memory_bytes <= self.limits.memory_bytes
        &&& forall|name: Seq<char>| #[trigger]
            request.semaphores.dom().contains(name) ==> amount(self.semaphore_reserved, name)
                + request.semaphores[name] <= permits(self.limits.semaphores, name)
    }

    /// The state with the request granted to the step, all of it at once.
    pub open spec fn acquire(self, step_id: StepId, request: Amounts) -> SchedulerView {
        SchedulerView {
            cpu_reserved: self.cpu_reserved + request.cpu_tokens,
            memory_reserved: self.memory_reserved + request.memory_bytes,
            semaphore_reserved: Map::new(
                |name: Seq<char>|
                    self.semaphore_reserved.dom().contains(name)
                        || request.semaphores.dom().contains(name),
                |name: Seq<char>|
                    (amount(self.semaphore_reserved, name) + amount(request.semaphores, name)) as u16,
            ),
            holdings: self.holdings.push(Holding { step_id, amounts: request }),
            ..self
        }
    }

    /// The state with what holding `i` holds given back.
    pub open spec fn release(self, i: int) -> SchedulerView {
        let held = self.holdings[i].amounts;
        SchedulerView {
            cpu_reserved: (self.cpu_reserved - held.cpu_tokens) as nat,
            memory_reserved: (self.memory_reserved - held.memory_bytes) as nat,
            semaphore_reserved: Map::new(
                |name: Seq<char>| self.semaphore_reserved.dom().contains(name),
                |name: Seq<char>|
                    (self.semaphore_reserved[name] - amount(held.semaphores, name)) as u16,
            ),
            holdings: self.holdings.remove(i),
            ..self
        }
    }

    /// There is a free place and somebody who waits for it.
    pub open spec fn can_take_in(self) -> bool {
        self.admitted < self.limits.max_buildsets && self.pending.len() > 0
    }

    /// The state after request `i` has been admitted.
    pub open spec fn take_in(self, i: int) -> SchedulerView {
        SchedulerView {
            admitted: self.admitted + 1,
            pending: self.pending.remove(i),
            service: served_once_more(self.service, self.pending[i].repository_id),
            ..self
        }
    }

    /// The state after everyone has been admitted for whom there is a place,
    /// always the best first; those admitted wait to be claimed.
    pub open spec fn take_in_all(self) -> SchedulerView
        decreases self.pending.len(),
    {
        if self.can_take_in() && exists|i: int| is_best(self.service, self.pending, i) {
            let i = choose|i: int| is_best(self.service, self.pending, i);
            let admitted = self.take_in(i);
            SchedulerView {
                granted: admitted.granted.insert(self.pending[i].buildset_id.0),
                ..admitted
            }.take_in_all()
        } else {
            self
        }
    }

    /// The buildset waits for admission.
    pub open spec fn waits(self, id: BuildsetId) -> bool {
        exists|i: int| 0 <= i < self.pending.len() && (#[trigger] self.pending[i]).buildset_id == id
    }

    /// The state with the request waiting, unless its buildset waits or has been admitted already.
    pub open spec fn request(self, request: DispatchRequest) -> SchedulerView {
        if self.waits(request.buildset_id) || self.granted.contains(request.buildset_id.0) {
            self
        } else {
            SchedulerView { pending: self.pending.push(request), ..self }
        }
    }

    /// The state after the buildset has taken its place, if it was admitted.
    pub open spec fn claim(self, id: BuildsetId) -> SchedulerView {
        SchedulerView { granted: self.granted.remove(id.0), ..self }
    }

    /// The state without the buildset: it no longer waits, and a place that it
    /// was given and has not claimed is free again.
    pub open spec fn withdraw(self, id: BuildsetId) -> SchedulerView {
        SchedulerView {
            pending: self.pending.filter(|r: DispatchRequest| r.buildset_id != id),
            granted: self.granted.remove(id.0),
            admitted: if self.granted.contains(id.0) && self.admitted > 0 {
                (self.admitted - 1) as nat
            } else {
                self.admitted
            },
            ..self
        }
    }

    /// No count of admissions can overflow when everyone who waits is admitted.
    pub open spec fn countable(self) -> bool {
        &&& self.pending.len() + 1 < u64::MAX
        &&& forall|id: u128| #[trigger]
            self.service.dom().contains(id) ==> self.service[id] + self.pending.len() < u64::MAX
    }
}

/// The scheduler that all repositories share.
pub struct GlobalScheduler {
    capacity: ResourceCapacity,
    admitted_buildsets: u16,
    cpu_reserved: u16,
    memory_reserved: u64,
    semaphore_reserved: TextMap<u16>,
    allocations: Vec<(StepId, StepResources)>,
    pending: Vec<DispatchRequest>,
    granted: HashSet<u128>,
    repository_service: HashMap<u128, u64>,
}

impl View for GlobalScheduler {
    type V = SchedulerView;

    closed spec fn view(&self) -> SchedulerView {
        SchedulerView {
            limits: self.capacity@,
            admitted: self.admitted_buildsets as nat,
            cpu_reserved: self.cpu_reserved as nat,
            memory_reserved: self.memory_reserved as nat,
            semaphore_reserved: self.semaphore_reserved@,
            holdings: self.allocations@.map_values(
                |a: (StepId, StepResources)| Holding { step_id: a.0, amounts: a.1@ },
            ),
            pending: self.pending@,
            granted: self.granted@,
            service: self.repository_service@,
        }
    }
}

/// Whether one request goes before another.
fn ranks_before(
    service: &HashMap<u128, u64>,
    a: &DispatchRequest,
    b: &DispatchRequest,
) -> (r: bool)
    ensures
        r == goes_before(service@, *a, *b),
{
    let (pa, pb) = (a.priority.level(), b.priority.level());
    if pa != pb {
        return pa < pb;
    }
    let (sa, sb) = (service_of(service, a), service_of(service, b));
    if sa != sb {
        return sa < sb;
    }
    if a.queue_position != b.queue_position {
        return a.queue_position < b.queue_position;
    }
    a.affinity_score > b.affinity_score
}

fn service_of(service: &HashMap<u128, u64>, request: &DispatchRequest) -> (r: u64)
    ensures
        r == weighted_service(service@, *request),
{
    let served: u64 = match service.get(&request.repository_id.0) {
        Some(count) => *count,
        None => 0,
    };
    let weight: u64 = if request.repository_weight == 0 {
        1
    } else {
        request.repository_weight as u64
    };
    served / weight
}

/// What goes before `b` goes before everything that does not itself go before `b`.
proof fn lemma_goes_before_order(
    service: Map<u128, u64>,
    a: DispatchRequest,
    b: DispatchRequest,
    c: DispatchRequest,
)
    ensures
        goes_before(service, a, b) && goes_before(service, b, c) ==> goes_before(service, a, c),
        goes_before(service, a, b) && !goes_before(service, c, b) ==> goes_before(service, a, c),
{
}

/// Only one request can be the best.
proof fn lemma_best_unique(service: Map<u128, u64>, pending: Seq<DispatchRequest>, i: int, j: int)
    requires
        is_best(service, pending, i),
        is_best(service, pending, j),
    ensures
        i == j,
{
    if i < j {
        assert(goes_before(service, pending[j], pending[i]));
    } else if j < i {
        assert(goes_before(service, pending[i], pending[j]));
    }
}

/// Semaphore `i` of the request, in the order of names, is the first that asks for
/// more permits than there are.
pub open spec fn first_excess(limits: Limits, request: StepResources, i: int) -> bool {
    let keys = request.semaphores.keys();
    &&& 0 <= i < keys.len()
    &&& request.semaphores@[keys[i]] > permits(limits.semaphores, keys[i])
    &&& forall|j: int|
        0 <= j < i ==> request.semaphores@[keys[j]] <= #[trigger] permits(
            limits.semaphores,
            keys[j],
        )
}

/// The error names the first resource of which the request asks for more than there is.
pub open spec fn names_excess(limits: Limits, request: StepResources, error: SchedulerError) -> bool {
    error matches SchedulerError::Unsatisfiable(what) && if request.cpu_tokens
        > limits.cpu_tokens {
        what@ == "CPU tokens"@
    } else if request.memory_bytes > limits.memory_bytes {
        what@ == "memory"@
    } else {
        exists|i: int|
            #[trigger] first_excess(limits, request, i) && what@ == "semaphore `"@
                + request.semaphores.keys()[i] + "`"@
    }
}

/// Checks that a request can be granted on an idle pool, and names the first
/// resource that stands against it.
pub fn validate_request(capacity: &ResourceCapacity, request: &StepResources) -> (r: Result<
    (),
    SchedulerError,
>)
    ensures
        r is Ok <==> satisfiable(capacity@, request@),
        r matches Err(error) ==> names_excess(capacity@, *request, error),
{
    if request.cpu_tokens > capacity.cpu_tokens {
        return Err(SchedulerError::Unsatisfiable("CPU tokens".to_owned()));
    }
    if request.memory_bytes > capacity.memory_bytes {
        return Err(SchedulerError::Unsatisfiable("memory".to_owned()));
    }
    let count = request.semaphores.len();
    let mut i: usize = 0;
    while i < count
        invariant
            i <= count,
            count == request.semaphores.keys().len(),
            request.semaphores@.dom() == request.semaphores.keys().to_set(),
            request.cpu_tokens <= capacity.cpu_tokens,
            request.memory_bytes <= capacity.memory_bytes,
            forall|j: int|
                0 <= j < i ==> request.semaphores@[#[trigger] request.semaphores.keys()[j]]
                    <= permits(capacity.semaphores@, request.semaphores.keys()[j]),
        decreases count - i,
    {
        let name = request.semaphores.key_at(i);
        let wanted = *request.semaphores.value_at(i);
        let limit: u16 = match capacity.semaphores.get(name.as_str()) {
            Some(limit) => *limit,
            None => 1,
        };
        if wanted > limit {
            let what = "semaphore `".to_owned().concat(name.as_str()).concat("`");
            assert(request@.semaphores.dom().contains(name@));
            assert(first_excess(capacity@, *request, i as int));
            return Err(SchedulerError::Unsatisfiable(what));
        }
        i += 1;
    }
    assert forall|name: Seq<char>| #[trigger] request@.semaphores.dom().contains(
        name,
    ) implies request@.semaphores[name] <= permits(capacity@.semaphores, name) by {
        let keys = request.semaphores.keys();
        assert(keys.contains(name));
        let j = choose|j: int| 0 <= j < keys.len() && keys[j] == name;
        assert(request.semaphores@[keys[j]] <= permits(capacity.semaphores@, keys[j]));
    }
    Ok(())
}

impl GlobalScheduler {
    /// What is reserved is what the holders hold.
    pub open spec fn wf(self) -> bool {
        self@.consistent()
    }

    /// An idle scheduler.
    pub fn new(capacity: ResourceCapacity) -> (r: GlobalScheduler)
        ensures
            r.wf(),
            r@ == (SchedulerView {
                limits: capacity@,
                admitted: 0,
                cpu_reserved: 0,
                memory_reserved: 0,
                semaphore_reserved: Map::empty(),
                holdings: Seq::empty(),
                pending: Seq::empty(),
                granted: Set::empty(),
                service: Map::empty(),
            }),
    {
        let r = GlobalScheduler {
            capacity,
            admitted_buildsets: 0,
            cpu_reserved: 0,
            memory_reserved: 0,
            semaphore_reserved: TextMap::new(),
            allocations: Vec::new(),
            pending: Vec::new(),
            granted: HashSet::new(),
            repository_service: HashMap::new(),
        };
        assert(r@.holdings =~= Seq::empty());
        r
    }

    /// Changes what may be admitted from now on. What is allocated stays so, even
    /// where it is more than the new limits: it drains, and nothing new is
    /// granted until it fits.
    pub fn reconfigure(&mut self, capacity: ResourceCapacity)
        requires
            old(self).wf(),
        ensures
            final(self).wf(),
            final(self)@ == (SchedulerView { limits: capacity@, ..old(self)@ }),
    {
        self.capacity = capacity;
    }

    /// The limits in force.
    pub fn capacity(&self) -> (r: &ResourceCapacity)
        ensures
            r@ == self@.limits,
    {
        &self.capacity
    }

    /// Lets a buildset wait for admission.
    pub fn enqueue(&mut self, request: DispatchRequest)
        requires
            old(self).wf(),
        ensures
            final(self).wf(),
            final(self)@ == (SchedulerView {
                pending: old(self)@.pending.push(request),
                ..old(self)@
            }),
    {
        self.pending.push(request);
    }

    /// The position of the request that goes first.
    fn best(&self) -> (r: usize)
        requires
            self@.pending.len() > 0,
        ensures
            is_best(self@.service, self@.pending, r as int),
    {
        let mut best: usize = 0;
        let mut i: usize = 1;
        let ghost service = self.repository_service@;
        let ghost pending = self.pending@;
        while i < self.pending.len()
            invariant
                service == self.repository_service@,
                pending == self.pending@,
                best < i <= pending.len(),
                forall|j: int|
                    0 <= j < best ==> goes_before(
                        service,
                        pending[best as int],
                        #[trigger] pending[j],
                    ),
                forall|j: int|
                    best < j < i ==> !goes_before(
                        service,
                        #[trigger] pending[j],
                        pending[best as int],
                    ),
            decreases pending.len() - i,
        {
            if ranks_before(&self.repository_service, &self.pending[i], &self.pending[best]) {
                proof {
                    assert forall|j: int| 0 <= j < i implies goes_before(
                        service,
                        pending[i as int],
                        #[trigger] pending[j],
                    ) by {
                        lemma_goes_before_order(
                            service,
                            pending[i as int],
                            pending[best as int],
                            pending[j],
                        );
                    }
                }
                best = i;
            }
            i += 1;
        }
        best
    }

    /// Admits request `i`.
    fn take_in(&mut self, i: usize) -> (r: DispatchRequest)
        requires
            old(self).wf(),
            old(self)@.countable(),
            old(self)@.can_take_in(),
            i < old(self)@.pending.len(),
        ensures
            final(self).wf(),
            r == old(self)@.pending[i as int],
            final(self)@ == old(self)@.take_in(i as int),
            final(self)@.countable(),
    {
        let ghost before = self@;
        let selected = self.pending.remove(i);
        let served: u64 = match self.repository_service.get(&selected.repository_id.0) {
            Some(count) => *count,
            None => 0,
        };
        assert(before.service.dom().contains(selected.repository_id.0) ==> served
            == before.service[selected.repository_id.0]);
        self.repository_service.insert(selected.repository_id.0, served + 1);
        self.admitted_buildsets = self.admitted_buildsets + 1;
        assert(self@ =~= before.take_in(i as int));
        assert forall|id: u128| #[trigger] self@.service.dom().contains(id) implies self@.service[id]
            + self@.pending.len() < u64::MAX by {
            assert(before.service.dom().contains(id) || id == selected.repository_id.0);
        }
        selected
    }

    /// Admits the request that goes first, if there is a free place.
    pub fn next_buildset(&mut self) -> (r: Option<DispatchRequest>)
        requires
            old(self).wf(),
            old(self)@.countable(),
        ensures
            final(self).wf(),
            r is Some <==> old(self)@.can_take_in(),
            r is None ==> final(self)@ == old(self)@,
            r matches Some(selected) ==> exists|i: int| #[trigger]
                is_best(old(self)@.service, old(self)@.pending, i) && selected
                    == old(self)@.pending[i] && final(self)@ == old(self)@.take_in(i),
    {
        if self.admitted_buildsets >= self.capacity.max_buildsets || self.pending.is_empty() {
            return None;
        }
        let best = self.best();
        Some(self.take_in(best))
    }

    /// Admits everyone for whom there is a place.
    fn take_in_all(&mut self)
        requires
            old(self).wf(),
            old(self)@.countable(),
        ensures
            final(self).wf(),
            final(self)@ == old(self)@.take_in_all(),
    {
        while self.admitted_buildsets < self.capacity.max_buildsets && !self.pending.is_empty()
            invariant
                self.wf(),
                self@.countable(),
                self@.take_in_all() == old(self)@.take_in_all(),
            decreases self@.pending.len(),
        {
            let ghost before = self@;
            let best = self.best();
            let selected = self.take_in(best);
            self.granted.insert(selected.buildset_id.0);
            proof {
                let i = choose|i: int| is_best(before.service, before.pending, i);
                lemma_best_unique(before.service, before.pending, i, best as int);
                let admitted = before.take_in(i);
                let next = SchedulerView {
                    granted: admitted.granted.insert(before.pending[i].buildset_id.0),
                    ..admitted
                };
                assert(self@ =~= next);
                assert(before.take_in_all() == next.take_in_all());
            }
        }
    }

    /// Admits everyone for whom there is a place, then lets the buildset take its
    /// place if it has been given one.
    fn poll(&mut self, id: BuildsetId) -> (r: bool)
        requires
            old(self).wf(),
            old(self)@.countable(),
        ensures
            final(self).wf(),
            r == old(self)@.take_in_all().granted.contains(id.0),
            final(self)@ == old(self)@.take_in_all().claim(id),
    {
        self.take_in_all();
        let ghost admitted = self@;
        let r = self.granted.remove(&id.0);
        assert(self@ =~= admitted.claim(id));
        r
    }

    /// Takes the buildset out, whether it waits or has been given a place.
    fn withdraw(&mut self, id: BuildsetId)
        requires
            old(self).wf(),
        ensures
            final(self).wf(),
            final(self)@ == old(self)@.withdraw(id),
    {
        let ghost before = self@;
        let ghost keep = |r: DispatchRequest| r.buildset_id != id;
        let mut kept: Vec<DispatchRequest> = Vec::new();
        let mut i: usize = 0;
        proof {
            lemma_filter_ends(self.pending@, keep);
        }
        while i < self.pending.len()
            invariant
                self@ == before,
                self.wf(),
                i <= self.pending@.len(),
                keep == (|r: DispatchRequest| r.buildset_id != id),
                kept@ == self.pending@.take(i as int).filter(keep),
            decreases self.pending@.len() - i,
        {
            proof {
                lemma_filter_step(self.pending@, keep, i as int);
            }
            if self.pending[i].buildset_id != id {
                kept.push(self.pending[i]);
            }
            i += 1;
        }
        proof {
            lemma_filter_ends(self.pending@, keep);
        }
        self.pending = kept;
        if self.granted.remove(&id.0) {
            if self.admitted_buildsets > 0 {
                self.admitted_buildsets = self.admitted_buildsets - 1;
            }
        }
        assert(self@ =~= before.withdraw(id));
    }

    /// The first step of acquiring a place for a buildset. `Ok(true)` means that
    /// it has its place, `Ok(false)` that the caller waits for a change and then
    /// calls `resume_buildset`. A caller that was canceled before it asked
    /// changes nothing.
    pub fn acquire_buildset(&mut self, request: DispatchRequest, canceled: bool) -> (r: Result<
        bool,
        SchedulerError,
    >)
        requires
            old(self).wf(),
            old(self)@.request(request).countable(),
        ensures
            final(self).wf(),
            canceled ==> r == Err::<bool, SchedulerError>(SchedulerError::Canceled)
                && final(self)@ == old(self)@,
            !canceled ==> r == Ok::<bool, SchedulerError>(
                old(self)@.request(request).take_in_all().granted.contains(request.buildset_id.0),
            ) && final(self)@ == old(self)@.request(request).take_in_all().claim(request.buildset_id),
    {
        if canceled {
            return Err(SchedulerError::Canceled);
        }
        let ghost before = self@;
        let mut known = self.granted.contains(&request.buildset_id.0);
        let mut i: usize = 0;
        while i < self.pending.len() && !known
            invariant
                *self == *old(self),
                self@ == before,
                i <= self.pending@.len(),
                known ==> before.waits(request.buildset_id) || before.granted.contains(
                    request.buildset_id.0,
                ),
                !known ==> !before.granted.contains(request.buildset_id.0) && forall|j: int|
                    0 <= j < i ==> (#[trigger] before.pending[j]).buildset_id
                        != request.buildset_id,
            decreases self.pending@.len() - i,
        {
            if self.pending[i].buildset_id == request.buildset_id {
                assert(before.pending[i as int].buildset_id == request.buildset_id);
                known = true;
            }
            i += 1;
        }
        if !known {
            self.pending.push(request);
        }
        assert(self@ =~= before.request(request));
        Ok(self.poll(request.buildset_id))
    }

    /// A later step of acquiring a place for a buildset, after something has
    /// changed or the caller has been canceled.
    pub fn resume_buildset(&mut self, id: BuildsetId, canceled: bool) -> (r: Result<
        bool,
        SchedulerError,
    >)
        requires
            old(self).wf(),
            old(self)@.countable(),
        ensures
            final(self).wf(),
            canceled ==> r == Err::<bool, SchedulerError>(SchedulerError::Canceled)
                && final(self)@ == old(self)@.withdraw(id),
            !canceled ==> r == Ok::<bool, SchedulerError>(
                old(self)@.take_in_all().granted.contains(id.0),
            ) && final(self)@ == old(self)@.take_in_all().claim(id),
    {
        if canceled {
            self.withdraw(id);
            return Err(SchedulerError::Canceled);
        }
        Ok(self.poll(id))
    }

    /// Gives a buildset's place back.
    pub fn release_buildset(&mut self)
        requires
            old(self).wf(),
        ensures
            final(self).wf(),
            final(self)@ == (SchedulerView {
                admitted: if old(self)@.admitted > 0 {
                    (old(self)@.admitted - 1) as nat
                } else {
                    0
                },
                ..old(self)@
            }),
    {
        if self.admitted_buildsets > 0 {
            self.admitted_buildsets = self.admitted_buildsets - 1;
        }
    }

    /// The position of a step's allocation.
    fn allocation_of(&self, step_id: StepId) -> (r: Option<usize>)
        ensures
            r is Some <==> self@.holds(step_id),
            r matches Some(i) ==> i < self@.holdings.len() && self@.holdings[i as int].step_id
                == step_id,
    {
        let mut i: usize = 0;
        while i < self.allocations.len()
            invariant
                i <= self.allocations@.len(),
                forall|j: int|
                    0 <= j < i ==> (#[trigger] self@.holdings[j]).step_id != step_id,
            decreases self.allocations@.len() - i,
        {
            assert(self@.holdings[i as int].step_id == self.allocations@[i as int].0);
            if self.allocations[i].0 == step_id {
                return Some(i);
            }
            i += 1;
        }
        None
    }

    /// Whether a request can be granted next to what is reserved.
    fn has_room_for(&self, request: &StepResources) -> (r: bool)
        ensures
            r == self@.fits(request@),
    {
        let cpu: u32 = self.cpu_reserved as u32 + request.cpu_tokens as u32;
        if cpu > self.capacity.cpu_tokens as u32 {
            return false;
        }
        let memory: u128 = self.memory_reserved as u128 + request.memory_bytes as u128;
        if memory > self.capacity.memory_bytes as u128 {
            return false;
        }
        let count = request.semaphores.len();
        let mut i: usize = 0;
        while i < count
            invariant
                i <= count,
                count == request.semaphores.keys().len(),
                forall|j: int|
                    0 <= j < i ==> amount(
                        self@.semaphore_reserved,
                        #[trigger] request.semaphores.keys()[j],
                    ) + request.semaphores@[request.semaphores.keys()[j]] <= permits(
                        self@.limits.semaphores,
                        request.semaphores.keys()[j],
                    ),
            decreases count - i,
        {
            let name = request.semaphores.key_at(i);
            let wanted: u32 = *request.semaphores.value_at(i) as u32;
            let reserved: u32 = match self.semaphore_reserved.get(name.as_str()) {
                Some(reserved) => *reserved as u32,
                None => 0,
            };
            let limit: u32 = match self.capacity.semaphores.get(name.as_str()) {
                Some(limit) => *limit as u32,
                None => 1,
            };
            if reserved + wanted > limit {
                assert(request@.semaphores.dom().contains(name@));
                return false;
            }
            i += 1;
        }
        assert forall|name: Seq<char>| #[trigger] request@.semaphores.dom().contains(
            name,
        ) implies amount(self@.semaphore_reserved, name) + request@.semaphores[name] <= permits(
            self@.limits.semaphores,
            name,
        ) by {
            let keys = request.semaphores.keys();
            assert(keys.contains(name));
            let j = choose|j: int| 0 <= j < keys.len() && keys[j] == name;
            assert(amount(self@.semaphore_reserved, keys[j]) + request.semaphores@[keys[j]]
                <= permits(self@.limits.semaphores, keys[j]));
        }
        true
    }

    /// Grants a step its resources, all of them or none. `Ok(true)` means that the
    /// step holds them (already, or from now on), `Ok(false)` that they do not fit now.
    pub fn try_acquire_step(&mut self, step_id: StepId, request: StepResources) -> (r: Result<
        bool,
        SchedulerError,
    >)
        requires
            old(self).wf(),
        ensures
            final(self).wf(),
            r is Err <==> !satisfiable(old(self)@.limits, request@),
            r matches Err(error) ==> names_excess(old(self)@.limits, request, error)
                && final(self)@ == old(self)@,
            r matches Ok(granted) ==> if old(self)@.holds(step_id) {
                granted && final(self)@ == old(self)@
            } else if old(self)@.fits(request@) {
                granted && final(self)@ == old(self)@.acquire(step_id, request@)
            } else {
                !granted && final(self)@ == old(self)@
            },
    {
        match validate_request(&self.capacity, &request) {
            Ok(()) => {},
            Err(error) => {
                return Err(error);
            },
        }
        if self.allocation_of(step_id).is_some() {
            return Ok(true);
        }
        if !self.has_room_for(&request) {
            return Ok(false);
        }
        let ghost before = self@;
        let count = request.semaphores.len();
        let ghost keys = request.semaphores.keys();
        let mut i: usize = 0;
        while i < count
            invariant
                i <= count,
                count == keys.len(),
                keys == request.semaphores.keys(),
                crate::text::ascending(keys),
                request.semaphores@.dom() == keys.to_set(),
                before == old(self)@,
                before.fits(request@),
                self.capacity == old(self).capacity,
                self.admitted_buildsets == old(self).admitted_buildsets,
                self.cpu_reserved == old(self).cpu_reserved,
                self.memory_reserved == old(self).memory_reserved,
                self.allocations == old(self).allocations,
                self.pending == old(self).pending,
                self.granted == old(self).granted,
                self.repository_service == old(self).repository_service,
                forall|name: Seq<char>| #[trigger]
                    self.semaphore_reserved@.dom().contains(name)
                        <==> before.semaphore_reserved.dom().contains(name) || keys.take(
                        i as int,
                    ).contains(name),
                forall|name: Seq<char>| #[trigger]
                    amount(self.semaphore_reserved@, name) == amount(before.semaphore_reserved, name)
                        + if keys.take(i as int).contains(name) {
                        amount(request.semaphores@, name)
                    } else {
                        0
                    },
            decreases count - i,
        {
            let name = request.semaphores.key_at(i);
            let wanted = *request.semaphores.value_at(i);
            let reserved: u16 = match self.semaphore_reserved.get(name.as_str()) {
                Some(reserved) => *reserved,
                None => 0,
            };
            proof {
                lemma_key_prefix(keys, i as int);
                assert(request@.semaphores.dom().contains(name@));
                assert(amount(self.semaphore_reserved@, name@) == reserved);
            }
            let ghost previous = self.semaphore_reserved@;
            self.semaphore_reserved.insert(name.clone(), reserved + wanted);
            proof {
                assert forall|n: Seq<char>| #[trigger]
                    amount(self.semaphore_reserved@, n) == amount(before.semaphore_reserved, n) + if keys.take(
                        i + 1,
                    ).contains(n) {
                        amount(request.semaphores@, n)
                    } else {
                        0
                    } by {
                    assert(amount(previous, n) == amount(before.semaphore_reserved, n) + if keys.take(
                        i as int,
                    ).contains(n) {
                        amount(request.semaphores@, n)
                    } else {
                        0
                    });
                }
            }
            i += 1;
        }
        let ghost granted_amounts = request@;
        self.cpu_reserved = self.cpu_reserved + request.cpu_tokens;
        self.memory_reserved = self.memory_reserved + request.memory_bytes;
        self.allocations.push((step_id, request));
        proof {
            let expected = before.acquire(step_id, granted_amounts);
            assert(keys.take(i as int) =~= keys);
            assert forall|name: Seq<char>| self@.semaphore_reserved.dom().contains(name) implies
                self@.semaphore_reserved[name] == expected.semaphore_reserved[name] by {
                assert(amount(self@.semaphore_reserved, name) == amount(
                    before.semaphore_reserved,
                    name,
                ) + amount(granted_amounts.semaphores, name));
            }
            assert(self@.semaphore_reserved =~= expected.semaphore_reserved);
            assert(self@.holdings =~= expected.holdings);
            assert(self@ =~= expected);
            lemma_acquire_consistent(before, step_id, granted_amounts);
        }
        Ok(true)
    }

    /// One step of acquiring resources for a step: refused once canceled,
    /// otherwise as `try_acquire_step`. On `Ok(false)` the caller waits for a
    /// change and tries again.
    pub fn acquire_step(
        &mut self,
        step_id: StepId,
        request: StepResources,
        canceled: bool,
    ) -> (r: Result<bool, SchedulerError>)
        requires
            old(self).wf(),
        ensures
            final(self).wf(),
            canceled ==> r == Err::<bool, SchedulerError>(SchedulerError::Canceled)
                && final(self)@ == old(self)@,
            !canceled ==> {
                &&& r is Err <==> !satisfiable(old(self)@.limits, request@)
                &&& r matches Err(error) ==> names_excess(old(self)@.limits, request, error)
                    && final(self)@ == old(self)@
                &&& r matches Ok(granted) ==> if old(self)@.holds(step_id) {
                    granted && final(self)@ == old(self)@
                } else if old(self)@.fits(request@) {
                    granted && final(self)@ == old(self)@.acquire(step_id, request@)
                } else {
                    !granted && final(self)@ == old(self)@
                }
            },
    {
        if canceled {
            return Err(SchedulerError::Canceled);
        }
        self.try_acquire_step(step_id, request)
    }

    /// Gives back everything that a step holds.
    pub fn release_step(&mut self, step_id: StepId) -> (r: Result<(), SchedulerError>)
        requires
            old(self).wf(),
        ensures
            final(self).wf(),
            r is Ok <==> old(self)@.holds(step_id),
            r matches Err(error) ==> error == SchedulerError::UnknownAllocation && final(self)@
                == old(self)@,
            r is Ok ==> exists|i: int|
                0 <= i < old(self)@.holdings.len() && (#[trigger] old(self)@.holdings[i]).step_id
                    == step_id && final(self)@ == old(self)@.release(i),
    {
        let at = match self.allocation_of(step_id) {
            Some(at) => at,
            None => {
                return Err(SchedulerError::UnknownAllocation);
            },
        };
        let ghost before = self@;
        let ghost held = before.holdings[at as int].amounts;
        proof {
            lemma_release_consistent(before, at as int);
        }
        let (_, request) = self.allocations.remove(at);
        assert(request@ == held);
        self.cpu_reserved = self.cpu_reserved - request.cpu_tokens;
        self.memory_reserved = self.memory_reserved - request.memory_bytes;
        let count = request.semaphores.len();
        let ghost keys = request.semaphores.keys();
        let mut i: usize = 0;
        while i < count
            invariant
                i <= count,
                count == keys.len(),
                keys == request.semaphores.keys(),
                crate::text::ascending(keys),
                request.semaphores@.dom() == keys.to_set(),
                request.semaphores@ == held.semaphores,
                before == old(self)@,
                forall|name: Seq<char>| #[trigger]
                    amount(held.semaphores, name) <= amount(before.semaphore_reserved, name),
                forall|name: Seq<char>| #[trigger]
                    held.semaphores.dom().contains(name) ==> before.semaphore_reserved.dom().contains(
                        name,
                    ),
                self.capacity == old(self).capacity,
                self.admitted_buildsets == old(self).admitted_buildsets,
                self.cpu_reserved == before.cpu_reserved - held.cpu_tokens,
                self.memory_reserved == before.memory_reserved - held.memory_bytes,
                self.allocations@ == old(self).allocations@.remove(at as int),
                self.pending == old(self).pending,
                self.granted == old(self).granted,
                self.repository_service == old(self).repository_service,
                self.semaphore_reserved@.dom() == before.semaphore_reserved.dom(),
                forall|name: Seq<char>| #[trigger]
                    amount(self.semaphore_reserved@, name) == amount(before.semaphore_reserved, name)
                        - if keys.take(i as int).contains(name) {
                        amount(held.semaphores, name)
                    } else {
                        0
                    },
            decreases count - i,
        {
            let name = request.semaphores.key_at(i);
            let given = *request.semaphores.value_at(i);
            proof {
                lemma_key_prefix(keys, i as int);
                assert(held.semaphores.dom().contains(name@));
                assert(amount(held.semaphores, name@) == given);
            }
            let ghost previous = self.semaphore_reserved@;
            let found: Option<u16> = match self.semaphore_reserved.get(name.as_str()) {
                Some(reserved) => Some(*reserved),
                None => None,
            };
            if let Some(reserved) = found {
                assert(amount(self.semaphore_reserved@, name@) == reserved);
                self.semaphore_reserved.insert(name.clone(), reserved - given);
            }
            proof {
                assert(self.semaphore_reserved@.dom() =~= before.semaphore_reserved.dom());
                assert forall|n: Seq<char>| #[trigger]
                    amount(self.semaphore_reserved@, n) == amount(before.semaphore_reserved, n) - if keys.take(
                        i + 1,
                    ).contains(n) {
                        amount(held.semaphores, n)
                    } else {
                        0
                    } by {
                    assert(amount(previous, n) == amount(before.semaphore_reserved, n) - if keys.take(
                        i as int,
                    ).contains(n) {
                        amount(held.semaphores, n)
                    } else {
                        0
                    });
                }
            }
            i += 1;
        }
        proof {
            let expected = before.release(at as int);
            assert(keys.take(i as int) =~= keys);
            assert forall|name: Seq<char>| self@.semaphore_reserved.dom().contains(name) implies
                self@.semaphore_reserved[name] == expected.semaphore_reserved[name] by {
                assert(amount(self@.semaphore_reserved, name) == amount(
                    before.semaphore_reserved,
                    name,
                ) - amount(held.semaphores, name));
            }
            assert(self@.semaphore_reserved =~= expected.semaphore_reserved);
            assert(self@.holdings =~= expected.holdings);
            assert(self@ =~= expected);
        }
        Ok(())
    }

    /// What is in use.
    pub fn usage(&self) -> (r: ResourceUsage)
        ensures
            r.admitted_buildsets == self@.admitted,
            r.cpu_reserved == self@.cpu_reserved,
            r.memory_reserved == self@.memory_reserved,
            r.semaphore_reserved@ == self@.semaphore_reserved,
            r.pending_buildsets == self@.pending.len() as u32,
    {
        let semaphore_reserved = self.semaphore_reserved.clone();
        assert(semaphore_reserved@ =~= self.semaphore_reserved@);
        ResourceUsage {
            admitted_buildsets: self.admitted_buildsets,
            cpu_reserved: self.cpu_reserved,
            memory_reserved: self.memory_reserved,
            semaphore_reserved,
            pending_buildsets: self.pending.len() as u32,
        }
    }
}

/// One more of several ascending keys adds a key that was not among them.
proof fn lemma_key_prefix(keys: Seq<Seq<char>>, i: int)
    requires
        crate::text::ascending(keys),
        0 <= i < keys.len(),
    ensures
        !keys.take(i).contains(keys[i]),
        forall|name: Seq<char>| #[trigger]
            keys.take(i + 1).contains(name) <==> keys.take(i).contains(name) || name == keys[i],
{
    let small = keys.take(i);
    let big = keys.take(i + 1);
    if small.contains(keys[i]) {
        let j = choose|j: int| 0 <= j < small.len() && small[j] == keys[i];
        assert(crate::text::text_before(keys[j], keys[i]));
        crate::text::lemma_bytes_before_irreflexive(vstd::utf8::encode_utf8(keys[i]));
    }
    assert forall|name: Seq<char>| #[trigger] big.contains(name) <==> small.contains(name) || name
        == keys[i] by {
        if big.contains(name) {
            let j = choose|j: int| 0 <= j < big.len() && big[j] == name;
            if j < i {
                assert(small[j] == name);
            }
        }
        if small.contains(name) {
            let j = choose|j: int| 0 <= j < small.len() && small[j] == name;
            assert(big[j] == name);
        }
        if name == keys[i] {
            assert(big[i] == name);
        }
    }
}

proof fn lemma_acquire_consistent(state: SchedulerView, step_id: StepId, request: Amounts)
    requires
        state.consistent(),
        state.fits(request),
        !state.holds(step_id),
    ensures
        state.acquire(step_id, request).consistent(),
        forall|name: Seq<char>|
            amount(#[trigger] state.acquire(step_id, request).semaphore_reserved, name) == amount(
                state.semaphore_reserved,
                name,
            ) + amount(request.semaphores, name),
{
    let after = state.acquire(step_id, request);
    let holding = Holding { step_id, amounts: request };
    lemma_total_push(state.holdings, holding, |h: Holding| h.amounts.cpu_tokens);
    lemma_total_push(state.holdings, holding, |h: Holding| h.amounts.memory_bytes);
    assert forall|name: Seq<char>| amount(after.semaphore_reserved, name) == amount(
        state.semaphore_reserved,
        name,
    ) + amount(request.semaphores, name) by {
        if request.semaphores.dom().contains(name) {
            assert(amount(state.semaphore_reserved, name) + request.semaphores[name] <= permits(
                state.limits.semaphores,
                name,
            ));
        }
    }
    assert forall|name: Seq<char>| #[trigger] amount(after.semaphore_reserved, name) == total(
        after.holdings,
        |h: Holding| amount(h.amounts.semaphores, name),
    ) by {
        let f = |h: Holding| amount(h.amounts.semaphores, name);
        lemma_total_push(state.holdings, holding, f);
        assert(amount(state.semaphore_reserved, name) == total(state.holdings, f));
    }
    assert forall|i: int, j: int| 0 <= i < j < after.holdings.len() implies (
    #[trigger] after.holdings[i]).step_id != (#[trigger] after.holdings[j]).step_id by {
        assert(after.holdings[i] == state.holdings[i]);
        if j < state.holdings.len() {
            assert(after.holdings[j] == state.holdings[j]);
        }
    }
    assert forall|i: int, name: Seq<char>|
        0 <= i < after.holdings.len()
            && #[trigger] after.holdings[i].amounts.semaphores.dom().contains(name) implies after.semaphore_reserved.dom().contains(
    name) by {
        if i < state.holdings.len() {
            assert(state.holdings[i].amounts.semaphores.dom().contains(name));
        }
    }
}

proof fn lemma_release_consistent(state: SchedulerView, i: int)
    requires
        state.consistent(),
        0 <= i < state.holdings.len(),
    ensures
        state.release(i).consistent(),
        state.holdings[i].amounts.cpu_tokens <= state.cpu_reserved,
        state.holdings[i].amounts.memory_bytes <= state.memory_reserved,
        forall|name: Seq<char>| #[trigger]
            amount(state.holdings[i].amounts.semaphores, name) <= amount(
                state.semaphore_reserved,
                name,
            ),
        forall|name: Seq<char>| #[trigger]
            amount(state.release(i).semaphore_reserved, name) == amount(
                state.semaphore_reserved,
                name,
            ) - amount(state.holdings[i].amounts.semaphores, name),
{
    let after = state.release(i);
    let held = state.holdings[i].amounts;
    lemma_total_remove(state.holdings, i, |h: Holding| h.amounts.cpu_tokens);
    lemma_total_remove(state.holdings, i, |h: Holding| h.amounts.memory_bytes);
    assert forall|name: Seq<char>| #[trigger] amount(held.semaphores, name) <= amount(
        state.semaphore_reserved,
        name,
    ) by {
        let f = |h: Holding| amount(h.amounts.semaphores, name);
        lemma_total_remove(state.holdings, i, f);
        assert(amount(state.semaphore_reserved, name) == total(state.holdings, f));
    }
    assert forall|name: Seq<char>| #[trigger] amount(after.semaphore_reserved, name) == amount(
        state.semaphore_reserved,
        name,
    ) - amount(held.semaphores, name) by {
        assert(amount(held.semaphores, name) <= amount(state.semaphore_reserved, name));
    }
    assert forall|name: Seq<char>| #[trigger] amount(after.semaphore_reserved, name) == total(
        after.holdings,
        |h: Holding| amount(h.amounts.semaphores, name),
    ) by {
        let f = |h: Holding| amount(h.amounts.semaphores, name);
        lemma_total_remove(state.holdings, i, f);
        assert(amount(state.semaphore_reserved, name) == total(state.holdings, f));
        assert(amount(held.semaphores, name) <= amount(state.semaphore_reserved, name));
    }
    assert forall|a: int, b: int| 0 <= a < b < after.holdings.len() implies (
    #[trigger] after.holdings[a]).step_id != (#[trigger] after.holdings[b]).step_id by {
        let a2 = if a < i {
            a
        } else {
            a + 1
        };
        let b2 = if b < i {
            b
        } else {
            b + 1
        };
        assert(after.holdings[a] == state.holdings[a2]);
        assert(after.holdings[b] == state.holdings[b2]);
    }
    assert forall|a: int, name: Seq<char>|
        0 <= a < after.holdings.len()
            && #[trigger] after.holdings[a].amounts.semaphores.dom().contains(name) implies after.semaphore_reserved.dom().contains(
    name) by {
        let a2 = if a < i {
            a
        } else {
            a + 1
        };
        assert(after.holdings[a] == state.holdings[a2]);
        assert(state.holdings[a2].amounts.semaphores.dom().contains(name));
    }
}

/// Giving back what a step has just been granted restores what was in use: the
/// tokens, the memory, and every semaphore.
pub proof fn law_release_undoes_acquire(state: SchedulerView, step_id: StepId, request: Amounts)
    requires
        state.consistent(),
        state.fits(request),
        !state.holds(step_id),
    ensures
        ({
            let after = state.acquire(step_id, request).release(state.holdings.len() as int);
            &&& after.cpu_reserved == state.cpu_reserved
            &&& after.memory_reserved == state.memory_reserved
            &&& after.holdings == state.holdings
            &&& forall|name: Seq<char>| #[trigger]
                amount(after.semaphore_reserved, name) == amount(state.semaphore_reserved, name)
        }),
{
    let acquired = state.acquire(step_id, request);
    let i = state.holdings.len() as int;
    let after = acquired.release(i);
    lemma_acquire_consistent(state, step_id, request);
    lemma_release_consistent(acquired, i);
    assert(acquired.holdings[i].amounts == request);
    assert(after.holdings =~= state.holdings);
    assert forall|name: Seq<char>| #[trigger] amount(after.semaphore_reserved, name) == amount(
        state.semaphore_reserved,
        name,
    ) by {
        assert(amount(acquired.semaphore_reserved, name) == amount(state.semaphore_reserved, name)
            + amount(request.semaphores, name));
    }
}

/// Nothing is ever granted beyond the limits: after a grant, all that is reserved
/// of what was asked for is within them.
pub proof fn law_grants_stay_within_the_limits(
    state: SchedulerView,
    step_id: StepId,
    request: Amounts,
    name: Seq<char>,
)
    requires
        state.fits(request),
        request.semaphores.dom().contains(name),
    ensures
        state.acquire(step_id, request).cpu_reserved <= state.limits.cpu_tokens,
        state.acquire(step_id, request).memory_reserved <= state.limits.memory_bytes,
        amount(state.acquire(step_id, request).semaphore_reserved, name) <= permits(
            state.limits.semaphores,
            name,
        ),
{
    assert(amount(state.semaphore_reserved, name) + request.semaphores[name] <= permits(
        state.limits.semaphores,
        name,
    ));
}

/// A pool that has been shrunk below its use grants nothing until it has drained.
pub proof fn law_shrunk_pools_grant_nothing(state: SchedulerView, limits: Limits, request: Amounts)
    requires
        state.cpu_reserved > limits.cpu_tokens || state.memory_reserved > limits.memory_bytes,
    ensures
        !(SchedulerView { limits, ..state }).fits(request),
{
}

/// The request that is served has the most urgent priority of all that wait. In
/// particular the head of a gate goes before any maintenance.
pub proof fn law_the_most_urgent_goes_first(
    service: Map<u128, u64>,
    pending: Seq<DispatchRequest>,
    best: int,
    other: int,
)
    requires
        is_best(service, pending, best),
        0 <= other < pending.len(),
    ensures
        pending[best].priority.rank() <= pending[other].priority.rank(),
{
    if other < best {
        assert(goes_before(service, pending[best], pending[other]));
    } else if other > best {
        assert(!goes_before(service, pending[other], pending[best]));
    }
}

/// Among equally urgent requests the repository that has been served least for
/// its weight goes first.
pub proof fn law_the_least_served_goes_first(
    service: Map<u128, u64>,
    pending: Seq<DispatchRequest>,
    best: int,
    other: int,
)
    requires
        is_best(service, pending, best),
        0 <= other < pending.len(),
        pending[best].priority == pending[other].priority,
    ensures
        weighted_service(service, pending[best]) <= weighted_service(service, pending[other]),
{
    if other < best {
        assert(goes_before(service, pending[best], pending[other]));
    } else if other > best {
        assert(!goes_before(service, pending[other], pending[best]));
    }
}

/// Admission never goes beyond the number of places: it only fills free ones.
pub proof fn law_admission_fills_free_places_only(state: SchedulerView)
    ensures
        state.take_in_all().admitted <= if state.admitted <= state.limits.max_buildsets {
            state.limits.max_buildsets
        } else {
            state.admitted
        },
        state.take_in_all().limits == state.limits,
    decreases state.pending.len(),
{
    if state.can_take_in() && exists|i: int| is_best(state.service, state.pending, i) {
        let i = choose|i: int| is_best(state.service, state.pending, i);
        let admitted = state.take_in(i);
        law_admission_fills_free_places_only(
            SchedulerView {
                granted: admitted.granted.insert(state.pending[i].buildset_id.0),
                ..admitted
            },
        );
    }
}

/// A buildset that asks for a place and is canceled while it waits leaves no trace.
pub proof fn law_canceled_waiters_leave_no_trace(state: SchedulerView, request: DispatchRequest)
    requires
        !state.waits(request.buildset_id),
        !state.granted.contains(request.buildset_id.0),
    ensures
        state.request(request).withdraw(request.buildset_id) == state,
{
    let id = request.buildset_id;
    let keep = |r: DispatchRequest| r.buildset_id != id;
    reveal(Seq::filter);
    assert(state.pending.push(request).drop_last() =~= state.pending);
    crate::seqs::lemma_filter_all(state.pending, keep);
    assert(state.request(request).withdraw(id) =~= state);
}

/// A canceled buildset that had been given a place frees it again.
pub proof fn law_canceled_grants_free_their_place(state: SchedulerView, id: BuildsetId)
    requires
        state.granted.contains(id.0),
        state.admitted > 0,
    ensures
        state.withdraw(id).admitted == state.admitted - 1,
        !state.withdraw(id).granted.contains(id.0),
        !state.withdraw(id).waits(id),
{
    let keep = |r: DispatchRequest| r.buildset_id != id;
    lemma_filter_members(state.pending, keep);
    assert(!state.withdraw(id).waits(id)) by {
        if state.withdraw(id).waits(id) {
            let pending = state.withdraw(id).pending;
            let i = choose|i: int|
                0 <= i < pending.len() && (#[trigger] pending[i]).buildset_id == id;
            assert(keep(state.pending.filter(keep)[i]));
        }
    }
}

} // verus!
