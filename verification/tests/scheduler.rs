use tollgate::ids::{BuildsetId, RepositoryId, StepId};
use tollgate::scheduler::{
    validate_request, DispatchRequest, GlobalScheduler, PriorityClass, ResourceCapacity,
    SchedulerError, StepResources,
};
use tollgate::text_map::TextMap;

fn permits(entries: &[(&str, u16)]) -> TextMap<u16> {
    let mut map = TextMap::new();
    for (name, amount) in entries {
        map.insert(name.to_string(), *amount);
    }
    map
}

fn scheduler() -> GlobalScheduler {
    GlobalScheduler::new(ResourceCapacity {
        max_buildsets: 2,
        cpu_tokens: 4,
        memory_bytes: 100,
        semaphores: permits(&[("unity", 1)]),
    })
}

fn wants(cpu_tokens: u16, memory_bytes: u64, semaphores: &[(&str, u16)]) -> StepResources {
    StepResources {
        cpu_tokens,
        memory_bytes,
        semaphores: permits(semaphores),
    }
}

fn dispatch(repository: u128, buildset: u128, priority: PriorityClass) -> DispatchRequest {
    DispatchRequest {
        repository_id: RepositoryId(repository),
        buildset_id: BuildsetId(buildset),
        priority,
        queue_position: 0,
        repository_weight: 1,
        affinity_score: 0,
    }
}

#[test]
fn resources_are_acquired_atomically() {
    let mut scheduler = scheduler();
    let first = StepId(1);
    assert!(scheduler
        .try_acquire_step(first, wants(3, 80, &[("unity", 1)]))
        .unwrap());
    assert!(!scheduler
        .try_acquire_step(StepId(2), wants(2, 10, &[]))
        .unwrap());
    assert_eq!(scheduler.usage().cpu_reserved, 3);
    scheduler.release_step(first).unwrap();
    assert_eq!(scheduler.usage().cpu_reserved, 0);
}

#[test]
fn gate_head_wins_over_warm_maintenance() {
    let mut scheduler = scheduler();
    let mut warm = dispatch(1, 1, PriorityClass::Maintenance);
    warm.affinity_score = 100;
    scheduler.enqueue(warm);
    let head = BuildsetId(2);
    scheduler.enqueue(dispatch(1, 2, PriorityClass::GateHead));
    assert_eq!(scheduler.next_buildset().unwrap().buildset_id, head);
}

#[test]
fn cancellation_removes_a_waiter_without_leaking_capacity() {
    let mut scheduler = GlobalScheduler::new(ResourceCapacity {
        max_buildsets: 1,
        cpu_tokens: 0,
        memory_bytes: 0,
        semaphores: TextMap::new(),
    });
    assert_eq!(
        scheduler.acquire_buildset(dispatch(1, 1, PriorityClass::Speculative), false),
        Ok(true)
    );
    assert_eq!(
        scheduler.acquire_buildset(dispatch(1, 2, PriorityClass::Speculative), false),
        Ok(false)
    );
    assert_eq!(scheduler.usage().pending_buildsets, 1);
    assert_eq!(
        scheduler.resume_buildset(BuildsetId(2), true),
        Err(SchedulerError::Canceled)
    );
    assert_eq!(scheduler.usage().pending_buildsets, 0);
    scheduler.release_buildset();
    assert_eq!(scheduler.usage().admitted_buildsets, 0);
}

#[test]
fn cancellation_before_enqueue_never_acquires_buildset_or_step_capacity() {
    let mut scheduler = scheduler();
    assert_eq!(
        scheduler.acquire_buildset(dispatch(1, 1, PriorityClass::Speculative), true),
        Err(SchedulerError::Canceled)
    );
    assert_eq!(
        scheduler.acquire_step(StepId(1), wants(1, 1, &[("unity", 1)]), true),
        Err(SchedulerError::Canceled)
    );
    let usage = scheduler.usage();
    assert_eq!(usage.admitted_buildsets, 0);
    assert_eq!(usage.cpu_reserved, 0);
    assert_eq!(usage.memory_reserved, 0);
    assert_eq!(usage.semaphore_reserved, TextMap::new());
    assert_eq!(usage.pending_buildsets, 0);
}

#[test]
fn cancellation_immediately_after_admission_releases_every_resource() {
    let mut scheduler = scheduler();
    let step = StepId(1);
    assert_eq!(
        scheduler.acquire_step(step, wants(2, 40, &[("unity", 1)]), false),
        Ok(true)
    );
    scheduler.release_step(step).unwrap();
    let usage = scheduler.usage();
    assert_eq!(usage.cpu_reserved, 0);
    assert_eq!(usage.memory_reserved, 0);
    assert_eq!(usage.semaphore_reserved.get("unity"), Some(&0));
}

#[test]
fn shrinking_capacity_preserves_live_allocations_and_blocks_new_work() {
    let mut scheduler = scheduler();
    let first = StepId(1);
    let second = StepId(2);
    assert!(scheduler.try_acquire_step(first, wants(2, 40, &[])).unwrap());
    scheduler.reconfigure(ResourceCapacity {
        max_buildsets: 1,
        cpu_tokens: 1,
        memory_bytes: 20,
        semaphores: TextMap::new(),
    });
    assert_eq!(scheduler.usage().cpu_reserved, 2);
    assert!(matches!(
        scheduler.try_acquire_step(second, wants(1, 1, &[])),
        Ok(false)
    ));
    scheduler.release_step(first).unwrap();
    assert!(scheduler.try_acquire_step(second, wants(1, 1, &[])).unwrap());
}

#[test]
fn impossible_requests_name_the_resource() {
    let mut scheduler = scheduler();
    let capacity = scheduler.capacity().clone();
    assert_eq!(
        validate_request(&capacity, &wants(5, 0, &[])),
        Err(SchedulerError::Unsatisfiable("CPU tokens".to_string()))
    );
    assert_eq!(
        validate_request(&capacity, &wants(1, 101, &[])),
        Err(SchedulerError::Unsatisfiable("memory".to_string()))
    );
    let error = scheduler
        .try_acquire_step(StepId(1), wants(1, 1, &[("a", 1), ("z", 2)]))
        .unwrap_err();
    assert_eq!(
        error.message(),
        "resource request can never fit in the configured pool: semaphore `z`"
    );
    assert_eq!(
        scheduler.release_step(StepId(9)),
        Err(SchedulerError::UnknownAllocation)
    );
}

#[test]
fn repositories_are_served_in_turn_and_by_weight() {
    let mut scheduler = GlobalScheduler::new(ResourceCapacity {
        max_buildsets: 10,
        cpu_tokens: 0,
        memory_bytes: 0,
        semaphores: TextMap::new(),
    });
    for buildset in 0..3 {
        scheduler.enqueue(dispatch(1, buildset, PriorityClass::Speculative));
    }
    let mut heavy = dispatch(2, 10, PriorityClass::Speculative);
    heavy.repository_weight = 2;
    scheduler.enqueue(heavy);
    heavy.buildset_id = BuildsetId(11);
    scheduler.enqueue(heavy);
    let mut order = Vec::new();
    while let Some(request) = scheduler.next_buildset() {
        order.push(request.buildset_id.0);
    }
    assert_eq!(order, [0, 10, 11, 1, 2]);
    assert_eq!(scheduler.usage().admitted_buildsets, 5);
}

#[test]
fn a_second_request_for_the_same_buildset_changes_nothing() {
    let mut scheduler = GlobalScheduler::new(ResourceCapacity {
        max_buildsets: 1,
        cpu_tokens: 0,
        memory_bytes: 0,
        semaphores: TextMap::new(),
    });
    assert_eq!(
        scheduler.acquire_buildset(dispatch(1, 1, PriorityClass::GateHead), false),
        Ok(true)
    );
    let waiting = dispatch(1, 2, PriorityClass::GateHead);
    assert_eq!(scheduler.acquire_buildset(waiting, false), Ok(false));
    assert_eq!(scheduler.acquire_buildset(waiting, false), Ok(false));
    assert_eq!(scheduler.usage().pending_buildsets, 1);
    scheduler.release_buildset();
    assert_eq!(scheduler.resume_buildset(BuildsetId(2), false), Ok(true));
    assert_eq!(scheduler.usage().admitted_buildsets, 1);
}

#[test]
fn a_step_that_can_never_run_is_told_why() {
    let mut scheduler = scheduler();
    assert_eq!(
        scheduler.try_acquire_step(StepId(1), wants(5, 101, &[("unity", 2)])),
        Err(SchedulerError::Unsatisfiable("CPU tokens".to_string()))
    );
    assert_eq!(
        scheduler.try_acquire_step(StepId(1), wants(1, 101, &[("unity", 2)])),
        Err(SchedulerError::Unsatisfiable("memory".to_string()))
    );
    assert!(matches!(
        scheduler.acquire_step(StepId(1), wants(1, 1, &[("unity", 2)]), false),
        Err(SchedulerError::Unsatisfiable(what)) if what == "semaphore `unity`"
    ));
    assert_eq!(scheduler.usage().cpu_reserved, 0);
}
