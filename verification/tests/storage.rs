use tollgate::ids::{RepositoryId, SlotId};
use tollgate::model::Timestamp;
use tollgate::storage::{
    add_charge, charged_size, check_storage_root, classify_child, excess_warm_slots, inspect,
    CacheChild, ChildClass, SeedStorage, SlotStorage, MAX_WARM_SLOTS,
};

fn slot(repository_id: RepositoryId, slot: u128, age: i128) -> SlotStorage {
    SlotStorage {
        repository_id,
        slot_id: SlotId(slot),
        path: String::new(),
        state: "idle".into(),
        health: "healthy".into(),
        repository_active: false,
        last_accessed_at: Some(Timestamp {
            unix_nanos: age * 1_000_000_000,
        }),
    }
}

fn child(name: String) -> CacheChild {
    CacheChild {
        path: format!("/cache/{name}"),
        name,
        charged_bytes: 4_096,
    }
}

#[test]
fn warm_pool_keeps_one_recent_slot_per_repository_and_four_globally() {
    let first = RepositoryId(1);
    let second = RepositoryId(2);
    let mut slots = vec![slot(first, 11, 1), slot(first, 12, 2), slot(second, 13, 3)];
    for age in 4..8 {
        slots.push(slot(RepositoryId(age as u128), 20 + age as u128, age));
    }
    let excess = excess_warm_slots(&slots);
    assert_eq!(slots.len() - excess.len(), MAX_WARM_SLOTS);
    assert!(excess.contains(&slots[0].slot_id));
    for slot in &slots[3..] {
        assert!(!excess.contains(&slot.slot_id));
    }
}

#[test]
fn slots_in_use_are_never_given_up() {
    let mut slots: Vec<SlotStorage> = (0..7)
        .map(|n: u128| slot(RepositoryId(1), n, n as i128))
        .collect();
    slots[0].state = "running".into();
    slots[1].repository_active = true;
    let excess = excess_warm_slots(&slots);
    assert!(!excess.contains(&slots[0].slot_id));
    assert!(!excess.contains(&slots[1].slot_id));
}

#[test]
fn inspection_refuses_symbolic_link_roots() {
    assert!(check_storage_root("/cache/link", true).is_err());
    check_storage_root("/cache", false).unwrap();
}

#[test]
fn inspection_distinguishes_owned_orphans_and_recovery_data() {
    let registered_id = RepositoryId(0x0190_0000_0000_7000_8000_0000_0000_0001);
    let orphan_id = RepositoryId(0x0190_0000_0000_7000_8000_0000_0000_0002);
    let children = vec![
        child(registered_id.to_text()),
        child(orphan_id.to_text()),
        child("recovery-interrupted".into()),
        child(".pruned-interrupted".into()),
    ];
    let view = inspect(
        &vec![registered_id],
        &Vec::new(),
        &Vec::new(),
        &Vec::new(),
        &Vec::new(),
        &children,
        16_384,
    );
    assert!(view.entries.iter().any(|entry| {
        entry.class == "orphan-repository"
            && entry.repository_id == Some(orphan_id)
            && entry.reclaimable
    }));
    assert!(view
        .entries
        .iter()
        .any(|entry| { entry.class == "prune-quarantine" && entry.reclaimable }));
    assert!(view
        .entries
        .iter()
        .any(|entry| { entry.class == "recovery" && !entry.reclaimable }));
    assert!(!view
        .entries
        .iter()
        .any(|entry| { entry.repository_id == Some(registered_id) }));
}

#[test]
fn names_tell_what_lies_in_the_cache() {
    let known = RepositoryId(5);
    assert_eq!(
        classify_child(&known.to_text(), &vec![known]),
        ChildClass::Registered
    );
    assert_eq!(
        classify_child(&known.to_text(), &Vec::new()),
        ChildClass::Orphan(known)
    );
    assert_eq!(classify_child("something", &Vec::new()), ChildClass::Unknown);
}

#[test]
fn slots_and_seeds_are_listed_by_path() {
    let mut warm = slot(RepositoryId(1), 2, 3);
    warm.path = "/cache/b".into();
    let seed = SeedStorage {
        repository_id: RepositoryId(1),
        id: "s".into(),
        path: "/cache/a".into(),
        state: "published".into(),
        protected: true,
    };
    let view = inspect(
        &vec![RepositoryId(1)],
        &vec![warm],
        &vec![10],
        &vec![seed],
        &vec![20],
        &Vec::new(),
        100,
    );
    let paths: Vec<&str> = view.entries.iter().map(|entry| entry.path.as_str()).collect();
    assert_eq!(paths, ["/cache/a", "/cache/b"]);
}

#[test]
fn blocks_are_charged_in_bytes() {
    assert_eq!(charged_size(8), 4_096);
    assert_eq!(charged_size(u64::MAX), u64::MAX);
    assert_eq!(add_charge(1, 2), 3);
    assert_eq!(add_charge(u64::MAX, 2), u64::MAX);
}
