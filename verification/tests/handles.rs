use plugin_runtime::handles::HandleTable;

#[test]
fn register_then_lookup_returns_the_entity() {
    let mut t = HandleTable::new();
    let id = t.register(500);
    assert_eq!(t.lookup(id), Some(500));
    assert_eq!(t.len(), 1);
}

#[test]
fn registering_the_same_entity_twice_keeps_its_id() {
    let mut t = HandleTable::new();
    let a = t.register(500);
    let b = t.register(500);
    assert_eq!(a, b);
    assert_eq!(t.len(), 1);
}

#[test]
fn ids_are_monotonic_and_never_reused() {
    let mut t = HandleTable::new();
    let a = t.register(500);
    let b = t.register(501);
    assert!(b > a);
    t.unregister(a);
    let c = t.register(502);
    assert!(c > b);
    assert_eq!(t.lookup(a), None);
}

#[test]
fn unregister_is_idempotent_and_local() {
    let mut t = HandleTable::new();
    let a = t.register(500);
    let b = t.register(501);
    t.unregister(a);
    t.unregister(a);
    assert_eq!(t.lookup(a), None);
    assert_eq!(t.lookup(b), Some(501));
    assert_eq!(t.len(), 1);
}

#[test]
fn gc_drops_exactly_the_stale_ids() {
    let mut t = HandleTable::new();
    let ids: Vec<u64> = (0..5).map(|k| t.register(1000 + k)).collect();
    assert_eq!(t.len(), 5);

    // The host destroyed the entities behind ids[1] and ids[3].
    let valid = vec![1000, 1002, 1004];
    let removed = t.gc(&valid);

    assert_eq!(removed, 2);
    assert_eq!(t.len(), 3);
    assert_eq!(t.lookup(ids[0]), Some(1000));
    assert_eq!(t.lookup(ids[1]), None);
    assert_eq!(t.lookup(ids[2]), Some(1002));
    assert_eq!(t.lookup(ids[3]), None);
    assert_eq!(t.lookup(ids[4]), Some(1004));
}

#[test]
fn gc_with_everything_valid_removes_nothing() {
    let mut t = HandleTable::new();
    let a = t.register(7);
    let valid = vec![7];
    assert_eq!(t.gc(&valid), 0);
    assert_eq!(t.lookup(a), Some(7));
}
