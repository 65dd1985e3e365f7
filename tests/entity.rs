use ecs::entity::{Entity, EntityManager};
use ecs::kinds::KindSet;

#[test]
fn test_drop() {
    let mut entities = EntityManager::new();

    let e1 = entities.activate();
    assert_eq!(e1, 0);

    let e2 = entities.activate();
    entities.activate();
    entities.activate();
    entities.drop(e2);
    let e3 = entities.activate();
    let entity3 = entities.get(e3).unwrap();

    assert_eq!(*entity3, Entity { id: 1, type_ids: KindSet::new(), is_active: true });
}

#[test]
fn release_stack_counts() {
    let mut entities = EntityManager::new();
    assert!(entities.is_activated_empty());
    assert!(entities.is_deactivated_empty());
    assert_eq!(entities.deactive_last(), None);
    for _ in 0..4 {
        entities.activate();
    }
    assert_eq!(entities.activated_size(), 4);
    entities.drop(3);
    entities.drop(1);
    assert_eq!(entities.deactivated_size(), 2);
    assert_eq!(entities.deactive_last(), Some(1));
    assert!(!entities.get(1).unwrap().is_active);
    assert_eq!(entities.activate(), 1);
    assert_eq!(entities.activate(), 3);
    assert_eq!(entities.activate(), 4);
    assert_eq!(entities.activated_size(), 5);
    assert!(entities.get(5).is_none());
}

#[test]
fn release_of_inactive_or_unknown_id_is_noop() {
    let mut entities = EntityManager::new();
    for _ in 0..3 {
        entities.activate();
    }
    entities.drop(1);
    entities.drop(1);
    entities.drop(17);
    assert_eq!(entities.deactivated_size(), 1);
    assert_eq!(entities.deactive_last(), Some(1));
    assert_eq!(entities.activate(), 1);
    assert_eq!(entities.activate(), 3);
    assert!(entities.is_deactivated_empty());
}

#[test]
fn filter_skips_released_records() {
    let mut entities = EntityManager::new();
    for _ in 0..3 {
        entities.activate();
    }
    let mut kinds = KindSet::new();
    kinds.insert(4);
    for id in 0..3 {
        entities.get_mut(id).unwrap().type_ids.insert(4);
    }
    entities.drop(1);
    assert_eq!(entities.filter_by_components(&kinds), vec![0, 2]);
    assert_eq!(entities.filter_by_components(&KindSet::new()), vec![0, 2]);
}

#[test]
fn kind_set_operations() {
    let mut a = KindSet::new();
    a.insert(9);
    a.insert(2);
    a.insert(9);
    a.insert(5);
    assert_eq!(a.len(), 3);
    assert!(a.contains(2) && a.contains(5) && a.contains(9));
    assert!(!a.contains(3));
    let mut b = KindSet::new();
    b.insert(5);
    b.insert(2);
    assert!(b.is_subset(&a));
    assert!(!a.is_subset(&b));
    assert!(KindSet::new().is_subset(&b));
    let mut c = KindSet::new();
    c.insert(2);
    c.insert(5);
    assert_eq!(b, c);
    assert_eq!(b.copy_set(), c);
}
