use ecs::component_store::{ComponentError, ComponentStore, VecStore};
use ecs::registry::Registry;

const HEALTH: u64 = 10;
const SPEED: u64 = 11;
const POSITION: u64 = 12;

#[derive(Debug, PartialEq, Clone, Copy)]
enum Comp {
    Health(u32),
    Speed(u32),
    Position(f32, f32),
}

fn aligned(registry: &Registry<Comp>, kinds: &[u64]) -> bool {
    kinds.iter().all(|k| match registry.get_components(*k) {
        Some(c) => c.len() == table_len(registry),
        None => true,
    })
}

fn table_len(registry: &Registry<Comp>) -> usize {
    let mut n = 0;
    while registry.get_entity(n).is_some() {
        n += 1;
    }
    n
}

#[test]
fn create_entity() {
    let mut registry: Registry<Comp> = Registry::new();
    registry.register_component(HEALTH);
    registry.register_component(SPEED);

    let e1 = registry
        .create_entity()
        .with_component(HEALTH, Comp::Health(100))
        .with_component(SPEED, Comp::Speed(100))
        .build();

    let entity1 = registry.get_entity(e1).unwrap();

    assert_eq!(e1, 0);
    assert_eq!(entity1.type_ids.contains(HEALTH), true);
    assert_eq!(entity1.type_ids.contains(SPEED), true);

    assert_eq!(registry.has_component(HEALTH), true);

    let e2 = registry
        .create_entity()
        .with_component(HEALTH, Comp::Health(100))
        .with_component(POSITION, Comp::Position(1.0, 1.0))
        .build();

    let entity2 = registry.get_entity(e2).unwrap();

    assert_eq!(e2, 1);
    assert_eq!(entity2.type_ids.contains(HEALTH), true);
    assert_eq!(entity2.type_ids.contains(POSITION), true);

    let query = registry.query().with_component(HEALTH).get();

    assert_eq!(query.len(), 2);

    for id in query {
        let health = registry
            .get_components_mut(HEALTH)
            .unwrap()
            .get_mut(id)
            .expect("Failed to get Health component.");
        if let Some(Comp::Health(v)) = health.as_mut() {
            *v -= 5;
        }
        assert_eq!(*health, Some(Comp::Health(95)));
    }
}

#[test]
fn end_to_end_health_and_position() {
    let mut registry: Registry<Comp> = Registry::new();
    registry.register_component(HEALTH);
    registry.register_component(POSITION);
    let e1 = registry.create_entity().with_component(HEALTH, Comp::Health(100)).build();
    let e2 = registry
        .create_entity()
        .with_component(HEALTH, Comp::Health(100))
        .with_component(POSITION, Comp::Position(1.0, 1.0))
        .build();
    assert_eq!(registry.query().with_component(HEALTH).get(), vec![e1, e2]);
    *registry.get_components_mut(HEALTH).unwrap().get_mut(e1).unwrap() = Some(Comp::Health(95));
    let col = registry.get_components(HEALTH).unwrap();
    assert_eq!(col.get(e1).unwrap(), &Some(Comp::Health(95)));
    assert_eq!(col.get(e2).unwrap(), &Some(Comp::Health(100)));
    assert_eq!(
        registry.get_components(POSITION).unwrap().get(e2).unwrap(),
        &Some(Comp::Position(1.0, 1.0))
    );
    assert_eq!(registry.get_components(POSITION).unwrap().get(e1).unwrap(), &None);
}

#[test]
fn released_ids_come_back_in_reverse_order() {
    let mut registry: Registry<Comp> = Registry::new();
    for _ in 0..8 {
        registry.create_entity().build();
    }
    registry.release_entity(2);
    registry.release_entity(5);
    registry.release_entity(7);
    let a = registry.create_entity().build();
    let b = registry.create_entity().build();
    let c = registry.create_entity().build();
    assert_eq!(vec![a, b, c], vec![7, 5, 2]);
    assert_eq!(registry.create_entity().build(), 8);
}

#[test]
fn reused_id_reads_empty() {
    let mut registry: Registry<Comp> = Registry::new();
    let e = registry
        .create_entity()
        .with_component(HEALTH, Comp::Health(3))
        .with_component(SPEED, Comp::Speed(4))
        .build();
    registry.release_entity(e);
    assert_eq!(registry.get_components(HEALTH).unwrap().get(e).unwrap(), &None);
    let again = registry.create_entity().build();
    assert_eq!(again, e);
    assert_eq!(registry.get_components(HEALTH).unwrap().get(again).unwrap(), &None);
    assert_eq!(registry.get_components(SPEED).unwrap().get(again).unwrap(), &None);
    assert!(registry.get_entity(again).unwrap().type_ids.len() == 0);
    assert!(registry.get_entity(again).unwrap().is_active);
}

#[test]
fn double_release_is_noop() {
    let mut registry: Registry<Comp> = Registry::new();
    for _ in 0..3 {
        registry.create_entity().with_component(SPEED, Comp::Speed(1)).build();
    }
    registry.release_entity(1);
    registry.release_entity(1);
    registry.release_entity(40);
    assert_eq!(registry.create_entity().build(), 1);
    assert_eq!(registry.create_entity().build(), 3);
    assert_eq!(registry.get_components(SPEED).unwrap().get(0).unwrap(), &Some(Comp::Speed(1)));
}

#[test]
fn query_membership_sets() {
    const X: u64 = 1;
    const Y: u64 = 2;
    const Z: u64 = 3;
    let mut registry: Registry<Comp> = Registry::new();
    let a = registry
        .create_entity()
        .with_component(X, Comp::Speed(0))
        .with_component(Y, Comp::Speed(0))
        .build();
    let b = registry.create_entity().with_component(X, Comp::Speed(0)).build();
    let c = registry
        .create_entity()
        .with_component(Y, Comp::Speed(0))
        .with_component(Z, Comp::Speed(0))
        .build();
    assert_eq!(registry.query().with_component(X).get(), vec![a, b]);
    assert_eq!(registry.query().with_component(X).with_component(Y).get(), vec![a]);
    assert_eq!(registry.query().get(), vec![a, b, c]);
    assert_eq!(registry.query().with_component(99).get(), Vec::<usize>::new());
    registry.release_entity(b);
    assert_eq!(registry.query().with_component(X).get(), vec![a]);
}

#[test]
fn columns_follow_the_table() {
    let mut registry: Registry<Comp> = Registry::new();
    registry.register_component(HEALTH);
    assert!(aligned(&registry, &[HEALTH]));
    for _ in 0..3 {
        registry.create_entity().build();
    }
    assert!(aligned(&registry, &[HEALTH]));
    registry.register_component(SPEED);
    assert_eq!(registry.get_components(SPEED).unwrap().len(), 3);
    registry.release_entity(0);
    assert!(aligned(&registry, &[HEALTH, SPEED]));
    registry.create_entity().with_component(POSITION, Comp::Position(0.5, 2.0)).build();
    registry.create_entity().build();
    assert!(aligned(&registry, &[HEALTH, SPEED, POSITION]));
    assert_eq!(registry.get_components(POSITION).unwrap().len(), 4);
}

#[test]
fn registering_again_empties_the_column() {
    let mut registry: Registry<Comp> = Registry::new();
    let e = registry.create_entity().with_component(HEALTH, Comp::Health(1)).build();
    registry.register_component(HEALTH);
    assert_eq!(registry.get_components(HEALTH).unwrap().get(e).unwrap(), &None);
    assert_eq!(registry.get_components(HEALTH).unwrap().len(), 1);
}

#[test]
fn unknown_kind_and_slot() {
    let mut registry: Registry<Comp> = Registry::new();
    assert!(registry.get_components(HEALTH).is_none());
    assert!(registry.get_components_mut(HEALTH).is_none());
    assert!(!registry.has_component(HEALTH));
    registry.create_entity().with_component(HEALTH, Comp::Health(1)).build();
    let col = registry.get_components(HEALTH).unwrap();
    assert_eq!(col.get(1).err(), Some(ComponentError::NotFound));
    assert!(registry.get_entity(1).is_none());
    registry.get_entity_mut(0).unwrap().is_active = true;
    assert!(registry.get_entity_mut(3).is_none());
}

#[test]
fn column_store_operations() {
    let mut store: VecStore<u8> = VecStore::new();
    store.push_none();
    store.push_empty();
    store.set(1, 7);
    assert_eq!(store.get(1).unwrap(), &Some(7));
    store.resize_to_nones(4);
    assert_eq!(store.len(), 4);
    assert_eq!(store.get(1).unwrap(), &Some(7));
    assert_eq!(store.get(3).unwrap(), &None);
    store.set(3, 9);
    store.set_none(3);
    assert_eq!(store.get(3).unwrap(), &None);
    store.set(2, 1);
    ComponentStore::drop(&mut store, 2);
    assert_eq!(store.get(2).unwrap(), &None);
    *store.get_mut(0).unwrap() = Some(5);
    store.clear(1);
    store.resize_empty(1);
    assert_eq!(store.len(), 1);
    assert_eq!(store.get(0).unwrap(), &Some(5));
    assert_eq!(store.get_mut(1).err(), Some(ComponentError::NotFound));
}
