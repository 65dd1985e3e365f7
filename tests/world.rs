use ecs::kinds::KindSet;
use ecs::system::{Dispatch, System};
use ecs::world::World;

const HEALTH: u64 = 1;
const TICKS: u64 = 100;

struct Step {
    amount: u32,
}

impl System<u32, u64> for Step {
    fn ran(&self, _before: World<u32, u64>, _after: World<u32, u64>) -> bool {
        true
    }

    fn run(&mut self, world: &mut World<u32, u64>) {
        if let Ok(t) = world.get_resource_mut(TICKS) {
            *t = *t * 10 + self.amount as u64;
        }
    }
}

#[test]
fn world_delegates_to_its_parts() {
    let mut world: World<u32, u64> = World::new();
    world.register_component(HEALTH);
    let e = world.create_entity().with_component(HEALTH, 50).build();
    assert_eq!(world.query().with_component(HEALTH).get(), vec![e]);
    assert_eq!(world.get_components(HEALTH).unwrap().get(e).unwrap(), &Some(50));
    *world.get_components_mut(HEALTH).unwrap().get_mut(e).unwrap() = Some(49);
    assert_eq!(world.get_components(HEALTH).unwrap().get(e).unwrap(), &Some(49));
    assert!(world.get_entity(e).unwrap().type_ids.contains(HEALTH));
    world.get_entity_mut(e).unwrap().type_ids = KindSet::new();
    assert_eq!(world.query().with_component(HEALTH).get(), Vec::<usize>::new());
    world.release_entity(e);
    assert!(!world.get_entity(e).unwrap().is_active);
    world.add_resource(TICKS, 0);
    assert_eq!(world.get_resource(TICKS).unwrap(), &0);
    world.remove_resource(TICKS);
    assert!(world.get_resource(TICKS).is_err());
}

#[test]
fn systems_run_in_order() {
    let mut world: World<u32, u64> = World::new();
    world.add_resource(TICKS, 0);
    let mut dispatch = Dispatch::new();
    dispatch.add_system(1, Step { amount: 1 });
    dispatch.add_system(2, Step { amount: 2 });
    dispatch.add_system(3, Step { amount: 3 });
    dispatch.dispatch_systems(&mut world);
    assert_eq!(*world.get_resource(TICKS).unwrap(), 123);
    dispatch.remove_system(2);
    dispatch.add_system(1, Step { amount: 4 });
    dispatch.dispatch_systems(&mut world);
    assert_eq!(*world.get_resource(TICKS).unwrap(), 12334);
}
