use ecs::resource::{Resource, ResourceError, ResourceType, Resources};

const DELTA_TIME: u64 = 1;
const SCREEN_SIZE: u64 = 2;

#[derive(Debug, PartialEq)]
enum Res {
    DeltaTime { value: f32 },
    ScreenSize { width: f32, height: f32 },
}

fn delta(r: &Res) -> f32 {
    match r {
        Res::DeltaTime { value } => *value,
        _ => panic!("not a delta time"),
    }
}

#[test]
fn test_resources() {
    let mut resources = Resources::new();
    resources.add(DELTA_TIME, Res::DeltaTime { value: 1.0 });
    resources.add(SCREEN_SIZE, Res::ScreenSize { width: 100.0, height: 100.0 });

    assert!(resources.get(DELTA_TIME).is_ok());
    assert_eq!(delta(resources.get(DELTA_TIME).unwrap()), 1.0);

    let delta_time = resources.get_mut(DELTA_TIME).unwrap();
    *delta_time = Res::DeltaTime { value: 5.0 };
    assert_eq!(delta(delta_time), 5.0);
}

#[test]
fn missing_and_removed_resources() {
    let mut resources = Resources::new();
    assert_eq!(resources.get(DELTA_TIME).err(), Some(ResourceError::NotFound));
    resources.add(DELTA_TIME, Res::DeltaTime { value: 1.0 });
    resources.add(DELTA_TIME, Res::DeltaTime { value: 2.0 });
    assert_eq!(delta(resources.get(DELTA_TIME).unwrap()), 2.0);
    resources.remove(DELTA_TIME);
    assert_eq!(resources.get(DELTA_TIME).err(), Some(ResourceError::NotFound));
    assert!(resources.get_mut(SCREEN_SIZE).is_err());
    resources.remove(SCREEN_SIZE);
    resources.add(SCREEN_SIZE, Res::ScreenSize { width: 3.0, height: 4.0 });
    assert_eq!(
        resources.get(SCREEN_SIZE).unwrap(),
        &Res::ScreenSize { width: 3.0, height: 4.0 }
    );
}

#[test]
fn single_resource_holder() {
    let mut r = Resource::new(7u32);
    assert_eq!(*r.get(), 7);
    *r.get_mut() = 8;
    assert_eq!(*r.get(), 8);
}
