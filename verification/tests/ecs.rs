use simulation::ecs::{
    city_stats_system, clock_system, CityGrid, CityStats, ComponentStorage, Entity, GameTime,
    Resource, ResourceKind, World,
};

#[test]
fn component_storage_insert_get_remove() {
    let mut storage: ComponentStorage<i64> = ComponentStorage::new();
    let a = Entity(0);
    let b = Entity(1);
    storage.insert(a, 10);
    storage.insert(b, 20);
    assert_eq!(storage.get(a), Some(&10));
    assert_eq!(storage.get(b), Some(&20));

    storage.insert(a, 11); // replaces
    assert_eq!(storage.get(a), Some(&11));
    assert_eq!(storage.iter().len(), 2);

    assert_eq!(storage.remove(a), Some(11));
    assert_eq!(storage.get(a), None);
    assert_eq!(storage.remove(a), None);
}

#[test]
fn iter_mut_and_query_mut_allow_in_place_edits() {
    let mut storage: ComponentStorage<i64> = ComponentStorage::new();
    storage.insert(Entity(0), 1);
    storage.insert(Entity(1), 2);
    for pair in storage.iter_mut().iter_mut() {
        pair.1 *= 10;
    }
    assert_eq!(storage.get(Entity(0)), Some(&10));
    assert_eq!(storage.get(Entity(1)), Some(&20));

    let mut world: World<i64> = World::new();
    let e = world.create_entity();
    world.add_component(e, 3);
    for pair in world.query_mut().iter_mut() {
        pair.1 += 1;
    }
    assert_eq!(world.get_component(e), Some(&4));
}

#[test]
fn component_storage_get_mut_updates_in_place() {
    let mut storage: ComponentStorage<i64> = ComponentStorage::new();
    storage.insert(Entity(3), 7);
    if let Some(v) = storage.get_mut(Entity(3)) {
        *v = 8;
    }
    assert_eq!(storage.get(Entity(3)), Some(&8));
    assert!(storage.get_mut(Entity(9)).is_none());
}

#[test]
fn world_mints_fresh_entities_and_stores_components() {
    let mut world: World<u32> = World::new();
    let a = world.create_entity();
    let b = world.create_entity();
    assert_eq!(a, Entity(0));
    assert_eq!(b, Entity(1));

    world.add_component(a, 5);
    world.add_component(b, 6);
    assert_eq!(world.get_component(a), Some(&5));
    if let Some(v) = world.get_component_mut(b) {
        *v = 60;
    }
    assert_eq!(world.get_component(b), Some(&60));
    assert_eq!(world.query().len(), 2);
    assert_eq!(world.remove_component(a), Some(5));
    assert_eq!(world.get_component(a), None);
}

#[test]
fn world_resources_live_in_typed_slots() {
    let mut world: World<u32> = World::new();
    assert!(world.get_resource(ResourceKind::CityGrid).is_none());
    world.insert_resource(Resource::CityGrid(CityGrid { width: 32, height: 32 }));
    match world.get_resource(ResourceKind::CityGrid) {
        Some(Resource::CityGrid(g)) => assert_eq!((g.width, g.height), (32, 32)),
        _ => panic!("expected the grid resource"),
    }
    let taken = world.remove_resource(ResourceKind::CityGrid);
    assert!(taken.is_some());
    assert!(world.get_resource(ResourceKind::CityGrid).is_none());
}

#[test]
fn clock_system_scales_and_respects_pause() {
    let mut world: World<u32> = World::new();
    world.insert_resource(Resource::GameTime(GameTime::new(86400000)));
    clock_system(&mut world, 1000);
    match world.get_resource(ResourceKind::GameTime) {
        Some(Resource::GameTime(t)) => assert_eq!(t.time_ms, 1000),
        _ => panic!("expected the clock resource"),
    }

    if let Some(Resource::GameTime(t)) = world.get_resource_mut(ResourceKind::GameTime) {
        t.toggle_pause();
        t.set_speed(4);
    }
    clock_system(&mut world, 1000);
    match world.get_resource(ResourceKind::GameTime) {
        Some(Resource::GameTime(t)) => {
            assert!(t.is_paused);
            assert_eq!(t.time_ms, 1000); // paused: unchanged
        },
        _ => panic!("expected the clock resource"),
    }
}

#[test]
fn game_time_days_and_fractions() {
    let mut t = GameTime::new(1000);
    t.time_ms = 2500;
    assert_eq!(t.current_day(), 2);
    assert_eq!(t.time_of_day(), 500);
    t.toggle_pause();
    assert!(t.is_paused);
    t.set_speed(3);
    assert_eq!(t.speed, 3);
}

#[test]
fn city_stats_system_publishes_the_entity_count() {
    let mut world: World<u32> = World::new();
    world.create_entity();
    world.create_entity();
    city_stats_system(&mut world);
    match world.get_resource(ResourceKind::CityStats) {
        Some(Resource::CityStats(s)) => assert_eq!(*s, CityStats { entity_count: 2 }),
        _ => panic!("expected the stats resource"),
    }
}
