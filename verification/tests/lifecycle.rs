use tracer_fx::geom::Vec3Fx;
use tracer_fx::tracer::TRACER_DURATION_MILLIS;
use tracer_fx::tracer::Tracer;
use tracer_fx::world::World;

fn up_tracer() -> Tracer {
    Tracer { end: Vec3Fx { x: 0, y: 10, z: 0 } }
}

#[test]
fn spawn_attaches_one_marker() {
    let mut world = World::new();
    let (root, plan) = world.spawn_tracer(&up_tracer(), Vec3Fx { x: 0, y: 0, z: 0 }, 25);
    assert_eq!(root, 0);
    assert_eq!(world.entity_count(), 4);
    // Exactly the root carries the marker, with the fixed duration.
    let marker = world.marker_of(root).expect("root carries the marker");
    assert_eq!(marker.created_at, 25);
    assert_eq!(marker.duration, TRACER_DURATION_MILLIS);
    assert_eq!(marker, plan.marker);
    assert!(world.marker_of(1).is_none());
    assert!(world.marker_of(2).is_none());
    assert!(world.marker_of(3).is_none());
}

#[test]
fn tracer_liveness_boundary() {
    // Spawned at t0 = 0: present through every sweep at t <= t0 + 100,
    // absent after the first sweep at t > t0 + 100.
    let mut world = World::new();
    let (root, _) = world.spawn_tracer(&up_tracer(), Vec3Fx { x: 0, y: 0, z: 0 }, 0);
    world.sweep(0);
    assert!(world.contains_entity(root));
    world.sweep(50);
    assert!(world.contains_entity(root));
    world.sweep(100);
    assert!(world.contains_entity(root));
    assert_eq!(world.entity_count(), 4);
    world.sweep(101);
    assert!(!world.contains_entity(root));
    assert_eq!(world.entity_count(), 0);
}

#[test]
fn sweep_is_idempotent() {
    // Two tracers, staggered: the sweep removes only the expired family,
    // and running it again with the clock unchanged removes nothing more.
    let mut world = World::new();
    let origin = Vec3Fx { x: 0, y: 0, z: 0 };
    let (first, _) = world.spawn_tracer(&up_tracer(), origin, 0);
    let (second, _) = world.spawn_tracer(&up_tracer(), origin, 60);
    assert_eq!(world.entity_count(), 8);
    world.sweep(120);
    let after_first = world.entity_ids();
    assert!(!world.contains_entity(first));
    assert!(world.contains_entity(second));
    assert_eq!(after_first, vec![4, 5, 6, 7]);
    world.sweep(120);
    let after_second = world.entity_ids();
    assert_eq!(after_first, after_second);
}

#[test]
fn cascading_removal() {
    // Once the root expires, none of its three children stays queryable.
    let mut world = World::new();
    let (root, _) = world.spawn_tracer(&up_tracer(), Vec3Fx { x: 0, y: 0, z: 0 }, 0);
    assert_eq!(world.entity_ids(), vec![0, 1, 2, 3]);
    world.sweep(200);
    assert!(!world.contains_entity(root));
    assert!(!world.contains_entity(1));
    assert!(!world.contains_entity(2));
    assert!(!world.contains_entity(3));
    assert_eq!(world.entity_count(), 0);
}

#[test]
fn degenerate_spawn_in_world() {
    // A zero-length tracer spawns without the beam child and still expires.
    let mut world = World::new();
    let origin = Vec3Fx { x: 1, y: 1, z: 1 };
    let tracer = Tracer { end: Vec3Fx { x: 1, y: 1, z: 1 } };
    let (root, plan) = world.spawn_tracer(&tracer, origin, 5);
    assert!(plan.beam.is_none());
    assert_eq!(world.entity_count(), 3);
    assert_eq!(world.entity_ids(), vec![0, 1, 2]);
    world.sweep(105);
    assert!(world.contains_entity(root));
    world.sweep(106);
    assert_eq!(world.entity_count(), 0);
}

#[test]
fn sweep_on_empty_world() {
    let mut world = World::new();
    world.sweep(1_000);
    assert_eq!(world.entity_count(), 0);
    assert!(!world.contains_entity(0));
}

#[test]
fn fresh_ids_after_removal() {
    // Ids are never reused: a tracer spawned after a sweep continues the
    // id sequence.
    let mut world = World::new();
    let origin = Vec3Fx { x: 0, y: 0, z: 0 };
    let (first, _) = world.spawn_tracer(&up_tracer(), origin, 0);
    world.sweep(500);
    assert!(!world.contains_entity(first));
    let (second, _) = world.spawn_tracer(&up_tracer(), origin, 500);
    assert_eq!(second, 4);
    assert_eq!(world.entity_ids(), vec![4, 5, 6, 7]);
}
