use ragdoll_sandbox::health::{EntityId, Health, JointHealth, JointOutcome};
use ragdoll_sandbox::world::{BodyOutcome, World};

#[test]
fn damage_never_raises_health() {
    for damage in [0i64, 1, 500, 100_000, i64::MAX] {
        let mut h = Health::new(100_000);
        let before = h.current;
        h.apply_damage(damage);
        assert!(h.current <= before);
        assert_eq!(h.max, 100_000);
    }
}

#[test]
fn damage_saturates_instead_of_wrapping() {
    let mut h = Health { current: i64::MIN + 5, max: 10 };
    assert!(h.apply_damage(100));
    assert_eq!(h.current, i64::MIN);
}

#[test]
fn joint_fracture_severity() {
    let mut j = JointHealth::new(100_000, EntityId { index: 0 });
    assert_eq!(j.apply_damage(40_000), JointOutcome::Intact);
    assert_eq!(j.apply_damage(20_000), JointOutcome::Fractured(600));
    assert_eq!(j.current, 40_000);
    assert_eq!(j.apply_damage(40_000), JointOutcome::Severed);
}

#[test]
fn fatal_joint_stress_frees_child_and_spares_parent() {
    let mut world = World::new();
    let parent = world.spawn(Some(Health::new(150_000)));
    let child = world.spawn(Some(Health::new(80_000)));
    assert!(world.attach_joint(child, parent, 100_000));
    assert_eq!(world.damage_joint(child, 120_000), JointOutcome::Severed);
    assert!(world.joint(child).is_none());
    assert!(world.is_alive(child));
    assert!(world.is_alive(parent));
    assert_eq!(world.health(parent), Some(Health { current: 150_000, max: 150_000 }));
    assert_eq!(world.health(child), Some(Health { current: 80_000, max: 80_000 }));
    // a second hit on the severed joint is skipped
    assert_eq!(world.damage_joint(child, 1), JointOutcome::Skipped);
}

#[test]
fn despawn_twice_is_despawn_once() {
    let mut world = World::new();
    let a = world.spawn(Some(Health::new(1000)));
    let b = world.spawn(None);
    assert!(world.despawn(a));
    let once = world.slots.clone();
    assert!(!world.despawn(a));
    assert_eq!(world.slots.len(), once.len());
    assert!(!world.is_alive(a));
    assert!(world.is_alive(b));
    assert_eq!(world.health(a), None);
}

#[test]
fn despawn_batch_reports_each_body_once() {
    let mut world = World::new();
    let a = world.spawn(Some(Health::new(1000)));
    let b = world.spawn(Some(Health::new(1000)));
    let c = world.spawn(Some(Health::new(1000)));
    let removed = world.despawn_batch(&vec![a, b, a, a, b]);
    assert_eq!(removed, vec![a, b]);
    assert!(!world.is_alive(a));
    assert!(!world.is_alive(b));
    assert!(world.is_alive(c));
    let again = world.despawn_batch(&vec![a]);
    assert!(again.is_empty());
}

#[test]
fn stale_handles_are_skipped() {
    let mut world = World::new();
    let a = world.spawn(Some(Health::new(1000)));
    world.despawn(a);
    assert_eq!(world.damage_body(a, 10), BodyOutcome::Skipped);
    assert_eq!(world.damage_joint(a, 10), JointOutcome::Skipped);
    assert_eq!(world.damage_body(EntityId { index: 99 }, 10), BodyOutcome::Skipped);
}

#[test]
fn body_dies_at_zero_health() {
    let mut world = World::new();
    let a = world.spawn(Some(Health::new(1000)));
    assert_eq!(world.damage_body(a, 400), BodyOutcome::Alive);
    assert_eq!(world.damage_body(a, 600), BodyOutcome::Died);
    assert_eq!(world.health(a).unwrap().current, 0);
}

#[test]
fn a_death_is_reported_once_per_body() {
    let mut world = World::new();
    let a = world.spawn(Some(Health::new(1000)));
    assert_eq!(world.damage_body(a, 5000), BodyOutcome::Died);
    assert_eq!(world.damage_body(a, 5000), BodyOutcome::Skipped);
    assert_eq!(world.health(a).unwrap().current, -4000);
    assert_eq!(world.despawn_batch(&vec![a, a]), vec![a]);
}
