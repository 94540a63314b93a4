use ragdoll_sandbox::combustion::{
    apply_fire_damage, ignite, ignite_nearest, spread_chance, spread_fire, spread_fire_randomly,
    try_spread, FireOutcome, FireTick, OnFire, FIRE_DURATION_MS,
};
use ragdoll_sandbox::finder::{find_closest_entity, Candidate};
use ragdoll_sandbox::fixed::Point;
use ragdoll_sandbox::health::{EntityId, Health};
use ragdoll_sandbox::world::World;

fn at(index: u32, x: i64, y: i64) -> Candidate {
    Candidate { id: EntityId { index }, position: Point { x, y } }
}

#[test]
fn spread_chance_falls_with_distance() {
    let o = Point { x: 0, y: 0 };
    assert_eq!(spread_chance(o, 1000, o), 10_000);
    assert_eq!(spread_chance(o, 1000, Point { x: 25, y: 0 }), 5000);
    assert_eq!(spread_chance(o, 500, Point { x: 0, y: 25 }), 2500);
    assert_eq!(spread_chance(o, 1000, Point { x: 50, y: 0 }), 0);
}

#[test]
fn spread_hops_attenuate() {
    let o = Point { x: 0, y: 0 };
    let mut intensity = 1000;
    let mut seen = Vec::new();
    while let Some(f) = try_spread(o, intensity, o, 0) {
        assert!(f.intensity < intensity);
        assert_eq!(f.duration_ms, FIRE_DURATION_MS);
        intensity = f.intensity;
        seen.push(intensity);
    }
    assert_eq!(&seen[..4], &[800, 640, 512, 409]);
    assert!(seen.len() < 1000);
    assert_eq!(*seen.last().unwrap(), 0);
}

#[test]
fn spread_needs_a_lucky_roll() {
    let o = Point { x: 0, y: 0 };
    assert_eq!(try_spread(o, 1000, Point { x: 25, y: 0 }, 4999).unwrap().intensity, 800);
    assert_eq!(try_spread(o, 1000, Point { x: 25, y: 0 }, 5000), None);
    let targets = vec![at(1, 10, 0), at(2, 100, 0)];
    let r = spread_fire(o, 1000, &targets, &vec![0, 0]);
    assert!(r[0].is_some());
    assert!(r[1].is_none());
    let random = spread_fire_randomly(o, 1000, &targets);
    assert_eq!(random.len(), 2);
    assert!(random[1].is_none());
}

#[test]
fn fire_kills_a_weak_body() {
    let mut world = World::new();
    let e = world.spawn(Some(Health::new(1000)));
    let mut fire = ignite();
    let tick = apply_fire_damage(&mut world, e, &mut fire, 100, true);
    assert_eq!(tick, FireTick { outcome: FireOutcome::Died, particles: 3, bleeds: true });
    assert_eq!(world.health(e).unwrap().current, -500);
    let mut world = World::new();
    let e = world.spawn(Some(Health::new(1000)));
    let mut fire = ignite();
    let tick = apply_fire_damage(&mut world, e, &mut fire, 100, false);
    assert_eq!(tick.outcome, FireOutcome::Died);
    assert!(!tick.bleeds);
}

#[test]
fn fire_burns_out_and_body_survives() {
    let mut world = World::new();
    let e = world.spawn(Some(Health::new(1_000_000)));
    let mut fire = OnFire { intensity: 500, duration_ms: 8000, elapsed_ms: 7950 };
    let tick = apply_fire_damage(&mut world, e, &mut fire, 20, true);
    assert_eq!(tick, FireTick { outcome: FireOutcome::Burning, particles: 1, bleeds: false });
    assert_eq!(world.health(e).unwrap().current, 1_000_000 - 150);
    assert_eq!(apply_fire_damage(&mut world, e, &mut fire, 100, true).outcome, FireOutcome::Extinguished);
    assert_eq!(fire.elapsed_ms, 8000);
    world.despawn(e);
    assert_eq!(apply_fire_damage(&mut world, e, &mut fire, 100, true).outcome, FireOutcome::Skipped);
}

#[test]
fn ignition_picks_nearest_flammable_in_reach() {
    let p = Point { x: 0, y: 0 };
    let c = vec![at(1, 90, 0), at(2, 0, 60), at(3, -60, 0), at(4, 5, 200)];
    let (id, fire) = ignite_nearest(&c, p).unwrap();
    assert_eq!(id, EntityId { index: 2 });
    assert_eq!(fire.intensity, 1000);
    assert!(ignite_nearest(&vec![at(5, 100, 0)], p).is_none());
    assert!(ignite_nearest(&vec![], p).is_none());
    assert_eq!(find_closest_entity(&c, Point { x: 80, y: 0 }, 50), Some(EntityId { index: 1 }));
}
