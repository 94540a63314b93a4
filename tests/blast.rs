use ragdoll_sandbox::blast::{
    apply_explosion, apply_radial_impulse, detonate, BlastTarget, Bomb, BodyKind, Explosion,
    EXPLOSION_FORCE, EXPLOSION_RADIUS,
};
use ragdoll_sandbox::fixed::Point;
use ragdoll_sandbox::health::Health;
use ragdoll_sandbox::world::{BodyOutcome, World};

#[test]
fn point_explosion_at_half_radius() {
    let center = Point { x: 0, y: 0 };
    let push = apply_radial_impulse(Point { x: 200, y: 0 }, center, 400, 150_000, 0);
    assert_eq!(push.strength, 75_000);
    assert_eq!(push.impulse, Point { x: 75_000, y: 0 });
    assert_eq!(push.torque, 0);
    let up = apply_radial_impulse(Point { x: 0, y: -200 }, center, 400, 150_000, 4000);
    assert_eq!(up.impulse, Point { x: 0, y: -75_000 });
    assert_eq!(up.torque, 2000);
}

#[test]
fn point_explosion_beyond_radius_pushes_nothing() {
    let center = Point { x: 10, y: 10 };
    for body in [Point { x: 410, y: 10 }, Point { x: 10, y: 900 }, Point { x: 10, y: 10 }] {
        let push = apply_radial_impulse(body, center, 400, 150_000, 4999);
        assert_eq!(push.strength, 0);
        assert_eq!(push.impulse, Point { x: 0, y: 0 });
        assert_eq!(push.torque, 0);
    }
}

#[test]
fn explosion_damages_and_kills() {
    let mut world = World::new();
    let part = world.spawn(Some(Health::new(100_000)));
    let crate_box = world.spawn(Some(Health::new(1_000_000)));
    let rock = world.spawn(Some(Health::new(10)));
    let e = Explosion { position: Point { x: 0, y: 0 }, radius: 400, force: 150_000 };
    let targets = vec![
        BlastTarget { id: part, position: Point { x: 200, y: 0 }, kind: BodyKind::RagdollPart },
        BlastTarget { id: crate_box, position: Point { x: 0, y: 300 }, kind: BodyKind::WoodenBox },
        BlastTarget { id: rock, position: Point { x: 100, y: 0 }, kind: BodyKind::Other },
    ];
    let hits = apply_explosion(&mut world, &e, &targets, &vec![0, 0, 0]);
    assert_eq!(hits[0].damage, 150_000);
    assert_eq!(hits[0].outcome, BodyOutcome::Died);
    assert_eq!(hits[1].push.strength, 37_500);
    assert_eq!(hits[1].damage, 75_000);
    assert_eq!(hits[1].outcome, BodyOutcome::Alive);
    assert_eq!(hits[2].damage, 0);
    assert_eq!(hits[2].outcome, BodyOutcome::Skipped);
    assert_eq!(world.health(rock).unwrap().current, 10);
    assert_eq!(world.health(crate_box).unwrap().current, 925_000);
}

#[test]
fn bomb_detonates_once_when_fuse_burns_out() {
    let mut b = Bomb::new();
    assert!(!b.tick(1500));
    assert!(b.tick(600));
    assert!(!b.tick(100));
    let e = detonate(Point { x: 5, y: -5 });
    assert_eq!(e.radius, EXPLOSION_RADIUS);
    assert_eq!(e.force, EXPLOSION_FORCE);
    assert_eq!(e.position, Point { x: 5, y: -5 });
}
