use ragdoll_sandbox::blast::BodyKind;
use ragdoll_sandbox::fixed::Point;
use ragdoll_sandbox::health::{EntityId, Health, JointOutcome};
use ragdoll_sandbox::shockwave::{
    shockwave_joint_damage, spawn_shockwave, update_shockwave, wave_decay_permille,
    wave_joint_damage, JointTarget, RingTick, WaveTarget,
};
use ragdoll_sandbox::world::{BodyOutcome, World};

fn target(id: EntityId, x: i64, kind: BodyKind) -> WaveTarget {
    WaveTarget { id, position: Point { x, y: 0 }, kind, mass: Some(1000), size: 10, velocity: None }
}

#[test]
fn ring_grows_and_decays() {
    let mut ring = spawn_shockwave(Point { x: 0, y: 0 }, 1000, 10_000);
    let tick = ring.advance(100);
    assert_eq!(ring.current_radius, 120);
    assert_eq!(tick, RingTick::Swept { old_radius: 0, new_radius: 120, decay: 959, swept_from: 0 });
    assert_eq!(wave_decay_permille(0, 1000), 1000);
    assert_eq!(wave_decay_permille(1000, 1000), 0);
}

#[test]
fn ring_expires_at_max_radius() {
    let mut ring = spawn_shockwave(Point { x: 0, y: 0 }, 500, 10_000);
    assert!(matches!(ring.advance(250), RingTick::Swept { .. }));
    assert_eq!(ring.advance(250), RingTick::Expired);
}

#[test]
fn ring_expires_with_its_lifetime() {
    let mut ring = spawn_shockwave(Point { x: 0, y: 0 }, 1_000_000, 10_000);
    let mut ticks = 0;
    while ring.advance(100) != RingTick::Expired {
        ticks += 1;
    }
    assert_eq!(ticks, 14);
    assert_eq!(ring.elapsed_ms, 1500);
}

#[test]
fn wave_pressure_impulse_and_damage() {
    let mut world = World::new();
    let id = world.spawn(Some(Health::new(1_000_000)));
    let mut ring = spawn_shockwave(Point { x: 0, y: 0 }, 1000, 10_000);
    let tick = update_shockwave(&mut world, &mut ring, &vec![target(id, 200, BodyKind::RagdollPart)], 250, &vec![0]);
    assert_eq!(tick.tick, RingTick::Swept { old_radius: 0, new_radius: 300, decay: 836, swept_from: 0 });
    let hit = tick.hits[0];
    assert!(hit.in_window);
    assert_eq!(hit.pressure, 18_692);
    assert_eq!(hit.impulse, Point { x: 93_460, y: 0 });
    assert_eq!(hit.torque, 0);
    assert_eq!(hit.damage, 44_860);
    assert_eq!(tick.outcomes[0], BodyOutcome::Alive);
    assert!(hit.bleeds);
    assert!(!hit.wooden_fragments);
    assert_eq!(world.health(id).unwrap().current, 1_000_000 - 44_860);
}

#[test]
fn stationary_body_is_swept_exactly_once() {
    let mut world = World::new();
    let id = world.spawn(None);
    let mut ring = spawn_shockwave(Point { x: 0, y: 0 }, 1000, 10_000);
    let targets = vec![target(id, 700, BodyKind::Other)];
    let mut hit_ticks = Vec::new();
    for t in 1..=4 {
        let tick = update_shockwave(&mut world, &mut ring, &targets, 250, &vec![0]);
        if tick.tick == RingTick::Expired {
            break;
        }
        if tick.hits[0].in_window {
            hit_ticks.push(t);
        }
    }
    assert_eq!(hit_ticks, vec![3]);
}

#[test]
fn body_where_windows_used_to_overlap_is_swept_once() {
    let mut world = World::new();
    let id = world.spawn(None);
    let mut ring = spawn_shockwave(Point { x: 0, y: 0 }, 1000, 10_000);
    let targets = vec![target(id, 650, BodyKind::Other)];
    let mut hit_ticks = Vec::new();
    for t in 1..=3 {
        let tick = update_shockwave(&mut world, &mut ring, &targets, 250, &vec![0]);
        if tick.hits[0].in_window {
            hit_ticks.push(t);
        }
    }
    assert_eq!(hit_ticks, vec![2]);
}

#[test]
fn lethal_wave_reports_death_and_fragment_velocity() {
    let mut world = World::new();
    let id = world.spawn(Some(Health::new(1000)));
    let mut ring = spawn_shockwave(Point { x: 0, y: 0 }, 1000, 10_000);
    let tick = update_shockwave(&mut world, &mut ring, &vec![target(id, 200, BodyKind::WoodenBox)], 250, &vec![0]);
    assert_eq!(tick.outcomes[0], BodyOutcome::Died);
    assert_eq!(tick.hits[0].fragment_velocity, Point { x: 500, y: 0 });
    assert_eq!(tick.hits[0].blood_velocity, Point { x: 800, y: 0 });
    assert!(tick.hits[0].wooden_fragments);
    assert!(!tick.hits[0].bleeds);
}

#[test]
fn wave_joint_damage_in_sweep_window_only() {
    let mut ring = spawn_shockwave(Point { x: 0, y: 0 }, 1000, 10_000);
    let RingTick::Swept { swept_from, new_radius, .. } = ring.advance(250) else { panic!() };
    // window [0, 380)
    assert_eq!(wave_joint_damage(&ring, swept_from, new_radius, Point { x: 400, y: 0 }), None);
    // sqrt(1000 / 250) = 2: pressure 20000, four thousandths per unit
    assert_eq!(wave_joint_damage(&ring, swept_from, new_radius, Point { x: 250, y: 0 }), Some(80_000));
    assert_eq!(wave_joint_damage(&ring, swept_from, new_radius, Point { x: 100, y: 0 }), Some(126_480));
    // window [380, 680): the first tick swept up to 380
    let RingTick::Swept { swept_from, new_radius, .. } = ring.advance(250) else { panic!() };
    assert_eq!(wave_joint_damage(&ring, swept_from, new_radius, Point { x: 250, y: 0 }), None);
    assert_eq!(wave_joint_damage(&ring, swept_from, new_radius, Point { x: 350, y: 0 }), None);
    assert!(wave_joint_damage(&ring, swept_from, new_radius, Point { x: 500, y: 0 }).is_some());
}

#[test]
fn joint_near_origin_is_hit_on_one_tick() {
    let mut world = World::new();
    let torso = world.spawn(Some(Health::new(150_000)));
    let arm = world.spawn(Some(Health::new(80_000)));
    world.attach_joint(arm, torso, 1_000_000_000);
    let mut ring = spawn_shockwave(Point { x: 0, y: 0 }, 1000, 10);
    let target = vec![JointTarget { child: arm, position: Point { x: 10, y: 0 } }];
    let mut hit_ticks = Vec::new();
    for t in 1..=10 {
        let RingTick::Swept { swept_from, new_radius, .. } = ring.advance(16) else { break };
        let report = shockwave_joint_damage(&mut world, &ring, swept_from, new_radius, &target);
        if report.hits[0].is_some() {
            hit_ticks.push(t);
        }
    }
    assert_eq!(hit_ticks, vec![1]);
}

#[test]
fn shockwave_damages_joints_in_its_window() {
    let mut world = World::new();
    let torso = world.spawn(Some(Health::new(150_000)));
    let near = world.spawn(Some(Health::new(80_000)));
    let far = world.spawn(Some(Health::new(80_000)));
    world.attach_joint(near, torso, 100_000);
    world.attach_joint(far, torso, 100_000);
    let mut ring = spawn_shockwave(Point { x: 0, y: 0 }, 1000, 10_000);
    let RingTick::Swept { swept_from, new_radius, .. } = ring.advance(250) else { panic!() };
    let targets = vec![
        JointTarget { child: near, position: Point { x: 250, y: 0 } },
        JointTarget { child: far, position: Point { x: 0, y: 900 } },
    ];
    let report = shockwave_joint_damage(&mut world, &ring, swept_from, new_radius, &targets);
    // 80 hit points off 100
    assert_eq!(report.outcomes[0], JointOutcome::Fractured(800));
    assert_eq!(report.outcomes[1], JointOutcome::Skipped);
    assert_eq!(world.joint(near).unwrap().current, 20_000);
    assert_eq!(world.joint(far).unwrap().current, 100_000);
}

#[test]
fn joint_in_overlap_band_is_hit_once() {
    let mut world = World::new();
    let torso = world.spawn(Some(Health::new(150_000)));
    let arm = world.spawn(Some(Health::new(80_000)));
    world.attach_joint(arm, torso, 1_000_000_000);
    let mut ring = spawn_shockwave(Point { x: 0, y: 0 }, 1000, 10);
    let target = vec![JointTarget { child: arm, position: Point { x: 650, y: 0 } }];
    let mut hit_ticks = Vec::new();
    for t in 1..=3 {
        let RingTick::Swept { swept_from, new_radius, .. } = ring.advance(250) else { break };
        let report = shockwave_joint_damage(&mut world, &ring, swept_from, new_radius, &target);
        if report.hits[0].is_some() {
            hit_ticks.push(t);
        }
    }
    assert_eq!(hit_ticks, vec![2]);
}

#[test]
fn slow_ticks_hit_a_near_body_once() {
    let mut world = World::new();
    let id = world.spawn(Some(Health::new(1_000_000_000)));
    let mut ring = spawn_shockwave(Point { x: 0, y: 0 }, 400, 10_000);
    let targets = vec![target(id, 50, BodyKind::RagdollPart)];
    let mut hit_ticks = Vec::new();
    let mut windows = Vec::new();
    for t in 1..=30 {
        let tick = update_shockwave(&mut world, &mut ring, &targets, 16, &vec![0]);
        let RingTick::Swept { swept_from, new_radius, .. } = tick.tick else { break };
        windows.push((swept_from, new_radius + 80));
        if tick.hits[0].in_window {
            assert!(tick.hits[0].damage > 0);
            hit_ticks.push(t);
        }
    }
    assert_eq!(hit_ticks, vec![1]);
    assert_eq!(&windows[..2], &[(0, 99), (99, 118)]);
    assert!(windows.windows(2).all(|w| w[0].1 == w[1].0));
}
