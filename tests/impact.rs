use ragdoll_sandbox::fixed::Point;
use ragdoll_sandbox::health::{EntityId, Health, JointOutcome};
use ragdoll_sandbox::impact::{
    apply_explosive_joint_damage, check_joint_damage, collision_hit, collision_joint_damage, detect_impact_damage,
    explosive_joint_damage, impact_hit, joint_stress, stress_damage, stress_hit,
    CollisionSample, ExplosiveSample, ImpactSample, JointHit, JointSample, Velocity,
};
use ragdoll_sandbox::world::World;

fn vel(x: i64, y: i64, w: i64) -> Velocity {
    Velocity { linear: Point { x, y }, angular: w }
}

#[test]
fn stress_formula() {
    assert_eq!(joint_stress(vel(300, 0, 0), vel(0, 0, 0)), 4500);
    assert_eq!(joint_stress(vel(0, 0, 20_000), vel(0, 0, 0)), 3000);
    assert_eq!(stress_damage(3000), 0);
    assert_eq!(stress_damage(4500), 1050);
    assert_eq!(stress_damage(18_000), 12_600);
    assert_eq!(stress_damage(60_000), 79_800);
}

#[test]
fn bodies_moving_together_take_no_stress() {
    let s = JointSample {
        child: EntityId { index: 1 },
        child_velocity: Some(vel(0, -5000, 300)),
        parent_velocity: Some(vel(0, -5000, 300)),
    };
    assert_eq!(stress_hit(&s), None);
}

#[test]
fn stress_hit_with_blood_along_relative_velocity() {
    let s = JointSample {
        child: EntityId { index: 1 },
        child_velocity: Some(vel(300, 0, 0)),
        parent_velocity: Some(vel(0, 0, 0)),
    };
    assert_eq!(
        stress_hit(&s),
        Some(JointHit { child: EntityId { index: 1 }, damage: 1050, blood_velocity: Point { x: 90, y: 0 } })
    );
    let gone = JointSample { child: EntityId { index: 1 }, child_velocity: Some(vel(300, 0, 0)), parent_velocity: None };
    assert_eq!(stress_hit(&gone), None);
}

#[test]
fn falling_impact_adds_vertical_bonus() {
    let s = ImpactSample { body: EntityId { index: 2 }, velocity: vel(0, 0, 0), previous: Some(vel(0, -300, 0)) };
    let h = impact_hit(&s).unwrap();
    assert_eq!(h.damage, 39_000);
    assert_eq!(h.blood_velocity, Point { x: 0, y: 0 });
}

#[test]
fn hard_impact_is_multiplied() {
    let s = ImpactSample { body: EntityId { index: 2 }, velocity: vel(1000, 0, 0), previous: Some(vel(0, 0, 0)) };
    let h = impact_hit(&s).unwrap();
    assert_eq!(h.damage, 100_000);
    assert_eq!(h.blood_velocity, Point { x: 500, y: 0 });
    let quiet = ImpactSample { body: EntityId { index: 2 }, velocity: vel(100, 0, 0), previous: Some(vel(0, 0, 0)) };
    assert_eq!(impact_hit(&quiet), None);
    let spin = ImpactSample { body: EntityId { index: 2 }, velocity: vel(0, 0, 10_000), previous: Some(vel(0, 0, 0)) };
    assert_eq!(impact_hit(&spin).unwrap().damage, 8000);
    let first = ImpactSample { body: EntityId { index: 2 }, velocity: vel(1000, 0, 0), previous: None };
    assert_eq!(impact_hit(&first), None);
}

#[test]
fn collision_with_heavy_fast_body() {
    let s = CollisionSample { body: EntityId { index: 3 }, velocity: Some(Point { x: 300, y: 400 }), other_mass: Some(10_000) };
    let h = collision_hit(&s).unwrap();
    assert_eq!(h.damage, 62_000);
    assert_eq!(h.blood_velocity, Point { x: 120, y: 160 });
    let slow = CollisionSample { body: EntityId { index: 3 }, velocity: Some(Point { x: 100, y: 0 }), other_mass: None };
    assert_eq!(collision_hit(&slow), None);
    let light = CollisionSample { body: EntityId { index: 3 }, velocity: Some(Point { x: 0, y: 250 }), other_mass: Some(1000) };
    let h = collision_hit(&light).unwrap();
    assert_eq!(h.damage, 8000);
    assert_eq!(h.blood_velocity, Point { x: 0, y: 50 });
    let still = CollisionSample { body: EntityId { index: 3 }, velocity: None, other_mass: Some(1_000_000) };
    assert_eq!(collision_hit(&still), None);
}

#[test]
fn explosive_impulse_joint_damage() {
    assert_eq!(explosive_joint_damage(200), 4000);
    assert_eq!(explosive_joint_damage(100), 0);
}

#[test]
fn engines_apply_hits_to_joints() {
    let mut world = World::new();
    let torso = world.spawn(Some(Health::new(150_000)));
    let arm = world.spawn(Some(Health::new(70_000)));
    world.attach_joint(arm, torso, 100_000);
    let report = check_joint_damage(
        &mut world,
        &vec![JointSample { child: arm, child_velocity: Some(vel(2000, 0, 0)), parent_velocity: Some(vel(0, 0, 0)) }],
    );
    // stress 30000: (27000 * 7 / 10) doubled
    assert_eq!(report.hits[0].unwrap().damage, 37_800);
    assert_eq!(report.outcomes[0], JointOutcome::Intact);
    let report = detect_impact_damage(
        &mut world,
        &vec![ImpactSample { body: arm, velocity: vel(0, 0, 0), previous: Some(vel(0, -300, 0)) }],
    );
    assert_eq!(report.outcomes[0], JointOutcome::Fractured(768));
    let report = collision_joint_damage(
        &mut world,
        &vec![
            CollisionSample { body: arm, velocity: Some(Point { x: 300, y: 400 }), other_mass: Some(10_000) },
            CollisionSample { body: arm, velocity: Some(Point { x: 300, y: 400 }), other_mass: Some(10_000) },
        ],
    );
    assert_eq!(report.outcomes[0], JointOutcome::Severed);
    assert_eq!(report.outcomes[1], JointOutcome::Skipped);
    assert!(world.joint(arm).is_none());
    assert!(world.is_alive(arm));
}

#[test]
fn explosive_impulse_hurts_its_own_joint() {
    let mut world = World::new();
    let torso = world.spawn(Some(Health::new(150_000)));
    let leg = world.spawn(Some(Health::new(90_000)));
    world.attach_joint(leg, torso, 100_000);
    let report = apply_explosive_joint_damage(
        &mut world,
        &vec![
            ExplosiveSample { body: leg, impulse: Point { x: 3000, y: 4000 } },
            ExplosiveSample { body: leg, impulse: Point { x: 60, y: 80 } },
        ],
    );
    assert_eq!(report.hits[0].unwrap().damage, 100_000);
    assert_eq!(report.outcomes[0], JointOutcome::Severed);
    assert_eq!(report.hits[1], None);
    assert_eq!(report.outcomes[1], JointOutcome::Skipped);
}
