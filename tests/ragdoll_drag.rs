use ragdoll_sandbox::drag::{box_health, creation_rect, BodyType, CreateDragState, CreateRect, DragState};
use ragdoll_sandbox::finder::Candidate;
use ragdoll_sandbox::fixed::Point;
use ragdoll_sandbox::health::{EntityId, Health, JointHealth};
use ragdoll_sandbox::ragdoll::{ragdoll_blueprint, spawn_ragdoll, RAGDOLL_JOINT_HEALTH};
use ragdoll_sandbox::world::World;

#[test]
fn ragdoll_has_ten_parts_and_nine_joints() {
    let mut world = World::new();
    let ground = world.spawn(None);
    let parts = spawn_ragdoll(&mut world, Point { x: 100, y: 200 });
    assert_eq!(parts.len(), 10);
    assert_eq!(parts[0].id, EntityId { index: ground.index + 1 });
    assert_eq!(parts[0].position, Point { x: 100, y: 260 });
    assert_eq!(parts[9].position, Point { x: 110, y: 155 });
    assert_eq!(world.health(parts[1].id), Some(Health { current: 150_000, max: 150_000 }));
    assert!(world.joint(parts[0].id).is_none());
    let joints = parts.iter().filter(|p| world.joint(p.id).is_some()).count();
    assert_eq!(joints, 9);
    assert_eq!(
        world.joint(parts[3].id),
        Some(JointHealth { current: RAGDOLL_JOINT_HEALTH, max: RAGDOLL_JOINT_HEALTH, parent: parts[2].id })
    );
    let blueprint = ragdoll_blueprint();
    assert_eq!(blueprint[1].parent, Some(0));
    assert_eq!(blueprint[1].parent_anchor, Point { x: 0, y: -125 });
}

fn candidates() -> (Vec<Candidate>, Vec<BodyType>) {
    (
        vec![
            Candidate { id: EntityId { index: 1 }, position: Point { x: 40, y: 0 } },
            Candidate { id: EntityId { index: 2 }, position: Point { x: 0, y: 30 } },
        ],
        vec![BodyType::Dynamic, BodyType::Fixed],
    )
}

#[test]
fn drag_picks_nearest_and_restores_body_type() {
    let (c, b) = candidates();
    let mut d = DragState::idle();
    assert!(d.start_drag(true, Some(Point { x: 0, y: 0 }), &c, &b));
    assert_eq!(d.dragging_entity, Some(EntityId { index: 2 }));
    assert_eq!(d.drag_offset, Point { x: 0, y: 30 });
    assert!(!d.start_drag(true, Some(Point { x: 40, y: 0 }), &c, &b));
    assert_eq!(d.drag_target(Some(Point { x: 100, y: 100 })), Some((EntityId { index: 2 }, Point { x: 100, y: 130 })));
    assert_eq!(d.end_drag(false), None);
    assert_eq!(d.end_drag(true), Some((EntityId { index: 2 }, Some(BodyType::Fixed))));
    assert_eq!(d, DragState::idle());
    assert_eq!(d.drag_target(Some(Point { x: 0, y: 0 })), None);
}

#[test]
fn drag_misses_far_bodies() {
    let (c, b) = candidates();
    let mut d = DragState::idle();
    assert!(!d.start_drag(true, Some(Point { x: 500, y: 500 }), &c, &b));
    assert!(!d.start_drag(false, Some(Point { x: 0, y: 0 }), &c, &b));
    assert_eq!(d, DragState::idle());
}

#[test]
fn drag_to_create_lays_out_a_clamped_box() {
    let mut c = CreateDragState::idle();
    assert!(!c.start_create(true, true, true, Some(Point { x: 0, y: 0 })));
    assert!(!c.start_create(true, false, false, Some(Point { x: 0, y: 0 })));
    assert!(c.start_create(true, false, true, Some(Point { x: 10, y: 10 })));
    assert_eq!(c.end_create(false, Point { x: 70, y: 20 }), None);
    assert_eq!(
        c.end_create(true, Point { x: 70, y: 15 }),
        Some(CreateRect { center: Point { x: 40, y: 12 }, size: Point { x: 60, y: 20 } })
    );
    assert_eq!(c, CreateDragState::idle());
    assert_eq!(creation_rect(Point { x: 0, y: 0 }, Point { x: -900, y: 300 }).size, Point { x: 500, y: 300 });
    assert_eq!(box_health(Point { x: 60, y: 60 }), 100_000);
    assert_eq!(box_health(Point { x: 120, y: 60 }), 200_000);
}
