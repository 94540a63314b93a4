use ragdoll_sandbox::connection::{
    break_check, raised_damping, Connection, ConnectionMaterial, ConstraintType,
    DragConnectionState, ModeChange, ObjectType, SelectionState,
};
use ragdoll_sandbox::fixed::Point;
use ragdoll_sandbox::health::{EntityId, Health};
use ragdoll_sandbox::world::World;

fn enabled(material: ConnectionMaterial, kind: ConstraintType) -> SelectionState {
    SelectionState { constraint_type: kind, material, is_enabled: true }
}

#[test]
fn material_table() {
    assert_eq!(ConnectionMaterial::default(), ConnectionMaterial::Metal);
    assert_eq!(ConnectionMaterial::Metal.compliance(), 10);
    assert_eq!(ConnectionMaterial::Rope.compliance(), 1000);
    assert_eq!(ConnectionMaterial::Rope.damping(), 2000);
    assert_eq!(ConnectionMaterial::Wood.thickness(), 4000);
    assert_eq!(ConnectionMaterial::Plastic.color().blue, 900);
    assert!(ConnectionMaterial::Metal.break_force() > ConnectionMaterial::Wood.break_force());
    assert!(ConnectionMaterial::Rope.break_force() < ConnectionMaterial::Plastic.break_force());
    assert_eq!(raised_damping((500, 200), ConnectionMaterial::Rope.extra_damping()), (600, 1500));
    let s = SelectionState::default();
    assert!(!s.is_enabled);
    assert_eq!(s.material, ConnectionMaterial::Metal);
}

fn drag(selection: &SelectionState) -> DragConnectionState {
    let mut d = DragConnectionState::default();
    assert!(d.start_drag_connection(selection, false, true, Some(Point { x: 0, y: 0 }), Some(EntityId { index: 1 })));
    d
}

#[test]
fn drag_between_two_bodies_plans_a_connection() {
    let sel = enabled(ConnectionMaterial::Metal, ConstraintType::Hinge);
    let mut d = drag(&sel);
    assert!(d.is_dragging);
    let plan = d
        .end_drag_connection(
            &sel,
            true,
            Some(Point { x: 100, y: 0 }),
            Some(EntityId { index: 2 }),
            Some(Point { x: -10, y: 0 }),
            Some(Point { x: 110, y: 0 }),
        )
        .unwrap();
    assert_eq!(d, DragConnectionState::default());
    assert_eq!(plan.start, EntityId { index: 1 });
    assert_eq!(plan.end, EntityId { index: 2 });
    assert_eq!(plan.kind, ConstraintType::Hinge);
    assert_eq!(plan.connector_center, Point { x: 50, y: 0 });
    assert_eq!(plan.connector_length, 100);
    assert_eq!(plan.anchor_on_start, Point { x: 10, y: 0 });
    assert_eq!(plan.anchor_on_end, Point { x: -10, y: 0 });
    assert_eq!(plan.anchor_on_connector_start, Point { x: -50, y: 0 });
    assert_eq!(plan.anchor_on_connector_end, Point { x: 50, y: 0 });
    assert_eq!(plan.connector_health, 400_000);
    let c = Connection::from_plan(&plan);
    assert_eq!(c.break_force, 50_000);
}

#[test]
fn release_on_same_body_or_empty_space_cancels() {
    let sel = enabled(ConnectionMaterial::Wood, ConstraintType::Fixed);
    let mut d = drag(&sel);
    let p = Some(Point { x: 0, y: 0 });
    assert!(d.end_drag_connection(&sel, true, p, Some(EntityId { index: 1 }), p, p).is_none());
    assert!(!d.is_dragging);
    let mut d = drag(&sel);
    assert!(d.end_drag_connection(&sel, true, p, None, p, None).is_none());
    assert_eq!(d, DragConnectionState::default());
    let mut d = drag(&sel);
    assert!(d.end_drag_connection(&sel, false, p, Some(EntityId { index: 2 }), p, p).is_none());
    assert!(d.is_dragging);
}

#[test]
fn drag_needs_connect_mode_and_a_body() {
    let mut d = DragConnectionState::default();
    let off = SelectionState::default();
    assert!(!d.start_drag_connection(&off, false, true, Some(Point { x: 0, y: 0 }), Some(EntityId { index: 1 })));
    let on = enabled(ConnectionMaterial::Rope, ConstraintType::Fixed);
    assert!(!d.start_drag_connection(&on, true, true, Some(Point { x: 0, y: 0 }), Some(EntityId { index: 1 })));
    assert!(!d.start_drag_connection(&on, false, true, Some(Point { x: 0, y: 0 }), None));
    assert!(!d.start_drag_connection(&on, false, true, None, Some(EntityId { index: 1 })));
    assert_eq!(d, DragConnectionState::default());
}

fn joined(world: &mut World, material: ConnectionMaterial) -> Connection {
    let a = world.spawn(Some(Health::new(1000)));
    let b = world.spawn(Some(Health::new(1000)));
    Connection {
        a,
        b,
        anchor_a: Point { x: 0, y: 0 },
        anchor_b: Point { x: 0, y: 0 },
        kind: ConstraintType::Fixed,
        material,
        break_force: material.break_force(),
        current_force: 0,
    }
}

#[test]
fn break_threshold_is_strict() {
    let mut world = World::new();
    let c = joined(&mut world, ConnectionMaterial::Wood);
    let f = c.break_force;
    let mut cs = vec![c];
    assert!(break_check(&mut cs, &vec![f - 1], &world).is_empty());
    assert!(break_check(&mut cs, &vec![f], &world).is_empty());
    assert_eq!(cs[0].current_force, f);
    let removed = break_check(&mut cs, &vec![f + 1], &world);
    assert_eq!(removed, vec![0]);
    assert!(cs.is_empty());
}

#[test]
fn metal_holds_where_rope_breaks() {
    let mut world = World::new();
    let metal = joined(&mut world, ConnectionMaterial::Metal);
    let rope = joined(&mut world, ConnectionMaterial::Rope);
    let mut cs = vec![metal, rope];
    let mut rope_broke_at = None;
    for tick in 0..100 {
        let forces = vec![2000; cs.len()];
        let before = cs.clone();
        let removed = break_check(&mut cs, &forces, &world);
        if removed.iter().any(|i| before[*i].material == ConnectionMaterial::Rope) {
            rope_broke_at = Some(tick);
        }
    }
    assert_eq!(rope_broke_at, Some(0));
    assert_eq!(cs.len(), 1);
    assert_eq!(cs[0].material, ConnectionMaterial::Metal);
}

#[test]
fn orphaned_connection_is_removed() {
    let mut world = World::new();
    let c = joined(&mut world, ConnectionMaterial::Plastic);
    world.despawn(c.b);
    let mut cs = vec![c];
    let removed = break_check(&mut cs, &vec![0], &world);
    assert_eq!(removed, vec![0]);
    assert!(cs.is_empty());
}

#[test]
fn toolbar_choice_drives_connect_mode() {
    let mut s = SelectionState::default();
    assert_eq!(s.select(ObjectType::MaterialRope), ModeChange::Unchanged);
    assert!(!s.is_enabled);
    assert_eq!(s.material, ConnectionMaterial::Rope);
    assert_eq!(s.select(ObjectType::HingeConstraint), ModeChange::Enabled);
    assert_eq!(s.constraint_type, ConstraintType::Hinge);
    assert_eq!(s.select(ObjectType::MaterialWood), ModeChange::Unchanged);
    assert!(s.is_enabled);
    assert_eq!(s.select(ObjectType::Bomb), ModeChange::Disabled);
    assert!(!s.is_enabled);
    assert_eq!(s.material, ConnectionMaterial::Wood);
}
