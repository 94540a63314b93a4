//! The ragdoll: ten body parts, each with its own health, held together by
//! nine joints that each have a health of their own.
use vstd::prelude::*;
use crate::fixed::{Point, MAX_COORD};
use crate::health::{EntityId, Health, JointHealth};
use crate::world::{Slot, World};

verus! {

/// Health of every ragdoll joint, in milli-hit-points.
pub const RAGDOLL_JOINT_HEALTH: i64 = 100_000;

/// Number of parts of a ragdoll.
pub const RAGDOLL_PARTS: usize = 10;

/// How far from the spawn point a part may sit, in world units.
pub const RAGDOLL_REACH: i64 = 100;

/// One part of the ragdoll and the hinge that holds it to its parent part.
#[derive(Clone, Copy, Debug, PartialEq, Eq, Structural)]
pub struct PartSpec {
    /// Centre relative to the spawn point, in world units.
    pub offset: Point,
    /// Width and height, in world units.
    pub size: Point,
    /// In milli-hit-points.
    pub health: i64,
    /// Index of the part this one hangs from; `None` for the head.
    pub parent: Option<usize>,
    /// Hinge point on the parent and on this part, in tenths of a world unit.
    pub parent_anchor: Point,
    pub child_anchor: Point,
    /// Rotation limits of the hinge, in milliradians.
    pub min_angle: i64,
    pub max_angle: i64,
}

pub open spec fn part(offset: (int, int), size: (int, int), health: int, parent: Option<usize>,
    parent_anchor: (int, int), child_anchor: (int, int), limits: (int, int)) -> PartSpec {
    PartSpec {
        offset: Point { x: offset.0 as i64, y: offset.1 as i64 },
        size: Point { x: size.0 as i64, y: size.1 as i64 },
        health: health as i64,
        parent,
        parent_anchor: Point { x: parent_anchor.0 as i64, y: parent_anchor.1 as i64 },
        child_anchor: Point { x: child_anchor.0 as i64, y: child_anchor.1 as i64 },
        min_angle: limits.0 as i64,
        max_angle: limits.1 as i64,
    }
}

/// The parts in spawn order: head, torso, left upper and lower arm, right
/// upper and lower arm, left upper and lower leg, right upper and lower leg.
/// The torso hangs from the head; limbs hang from the torso, and each lower
/// limb from its upper limb.
pub open spec fn ragdoll_part(k: int) -> PartSpec {
    if k == 0 {
        part((0, 60), (20, 25), 100_000, None, (0, 0), (0, 0), (0, 0))
    } else if k == 1 {
        part((0, 20), (30, 40), 150_000, Some(0), (0, -125), (0, 200), (-500, 500))
    } else if k == 2 {
        part((-25, 15), (10, 25), 80_000, Some(1), (-150, 160), (0, 125), (-2000, 2000))
    } else if k == 3 {
        part((-25, -10), (8, 20), 70_000, Some(2), (0, -125), (0, 100), (0, 2500))
    } else if k == 4 {
        part((25, 15), (10, 25), 80_000, Some(1), (150, 160), (0, 125), (-2000, 2000))
    } else if k == 5 {
        part((25, -10), (8, 20), 70_000, Some(4), (0, -125), (0, 100), (0, 2500))
    } else if k == 6 {
        part((-10, -15), (12, 30), 90_000, Some(1), (-80, -200), (0, 150), (-1500, 1000))
    } else if k == 7 {
        part((-10, -45), (10, 28), 80_000, Some(6), (0, -150), (0, 140), (-2500, 0))
    } else if k == 8 {
        part((10, -15), (12, 30), 90_000, Some(1), (80, -200), (0, 150), (-1500, 1000))
    } else {
        part((10, -45), (10, 28), 80_000, Some(8), (0, -150), (0, 140), (-2500, 0))
    }
}

fn make_part(offset: (i64, i64), size: (i64, i64), health: i64, parent: Option<usize>,
    parent_anchor: (i64, i64), child_anchor: (i64, i64), limits: (i64, i64)) -> (r: PartSpec)
    ensures
        r == part(
            (offset.0 as int, offset.1 as int),
            (size.0 as int, size.1 as int),
            health as int,
            parent,
            (parent_anchor.0 as int, parent_anchor.1 as int),
            (child_anchor.0 as int, child_anchor.1 as int),
            (limits.0 as int, limits.1 as int),
        ),
{
    PartSpec {
        offset: Point { x: offset.0, y: offset.1 },
        size: Point { x: size.0, y: size.1 },
        health,
        parent,
        parent_anchor: Point { x: parent_anchor.0, y: parent_anchor.1 },
        child_anchor: Point { x: child_anchor.0, y: child_anchor.1 },
        min_angle: limits.0,
        max_angle: limits.1,
    }
}

/// The ragdoll's parts, in spawn order.
pub fn ragdoll_blueprint() -> (r: Vec<PartSpec>)
    ensures
        r.len() == RAGDOLL_PARTS,
        forall|k: int| 0 <= k < RAGDOLL_PARTS ==> #[trigger] r[k] == ragdoll_part(k),
{
    let r = vec![
        make_part((0, 60), (20, 25), 100_000, None, (0, 0), (0, 0), (0, 0)),
        make_part((0, 20), (30, 40), 150_000, Some(0), (0, -125), (0, 200), (-500, 500)),
        make_part((-25, 15), (10, 25), 80_000, Some(1), (-150, 160), (0, 125), (-2000, 2000)),
        make_part((-25, -10), (8, 20), 70_000, Some(2), (0, -125), (0, 100), (0, 2500)),
        make_part((25, 15), (10, 25), 80_000, Some(1), (150, 160), (0, 125), (-2000, 2000)),
        make_part((25, -10), (8, 20), 70_000, Some(4), (0, -125), (0, 100), (0, 2500)),
        make_part((-10, -15), (12, 30), 90_000, Some(1), (-80, -200), (0, 150), (-1500, 1000)),
        make_part((-10, -45), (10, 28), 80_000, Some(6), (0, -150), (0, 140), (-2500, 0)),
        make_part((10, -15), (12, 30), 90_000, Some(1), (80, -200), (0, 150), (-1500, 1000)),
        make_part((10, -45), (10, 28), 80_000, Some(8), (0, -150), (0, 140), (-2500, 0)),
    ];
    r
}

/// The slot of part `k` of a ragdoll whose head was spawned at index `base`.
pub open spec fn ragdoll_slot(base: int, k: int) -> Slot {
    let p = ragdoll_part(k);
    Slot {
        alive: true,
        health: Some(Health { current: p.health, max: p.health }),
        joint: match p.parent {
            Some(q) => Some(JointHealth {
                current: RAGDOLL_JOINT_HEALTH,
                max: RAGDOLL_JOINT_HEALTH,
                parent: EntityId { index: (base + q) as u32 },
            }),
            None => None,
        },
        fracture: None,
    }
}

/// A part as spawned: its handle and its position in the world.
#[derive(Clone, Copy, Debug, PartialEq, Eq, Structural)]
pub struct SpawnedPart {
    pub id: EntityId,
    pub position: Point,
    pub spec: PartSpec,
}

/// Spawns a ragdoll around `position`: ten parts at full health, each but
/// the head held by a joint of full health to its parent part. The bodies
/// are appended to the world in spawn order.
pub fn spawn_ragdoll(world: &mut World, position: Point) -> (parts: Vec<SpawnedPart>)
    requires
        old(world).wf(),
        old(world).view().len() + RAGDOLL_PARTS < u32::MAX,
        -MAX_COORD + RAGDOLL_REACH <= position.x <= MAX_COORD - RAGDOLL_REACH,
        -MAX_COORD + RAGDOLL_REACH <= position.y <= MAX_COORD - RAGDOLL_REACH,
    ensures
        final(world).wf(),
        parts.len() == RAGDOLL_PARTS,
        final(world).view() == old(world).view() + Seq::new(
            RAGDOLL_PARTS as nat,
            |k: int| ragdoll_slot(old(world).view().len() as int, k),
        ),
        forall|k: int| 0 <= k < RAGDOLL_PARTS ==> {
            let p = #[trigger] parts[k];
            &&& p.id.index == old(world).view().len() + k
            &&& p.spec == ragdoll_part(k)
            &&& p.position == (Point {
                x: (position.x + ragdoll_part(k).offset.x) as i64,
                y: (position.y + ragdoll_part(k).offset.y) as i64,
            })
        },
{
    let blueprint = ragdoll_blueprint();
    let base = world.slots.len();
    let ghost start = world.view();
    let mut parts: Vec<SpawnedPart> = Vec::new();
    let mut k: usize = 0;
    while k < RAGDOLL_PARTS
        invariant
            k <= RAGDOLL_PARTS,
            base == start.len(),
            base + RAGDOLL_PARTS < u32::MAX,
            blueprint.len() == RAGDOLL_PARTS,
            forall|j: int| 0 <= j < RAGDOLL_PARTS ==> #[trigger] blueprint[j] == ragdoll_part(j),
            world.wf(),
            parts.len() == k,
            world.view() == start + Seq::new(k as nat, |j: int| ragdoll_slot(base as int, j)),
            forall|j: int| 0 <= j < k ==> {
                let p = #[trigger] parts[j];
                &&& p.id.index == base + j
                &&& p.spec == ragdoll_part(j)
                &&& p.position == (Point {
                    x: (position.x + ragdoll_part(j).offset.x) as i64,
                    y: (position.y + ragdoll_part(j).offset.y) as i64,
                })
            },
            -MAX_COORD + RAGDOLL_REACH <= position.x <= MAX_COORD - RAGDOLL_REACH,
            -MAX_COORD + RAGDOLL_REACH <= position.y <= MAX_COORD - RAGDOLL_REACH,
        decreases RAGDOLL_PARTS - k,
    {
        let spec = blueprint[k];
        proof {
            assert(spec == ragdoll_part(k as int));
        }
        let health = Health::new(spec.health);
        let id = world.spawn(Some(health));
        match spec.parent {
            Some(q) => {
                let parent = EntityId { index: (base + q) as u32 };
                world.attach_joint(id, parent, RAGDOLL_JOINT_HEALTH);
            },
            None => {},
        }
        proof {
            assert(world.view() =~= start + Seq::new((k + 1) as nat, |j: int| ragdoll_slot(base as int, j)));
        }
        parts.push(SpawnedPart {
            id,
            position: Point { x: position.x + spec.offset.x, y: position.y + spec.offset.y },
            spec,
        });
        k += 1;
    }
    parts
}

} // verus!
