//! Joint damage from kinematic anomalies: relative motion across a joint
//! (stress), sudden changes of a body's velocity (impact), collisions, and
//! explosive impulses. Detection is a pure function of the sampled motion;
//! `apply_joint_hits` then applies the damage to the world.
use vstd::prelude::*;
use crate::fixed::{dist_sq, distance_sq, isqrt, mul_div, mul_div_signed, sqrt_floor, Point, MAX_COORD};
use crate::health::{EntityId, JointOutcome};
use crate::world::{joint_hit, joint_hit_outcome, lemma_never_healed_refl, lemma_never_healed_trans, never_healed, Slot, World};

verus! {

/// Largest angular speed, in milliradians per second.
pub const MAX_SPIN: i64 = 1_000_000_000;

/// Largest mass of a body, in grams.
pub const MAX_BODY_MASS: i64 = 1_000_000_000_000;

/// Stress, in thousandths, above which a joint takes damage.
pub const STRESS_THRESHOLD: i64 = 3000;
/// Stress above which the damage is multiplied.
pub const EXTREME_STRESS: i64 = 15000;
/// Speed change, in world units per second, that counts as an impact.
pub const IMPACT_SPEED_CHANGE: i64 = 200;
/// Spin change, in milliradians per second, that counts as an impact.
pub const IMPACT_SPIN_CHANGE: i64 = 8000;
/// Speed change above which impact damage is multiplied.
pub const HARD_IMPACT: i64 = 500;
/// Downward speed before the impact that makes it a fall.
pub const FALL_SPEED: i64 = 200;
/// Speed above which a collision hurts a joint.
pub const COLLISION_SPEED: i64 = 150;
/// Speed above which a collision earns a bonus.
pub const FAST_COLLISION: i64 = 400;
/// Mass of the other body, in grams, above which a collision is multiplied.
pub const HEAVY_MASS: i64 = 5000;
/// Size of an explosive impulse above which it hurts the joint of its body.
pub const EXPLOSIVE_IMPULSE: i64 = 100;

/// Linear velocity in world units per second and angular velocity in
/// milliradians per second.
#[derive(Clone, Copy, Debug, PartialEq, Eq, Structural)]
pub struct Velocity {
    pub linear: Point,
    pub angular: i64,
}

impl Velocity {
    pub open spec fn wf(&self) -> bool {
        self.linear.in_world() && -MAX_SPIN <= self.angular <= MAX_SPIN
    }
}

pub open spec fn abs(a: int) -> int {
    if a >= 0 { a } else { -a }
}

/// Size of the difference of two linear velocities, rounded down.
pub open spec fn speed_change(a: Point, b: Point) -> int {
    sqrt_floor(dist_sq(a, b))
}

fn speed_change_of(a: Point, b: Point) -> (r: i64)
    requires
        a.in_world(),
        b.in_world(),
    ensures
        r == speed_change(a, b),
        0 <= r <= 3 * MAX_COORD,
{
    let d2 = distance_sq(a, b);
    let d = isqrt(d2);
    proof {
        assert(d <= 3 * MAX_COORD) by (nonlinear_arith)
            requires
                d * d <= d2,
                d2 <= 8 * MAX_COORD * MAX_COORD,
                d >= 0,
        ;
    }
    d as i64
}

/// A damage amount scaled by `min(value / base, cap)`, in thousandths.
pub open spec fn boosted(damage: int, value: int, base: int, cap: int) -> int {
    let m = (value * 1000) / base;
    (damage * (if m > cap { cap } else { m })) / 1000
}

/// Stress on a joint, in thousandths: `0.015 * |Δv| + 0.15 * |Δω|`.
pub open spec fn stress_of(child: Velocity, parent: Velocity) -> int {
    speed_change(child.linear, parent.linear) * 15 + (abs(child.angular - parent.angular) * 3) / 20
}

/// Damage from stress `s`: `0.7` per unit above the threshold, doubled at
/// most for extreme stress; none at or below the threshold.
pub open spec fn stress_damage_of(s: int) -> int {
    if s <= STRESS_THRESHOLD {
        0
    } else if s <= EXTREME_STRESS {
        ((s - STRESS_THRESHOLD) * 7) / 10
    } else {
        boosted(((s - STRESS_THRESHOLD) * 7) / 10, s, EXTREME_STRESS as int, 2000)
    }
}

pub fn joint_stress(child: Velocity, parent: Velocity) -> (r: i64)
    requires
        child.wf(),
        parent.wf(),
    ensures
        r == stress_of(child, parent),
        0 <= r <= 400_000_000,
{
    let dv = speed_change_of(child.linear, parent.linear);
    let dw = child.angular - parent.angular;
    let aw = if dw >= 0 { dw } else { -dw };
    dv * 15 + (aw * 3) / 20
}

pub fn stress_damage(s: i64) -> (r: i64)
    requires
        0 <= s <= 400_000_000,
    ensures
        r == stress_damage_of(s as int),
        r >= 0,
{
    if s <= STRESS_THRESHOLD {
        0
    } else {
        let base = ((s - STRESS_THRESHOLD) * 7) / 10;
        if s <= EXTREME_STRESS {
            base
        } else {
            let m = (s * 1000) / EXTREME_STRESS;
            let k = if m > 2000 { 2000 } else { m };
            proof {
                assert(0 <= base * k <= 400_000_000 * 2000) by (nonlinear_arith)
                    requires
                        0 <= base <= 400_000_000,
                        0 <= k <= 2000,
                ;
            }
            (base * k) / 1000
        }
    }
}

/// A hit on the joint that holds `child`.
#[derive(Clone, Copy, Debug, PartialEq, Eq, Structural)]
pub struct JointHit {
    pub child: EntityId,
    pub damage: i64,
    /// Velocity of the blood thrown should the joint be severed.
    pub blood_velocity: Point,
}

/// Motion sampled at a joint: the child's and the parent's velocity, `None`
/// for a body that is gone.
#[derive(Clone, Copy, Debug, PartialEq, Eq, Structural)]
pub struct JointSample {
    pub child: EntityId,
    pub child_velocity: Option<Velocity>,
    pub parent_velocity: Option<Velocity>,
}

impl JointSample {
    pub open spec fn wf(&self) -> bool {
        &&& (self.child_velocity matches Some(v) ==> v.wf())
        &&& (self.parent_velocity matches Some(v) ==> v.wf())
    }
}

/// Scales each coordinate of `v` by `num / den`, rounding toward zero.
pub open spec fn scaled(v: Point, num: int, den: int) -> Point {
    Point { x: mul_div(v.x as int, num, den) as i64, y: mul_div(v.y as int, num, den) as i64 }
}

fn scale_point(v: Point, num: i64, den: i64) -> (r: Point)
    requires
        v.in_world(),
        0 <= num <= 1000,
        den > 0,
    ensures
        r == scaled(v, num as int, den as int),
{
    proof {
        assert(abs(v.x as int) * num <= MAX_COORD * 1000) by (nonlinear_arith)
            requires
                -MAX_COORD <= v.x <= MAX_COORD,
                0 <= num <= 1000,
        ;
        assert(abs(v.y as int) * num <= MAX_COORD * 1000) by (nonlinear_arith)
            requires
                -MAX_COORD <= v.y <= MAX_COORD,
                0 <= num <= 1000,
        ;
    }
    Point { x: mul_div_signed(v.x, num, den), y: mul_div_signed(v.y, num, den) }
}

/// The stress hit of a sample: only when both bodies are present and the
/// stress is above the threshold. Blood follows 0.3 of the relative velocity.
pub open spec fn stress_hit_of(s: JointSample) -> Option<JointHit> {
    match (s.child_velocity, s.parent_velocity) {
        (Some(c), Some(p)) => {
            let st = stress_of(c, p);
            if st > STRESS_THRESHOLD {
                Some(JointHit {
                    child: s.child,
                    damage: stress_damage_of(st) as i64,
                    blood_velocity: scaled(
                        Point { x: (c.linear.x - p.linear.x) as i64, y: (c.linear.y - p.linear.y) as i64 },
                        3,
                        10,
                    ),
                })
            } else {
                None
            }
        },
        _ => None,
    }
}

/// Stress check of one joint.
pub fn stress_hit(s: &JointSample) -> (r: Option<JointHit>)
    requires
        s.wf(),
    ensures
        r == stress_hit_of(*s),
        r matches Some(h) ==> h.damage >= 0,
{
    match (s.child_velocity, s.parent_velocity) {
        (Some(c), Some(p)) => {
            let st = joint_stress(c, p);
            if st > STRESS_THRESHOLD {
                let rel = Point { x: c.linear.x - p.linear.x, y: c.linear.y - p.linear.y };
                let blood = Point { x: mul_div_signed(rel.x, 3, 10), y: mul_div_signed(rel.y, 3, 10) };
                Some(JointHit { child: s.child, damage: stress_damage(st), blood_velocity: blood })
            } else {
                None
            }
        },
        _ => None,
    }
}

/// Motion of a jointed body this tick and last tick.
#[derive(Clone, Copy, Debug, PartialEq, Eq, Structural)]
pub struct ImpactSample {
    pub body: EntityId,
    pub velocity: Velocity,
    /// Velocity cached at the end of the previous tick, if any.
    pub previous: Option<Velocity>,
}

impl ImpactSample {
    pub open spec fn wf(&self) -> bool {
        self.velocity.wf() && (self.previous matches Some(p) ==> p.wf())
    }
}

/// A fall: the body was moving down faster than `FALL_SPEED` and its speed
/// changed by more than `IMPACT_SPEED_CHANGE`.
pub open spec fn is_fall(v: Velocity, prev: Velocity) -> bool {
    prev.linear.y < -FALL_SPEED && speed_change(v.linear, prev.linear) > IMPACT_SPEED_CHANGE
}

/// Whether the change from `prev` to `v` counts as an impact.
pub open spec fn is_impact(v: Velocity, prev: Velocity) -> bool {
    speed_change(v.linear, prev.linear) > IMPACT_SPEED_CHANGE
        || abs(v.angular - prev.angular) > IMPACT_SPIN_CHANGE
        || is_fall(v, prev)
}

/// Impact damage: `0.05` per unit of speed change and `0.8` per radian per
/// second of spin change, multiplied up to three times for hard impacts,
/// plus `0.08` per unit of vertical speed change for a fall.
pub open spec fn impact_damage_of(v: Velocity, prev: Velocity) -> int {
    let vc = speed_change(v.linear, prev.linear);
    let base = vc * 50 + (abs(v.angular - prev.angular) * 8) / 10;
    let hard = if vc > HARD_IMPACT { boosted(base, vc, HARD_IMPACT as int, 3000) } else { base };
    if is_fall(v, prev) {
        hard + abs(prev.linear.y - v.linear.y) * 80
    } else {
        hard
    }
}

/// The impact hit of a sample: blood follows half the velocity after a hard
/// impact and 0.3 of it otherwise.
pub open spec fn impact_hit_of(s: ImpactSample) -> Option<JointHit> {
    match s.previous {
        Some(prev) => if is_impact(s.velocity, prev) {
            Some(JointHit {
                child: s.body,
                damage: impact_damage_of(s.velocity, prev) as i64,
                blood_velocity: if speed_change(s.velocity.linear, prev.linear) > HARD_IMPACT {
                    scaled(s.velocity.linear, 5, 10)
                } else {
                    scaled(s.velocity.linear, 3, 10)
                },
            })
        } else {
            None
        },
        None => None,
    }
}

/// Impact check of one body against its cached previous velocity.
pub fn impact_hit(s: &ImpactSample) -> (r: Option<JointHit>)
    requires
        s.wf(),
    ensures
        r == impact_hit_of(*s),
        r matches Some(h) ==> h.damage >= 0,
{
    match s.previous {
        None => None,
        Some(prev) => {
            let v = s.velocity;
            let vc = speed_change_of(v.linear, prev.linear);
            let dw = v.angular - prev.angular;
            let ac = if dw >= 0 { dw } else { -dw };
            let falling = prev.linear.y < -FALL_SPEED && vc > IMPACT_SPEED_CHANGE;
            if vc > IMPACT_SPEED_CHANGE || ac > IMPACT_SPIN_CHANGE || falling {
                let base = vc * 50 + (ac * 8) / 10;
                let hard = if vc > HARD_IMPACT {
                    let m = (vc * 1000) / HARD_IMPACT;
                    let k = if m > 3000 { 3000 } else { m };
                    proof {
                        assert(0 <= base * k <= 2_000_000_000 * 3000) by (nonlinear_arith)
                            requires
                                0 <= base <= 2_000_000_000,
                                0 <= k <= 3000,
                        ;
                    }
                    (base * k) / 1000
                } else {
                    base
                };
                let dy = prev.linear.y - v.linear.y;
                let damage = if falling {
                    hard + (if dy >= 0 { dy } else { -dy }) * 80
                } else {
                    hard
                };
                let blood = if vc > HARD_IMPACT {
                    scale_point(v.linear, 5, 10)
                } else {
                    scale_point(v.linear, 3, 10)
                };
                Some(JointHit { child: s.body, damage, blood_velocity: blood })
            } else {
                None
            }
        },
    }
}

/// A collision reported by the physics engine, seen from one jointed body.
#[derive(Clone, Copy, Debug, PartialEq, Eq, Structural)]
pub struct CollisionSample {
    pub body: EntityId,
    /// The body's linear velocity, when it has one.
    pub velocity: Option<Point>,
    /// Mass of the other party in grams, when known.
    pub other_mass: Option<i64>,
}

impl CollisionSample {
    pub open spec fn wf(&self) -> bool {
        &&& (self.velocity matches Some(v) ==> v.in_world())
        &&& (self.other_mass matches Some(m) ==> 0 <= m <= MAX_BODY_MASS)
    }
}

/// Speed of the body in a collision; zero without a velocity.
pub open spec fn collision_speed(s: CollisionSample) -> int {
    match s.velocity {
        Some(v) => speed_change(v, Point { x: 0, y: 0 }),
        None => 0,
    }
}

/// Collision damage at `speed`: `0.08` per unit above `COLLISION_SPEED`,
/// multiplied by up to two and a half when the other body is heavy, plus
/// `0.06` per unit above `FAST_COLLISION`.
pub open spec fn collision_damage_of(speed: int, other_mass: Option<i64>) -> int {
    let base = (speed - COLLISION_SPEED) * 80;
    let heavy = match other_mass {
        Some(m) => if m > HEAVY_MASS { boosted(base, m as int, HEAVY_MASS as int, 2500) } else { base },
        None => base,
    };
    if speed > FAST_COLLISION {
        heavy + (speed - FAST_COLLISION) * 60
    } else {
        heavy
    }
}

/// The collision hit of a sample, when the body moves faster than
/// `COLLISION_SPEED`; blood follows 0.4 of the velocity after a fast
/// collision and 0.2 of it otherwise.
pub open spec fn collision_hit_of(s: CollisionSample) -> Option<JointHit> {
    let speed = collision_speed(s);
    if speed > COLLISION_SPEED {
        let v = match s.velocity { Some(v) => v, None => Point { x: 0, y: 0 } };
        Some(JointHit {
            child: s.body,
            damage: collision_damage_of(speed, s.other_mass) as i64,
            blood_velocity: if speed > FAST_COLLISION { scaled(v, 4, 10) } else { scaled(v, 2, 10) },
        })
    } else {
        None
    }
}

/// Collision check of one body.
pub fn collision_hit(s: &CollisionSample) -> (r: Option<JointHit>)
    requires
        s.wf(),
    ensures
        r == collision_hit_of(*s),
        r matches Some(h) ==> h.damage >= 0,
{
    let v = match s.velocity {
        Some(v) => v,
        None => Point { x: 0, y: 0 },
    };
    let speed: i64 = match s.velocity {
        Some(v) => speed_change_of(v, Point { x: 0, y: 0 }),
        None => 0,
    };
    if speed <= COLLISION_SPEED {
        return None;
    }
    let base = (speed - COLLISION_SPEED) * 80;
    let heavy = match s.other_mass {
        Some(m) => if m > HEAVY_MASS {
            proof {
                assert(0 <= m * 1000 <= MAX_BODY_MASS * 1000);
            }
            let q = (m * 1000) / HEAVY_MASS;
            let k = if q > 2500 { 2500 } else { q };
            proof {
                assert(0 <= base * k <= 240_000_000 * 2500) by (nonlinear_arith)
                    requires
                        0 <= base <= 240_000_000,
                        0 <= k <= 2500,
                ;
            }
            (base * k) / 1000
        } else {
            base
        },
        None => base,
    };
    let damage = if speed > FAST_COLLISION {
        heavy + (speed - FAST_COLLISION) * 60
    } else {
        heavy
    };
    let blood = if speed > FAST_COLLISION {
        scale_point(v, 4, 10)
    } else {
        scale_point(v, 2, 10)
    };
    Some(JointHit { child: s.body, damage, blood_velocity: blood })
}

/// Damage to the joint of a body hit by an explosive impulse of size
/// `impulse`: `0.02` per unit of the whole impulse once it exceeds
/// `EXPLOSIVE_IMPULSE`, none at or below it.
pub open spec fn explosive_joint_damage_of(impulse: int) -> int {
    if impulse > EXPLOSIVE_IMPULSE { impulse * 20 } else { 0 }
}

pub fn explosive_joint_damage(impulse: i64) -> (r: i64)
    requires
        0 <= impulse <= 1_000_000_000_000_000,
    ensures
        r == explosive_joint_damage_of(impulse as int),
        r >= 0,
{
    if impulse > EXPLOSIVE_IMPULSE {
        impulse * 20
    } else {
        0
    }
}

/// The slots after the first `n` hits were applied in order.
pub open spec fn joints_world(s: Seq<Slot>, hits: Seq<Option<JointHit>>, n: int) -> Seq<Slot>
    decreases n,
{
    if n <= 0 {
        s
    } else {
        let prev = joints_world(s, hits, n - 1);
        match hits[n - 1] {
            Some(h) => joint_hit(prev, h.child, h.damage as int),
            None => prev,
        }
    }
}

pub open spec fn hits_wf(hits: Seq<Option<JointHit>>) -> bool {
    forall|i: int| 0 <= i < hits.len() ==> (#[trigger] hits[i] matches Some(h) ==> h.damage >= 0)
}

/// Applies the hits in order to the joints of the world. A severed joint is
/// removed, so a later hit on it in the same tick is skipped; a fractured
/// joint gets its severity recorded. `outcomes[i]` tells what `hits[i]` did.
pub fn apply_joint_hits(world: &mut World, hits: &Vec<Option<JointHit>>) -> (outcomes: Vec<JointOutcome>)
    requires
        old(world).wf(),
        hits_wf(hits@),
    ensures
        final(world).wf(),
        never_healed(old(world).view(), final(world).view()),
        outcomes.len() == hits.len(),
        forall|i: int| 0 <= i < hits.len() ==> #[trigger] outcomes[i] == match hits[i] {
            Some(h) => joint_hit_outcome(joints_world(old(world).view(), hits@, i), h.child, h.damage as int),
            None => JointOutcome::Skipped,
        },
        final(world).view() == joints_world(old(world).view(), hits@, hits.len() as int),
{
    let mut outcomes: Vec<JointOutcome> = Vec::new();
    let mut i: usize = 0;
    proof {
        lemma_never_healed_refl(world.view());
    }
    while i < hits.len()
        invariant
            i <= hits.len(),
            outcomes.len() == i,
            world.wf(),
            hits_wf(hits@),
            forall|k: int| 0 <= k < i ==> #[trigger] outcomes[k] == match hits[k] {
                Some(h) => joint_hit_outcome(joints_world(old(world).view(), hits@, k), h.child, h.damage as int),
                None => JointOutcome::Skipped,
            },
            world.view() == joints_world(old(world).view(), hits@, i as int),
            never_healed(old(world).view(), world.view()),
        decreases hits.len() - i,
    {
        let ghost before = world.view();
        let outcome = match hits[i] {
            Some(h) => {
                assert(hits[i as int] matches Some(h) ==> h.damage >= 0);
                world.damage_joint(h.child, h.damage)
            },
            None => JointOutcome::Skipped,
        };
        proof {
            lemma_never_healed_refl(world.view());
            lemma_never_healed_trans(old(world).view(), before, world.view());
        }
        outcomes.push(outcome);
        i += 1;
    }
    outcomes
}

/// Hits found in a tick and what each did.
pub struct JointDamageReport {
    pub hits: Vec<Option<JointHit>>,
    pub outcomes: Vec<JointOutcome>,
}

/// Stress check of every joint, applied to the world: `hits[i]` is
/// `stress_hit_of(samples[i])`. A joint whose body is gone is skipped.
pub fn check_joint_damage(world: &mut World, samples: &Vec<JointSample>) -> (r: JointDamageReport)
    requires
        old(world).wf(),
        forall|i: int| 0 <= i < samples.len() ==> (#[trigger] samples[i]).wf(),
    ensures
        final(world).wf(),
        never_healed(old(world).view(), final(world).view()),
        r.hits.len() == samples.len(),
        forall|i: int| 0 <= i < samples.len() ==> #[trigger] r.hits[i] == stress_hit_of(samples[i]),
        r.outcomes.len() == samples.len(),
        forall|i: int| 0 <= i < samples.len() ==> #[trigger] r.outcomes[i] == match r.hits[i] {
            Some(h) => joint_hit_outcome(joints_world(old(world).view(), r.hits@, i), h.child, h.damage as int),
            None => JointOutcome::Skipped,
        },
        final(world).view() == joints_world(old(world).view(), r.hits@, samples.len() as int),
{
    let mut hits: Vec<Option<JointHit>> = Vec::new();
    let mut i: usize = 0;
    while i < samples.len()
        invariant
            i <= samples.len(),
            hits.len() == i,
            forall|k: int| 0 <= k < samples.len() ==> (#[trigger] samples[k]).wf(),
            forall|k: int| 0 <= k < i ==> #[trigger] hits[k] == stress_hit_of(samples[k]),
            hits_wf(hits@),
        decreases samples.len() - i,
    {
        let h = stress_hit(&samples[i]);
        hits.push(h);
        i += 1;
    }
    let outcomes = apply_joint_hits(world, &hits);
    JointDamageReport { hits, outcomes }
}

/// Impact check of every body against its cached previous velocity,
/// applied to the world: `hits[i]` is `impact_hit_of(samples[i])`.
pub fn detect_impact_damage(world: &mut World, samples: &Vec<ImpactSample>) -> (r: JointDamageReport)
    requires
        old(world).wf(),
        forall|i: int| 0 <= i < samples.len() ==> (#[trigger] samples[i]).wf(),
    ensures
        final(world).wf(),
        never_healed(old(world).view(), final(world).view()),
        r.hits.len() == samples.len(),
        forall|i: int| 0 <= i < samples.len() ==> #[trigger] r.hits[i] == impact_hit_of(samples[i]),
        r.outcomes.len() == samples.len(),
        forall|i: int| 0 <= i < samples.len() ==> #[trigger] r.outcomes[i] == match r.hits[i] {
            Some(h) => joint_hit_outcome(joints_world(old(world).view(), r.hits@, i), h.child, h.damage as int),
            None => JointOutcome::Skipped,
        },
        final(world).view() == joints_world(old(world).view(), r.hits@, samples.len() as int),
{
    let mut hits: Vec<Option<JointHit>> = Vec::new();
    let mut i: usize = 0;
    while i < samples.len()
        invariant
            i <= samples.len(),
            hits.len() == i,
            forall|k: int| 0 <= k < samples.len() ==> (#[trigger] samples[k]).wf(),
            forall|k: int| 0 <= k < i ==> #[trigger] hits[k] == impact_hit_of(samples[k]),
            hits_wf(hits@),
        decreases samples.len() - i,
    {
        let h = impact_hit(&samples[i]);
        hits.push(h);
        i += 1;
    }
    let outcomes = apply_joint_hits(world, &hits);
    JointDamageReport { hits, outcomes }
}

/// Collision check of every jointed body named in this tick's
/// collision-start events, applied to the world: `hits[i]` is
/// `collision_hit_of(samples[i])`.
pub fn collision_joint_damage(world: &mut World, samples: &Vec<CollisionSample>) -> (r: JointDamageReport)
    requires
        old(world).wf(),
        forall|i: int| 0 <= i < samples.len() ==> (#[trigger] samples[i]).wf(),
    ensures
        final(world).wf(),
        never_healed(old(world).view(), final(world).view()),
        r.hits.len() == samples.len(),
        forall|i: int| 0 <= i < samples.len() ==> #[trigger] r.hits[i] == collision_hit_of(samples[i]),
        r.outcomes.len() == samples.len(),
        forall|i: int| 0 <= i < samples.len() ==> #[trigger] r.outcomes[i] == match r.hits[i] {
            Some(h) => joint_hit_outcome(joints_world(old(world).view(), r.hits@, i), h.child, h.damage as int),
            None => JointOutcome::Skipped,
        },
        final(world).view() == joints_world(old(world).view(), r.hits@, samples.len() as int),
{
    let mut hits: Vec<Option<JointHit>> = Vec::new();
    let mut i: usize = 0;
    while i < samples.len()
        invariant
            i <= samples.len(),
            hits.len() == i,
            forall|k: int| 0 <= k < samples.len() ==> (#[trigger] samples[k]).wf(),
            forall|k: int| 0 <= k < i ==> #[trigger] hits[k] == collision_hit_of(samples[k]),
            hits_wf(hits@),
        decreases samples.len() - i,
    {
        let h = collision_hit(&samples[i]);
        hits.push(h);
        i += 1;
    }
    let outcomes = apply_joint_hits(world, &hits);
    JointDamageReport { hits, outcomes }
}

/// An explosive impulse handed to a jointed ragdoll part this tick.
#[derive(Clone, Copy, Debug, PartialEq, Eq, Structural)]
pub struct ExplosiveSample {
    pub body: EntityId,
    pub impulse: Point,
}

/// The hit of an explosive impulse on the joint of its own body.
pub open spec fn explosive_hit_of(s: ExplosiveSample) -> Option<JointHit> {
    let size = speed_change(s.impulse, Point { x: 0, y: 0 });
    if size > EXPLOSIVE_IMPULSE {
        Some(JointHit {
            child: s.body,
            damage: explosive_joint_damage_of(size) as i64,
            blood_velocity: Point { x: 0, y: 0 },
        })
    } else {
        None
    }
}

/// Joint damage from this tick's explosive impulses, applied to the world:
/// `hits[i]` is `explosive_hit_of(samples[i])`.
pub fn apply_explosive_joint_damage(world: &mut World, samples: &Vec<ExplosiveSample>) -> (r: JointDamageReport)
    requires
        old(world).wf(),
        forall|i: int| 0 <= i < samples.len() ==> (#[trigger] samples[i]).impulse.in_world(),
    ensures
        final(world).wf(),
        never_healed(old(world).view(), final(world).view()),
        r.hits.len() == samples.len(),
        forall|i: int| 0 <= i < samples.len() ==> #[trigger] r.hits[i] == explosive_hit_of(samples[i]),
        r.outcomes.len() == samples.len(),
        forall|i: int| 0 <= i < samples.len() ==> #[trigger] r.outcomes[i] == match r.hits[i] {
            Some(h) => joint_hit_outcome(joints_world(old(world).view(), r.hits@, i), h.child, h.damage as int),
            None => JointOutcome::Skipped,
        },
        final(world).view() == joints_world(old(world).view(), r.hits@, samples.len() as int),
{
    let mut hits: Vec<Option<JointHit>> = Vec::new();
    let mut i: usize = 0;
    while i < samples.len()
        invariant
            i <= samples.len(),
            hits.len() == i,
            forall|k: int| 0 <= k < samples.len() ==> (#[trigger] samples[k]).impulse.in_world(),
            forall|k: int| 0 <= k < i ==> #[trigger] hits[k] == explosive_hit_of(samples[k]),
            hits_wf(hits@),
        decreases samples.len() - i,
    {
        let s = samples[i];
        let size = speed_change_of(s.impulse, Point { x: 0, y: 0 });
        let h = if size > EXPLOSIVE_IMPULSE {
            Some(JointHit { child: s.body, damage: explosive_joint_damage(size), blood_velocity: Point { x: 0, y: 0 } })
        } else {
            None
        };
        hits.push(h);
        i += 1;
    }
    let outcomes = apply_joint_hits(world, &hits);
    JointDamageReport { hits, outcomes }
}

} // verus!
