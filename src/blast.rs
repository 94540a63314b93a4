//! Point explosions: a one-shot radial push with linear falloff.
use vstd::prelude::*;
use vstd::arithmetic::div_mod::lemma_fundamental_div_mod_converse;
use crate::fixed::{is_sqrt_of, lemma_sqrt_floor_is, dist_sq, distance_sq, isqrt, mul_div, mul_div_signed, sqrt_floor, Point, MAX_COORD};
use crate::health::EntityId;
use crate::world::{body_hit, body_hit_outcome, lemma_never_healed_refl, lemma_never_healed_trans, never_healed, BodyOutcome, World};

verus! {

/// Largest radius of an explosion or a shockwave, in world units.
pub const MAX_RADIUS: i64 = 1_000_000;

/// Largest force of an explosion.
pub const MAX_FORCE: i64 = 1_000_000_000_000;

/// Bound of the random spin an explosion gives a body at its centre.
pub const TORQUE_SPREAD: i64 = 5000;

/// Damage per unit of explosion strength, in milli-hit-points.
pub const EXPLOSION_DAMAGE_PER_STRENGTH: i64 = 2;

/// Radius of a bomb's explosion, in world units.
pub const EXPLOSION_RADIUS: i64 = 400;

/// Force of a bomb's explosion.
pub const EXPLOSION_FORCE: i64 = 150_000;

/// Fuse of a bomb, in milliseconds.
pub const BOMB_FUSE_MS: u64 = 2000;

/// A lit bomb.
#[derive(Clone, Copy, Debug, PartialEq, Eq, Structural)]
pub struct Bomb {
    pub fuse_ms: u64,
    pub elapsed_ms: u64,
}

impl Bomb {
    pub open spec fn wf(&self) -> bool {
        self.elapsed_ms <= self.fuse_ms
    }

    /// A bomb with the default fuse.
    pub fn new() -> (b: Bomb)
        ensures
            b.fuse_ms == BOMB_FUSE_MS,
            b.elapsed_ms == 0,
            b.wf(),
    {
        Bomb { fuse_ms: BOMB_FUSE_MS, elapsed_ms: 0 }
    }

    /// Runs the fuse for `dt_ms`; returns whether it burnt out on this tick,
    /// when the bomb is to be replaced by an explosion.
    pub fn tick(&mut self, dt_ms: u64) -> (detonates: bool)
        requires
            old(self).wf(),
        ensures
            final(self).wf(),
            final(self).fuse_ms == old(self).fuse_ms,
            final(self).elapsed_ms == (if old(self).elapsed_ms + dt_ms >= old(self).fuse_ms {
                old(self).fuse_ms as int
            } else {
                old(self).elapsed_ms + dt_ms
            }),
            detonates == (old(self).elapsed_ms < old(self).fuse_ms
                && old(self).elapsed_ms + dt_ms >= old(self).fuse_ms),
    {
        let was_running = self.elapsed_ms < self.fuse_ms;
        if self.fuse_ms - self.elapsed_ms <= dt_ms {
            self.elapsed_ms = self.fuse_ms;
            was_running
        } else {
            self.elapsed_ms = self.elapsed_ms + dt_ms;
            false
        }
    }
}

/// The explosion of a bomb at `position`.
pub fn detonate(position: Point) -> (e: Explosion)
    requires
        position.in_world(),
    ensures
        e == (Explosion { position, radius: EXPLOSION_RADIUS, force: EXPLOSION_FORCE }),
        e.wf(),
{
    Explosion { position, radius: EXPLOSION_RADIUS, force: EXPLOSION_FORCE }
}

/// A one-shot explosion, consumed after the tick in which it is applied.
#[derive(Clone, Copy, Debug, PartialEq, Eq, Structural)]
pub struct Explosion {
    pub position: Point,
    pub radius: i64,
    pub force: i64,
}

impl Explosion {
    pub open spec fn wf(&self) -> bool {
        &&& self.position.in_world()
        &&& 0 < self.radius <= MAX_RADIUS
        &&& 0 <= self.force <= MAX_FORCE
    }
}

/// A body of the world as an explosion or a shockwave sees it.
#[derive(Clone, Copy, Debug, PartialEq, Eq, Structural)]
pub enum BodyKind {
    RagdollPart,
    WoodenBox,
    Other,
}

/// Only ragdoll parts and wooden boxes take blast damage.
pub open spec fn takes_blast_damage(kind: BodyKind) -> bool {
    kind is RagdollPart || kind is WoodenBox
}

pub fn is_blast_damageable(kind: BodyKind) -> (r: bool)
    ensures
        r == takes_blast_damage(kind),
{
    match kind {
        BodyKind::RagdollPart => true,
        BodyKind::WoodenBox => true,
        BodyKind::Other => false,
    }
}

/// Linear and angular impulse handed to one body.
#[derive(Clone, Copy, Debug, PartialEq, Eq, Structural)]
pub struct RadialImpulse {
    pub impulse: Point,
    pub torque: i64,
    /// Size of the linear push: `(1 - distance / radius) * force`.
    pub strength: i64,
}

/// A body strictly inside the radius and not on the centre is pushed.
pub open spec fn within_blast(d2: int, radius: int) -> bool {
    0 < d2 && d2 < radius * radius
}

/// `(1 - distance / radius) * force`, with the distance rounded down.
pub open spec fn falloff_strength(d2: int, radius: int, force: int) -> int {
    if within_blast(d2, radius) {
        (force * (radius - sqrt_floor(d2))) / radius
    } else {
        0
    }
}

/// The impulse that an explosion at `center` gives a body at `body`: along the
/// direction from the centre to the body, of size `falloff_strength`, and a
/// spin of `torque_roll` scaled by the same falloff.
pub open spec fn radial_impulse_of(
    body: Point,
    center: Point,
    radius: int,
    force: int,
    torque_roll: int,
) -> RadialImpulse {
    let d2 = dist_sq(body, center);
    if within_blast(d2, radius) {
        let d = sqrt_floor(d2);
        let s = falloff_strength(d2, radius, force);
        RadialImpulse {
            impulse: Point {
                x: mul_div(body.x - center.x, s, d) as i64,
                y: mul_div(body.y - center.y, s, d) as i64,
            },
            torque: mul_div(torque_roll, radius - d, radius) as i64,
            strength: s as i64,
        }
    } else {
        RadialImpulse { impulse: Point { x: 0, y: 0 }, torque: 0, strength: 0 }
    }
}

/// The push of an explosion of `force` and `radius` at `center` on a body at
/// `body`; `torque_roll` is the random spin drawn for it, within
/// `TORQUE_SPREAD`. A body outside the radius, or on the centre, gets nothing.
pub fn apply_radial_impulse(
    body: Point,
    center: Point,
    radius: i64,
    force: i64,
    torque_roll: i64,
) -> (r: RadialImpulse)
    requires
        body.in_world(),
        center.in_world(),
        0 < radius <= MAX_RADIUS,
        0 <= force <= MAX_FORCE,
        -TORQUE_SPREAD <= torque_roll <= TORQUE_SPREAD,
    ensures
        r == radial_impulse_of(body, center, radius as int, force as int, torque_roll as int),
        0 <= r.strength <= force,
{
    let d2 = distance_sq(body, center);
    proof {
        assert(radius * radius <= MAX_RADIUS * MAX_RADIUS) by (nonlinear_arith)
            requires
                0 < radius <= MAX_RADIUS,
        ;
    }
    let r2: u64 = (radius as u64) * (radius as u64);
    if d2 > 0 && d2 < r2 {
        let d = isqrt(d2);
        proof {
            assert(d * d <= d2 < (d + 1) * (d + 1));
            assert(d >= 1) by (nonlinear_arith)
                requires
                    d2 > 0,
                    d2 < (d + 1) * (d + 1),
                    d >= 0,
            ;
            assert(d < radius) by (nonlinear_arith)
                requires
                    d * d <= d2,
                    d2 < radius * radius,
                    d >= 0,
                    radius > 0,
            ;
            assert(0 <= force * (radius - d) <= force * radius) by (nonlinear_arith)
                requires
                    0 <= force,
                    0 < radius - d <= radius,
            ;
            assert(force * radius <= MAX_FORCE * MAX_RADIUS) by (nonlinear_arith)
                requires
                    0 <= force <= MAX_FORCE,
                    0 < radius <= MAX_RADIUS,
            ;
            assert((force * (radius - d)) / (radius as int) <= force) by (nonlinear_arith)
                requires
                    0 <= force * (radius - d) <= force * radius,
                    radius > 0,
            ;
        }
        let d = d as i64;
        let strength = (force * (radius - d)) / radius;
        proof {
            assert(0 <= strength);
            let dx = body.x - center.x;
            let dy = body.y - center.y;
            assert((if dx >= 0 { dx as int } else { -dx }) * strength <= 2 * MAX_COORD * MAX_FORCE) by (nonlinear_arith)
                requires
                    -2 * MAX_COORD <= dx <= 2 * MAX_COORD,
                    0 <= strength <= MAX_FORCE,
            ;
            assert((if dy >= 0 { dy as int } else { -dy }) * strength <= 2 * MAX_COORD * MAX_FORCE) by (nonlinear_arith)
                requires
                    -2 * MAX_COORD <= dy <= 2 * MAX_COORD,
                    0 <= strength <= MAX_FORCE,
            ;
            assert((if torque_roll >= 0 { torque_roll as int } else { -torque_roll }) * (radius - d) <= TORQUE_SPREAD * MAX_RADIUS) by (nonlinear_arith)
                requires
                    -TORQUE_SPREAD <= torque_roll <= TORQUE_SPREAD,
                    0 < radius - d <= MAX_RADIUS,
            ;
        }
        let ix = mul_div_signed(body.x - center.x, strength, d);
        let iy = mul_div_signed(body.y - center.y, strength, d);
        let torque = mul_div_signed(torque_roll, radius - d, radius);
        RadialImpulse { impulse: Point { x: ix, y: iy }, torque, strength }
    } else {
        RadialImpulse { impulse: Point { x: 0, y: 0 }, torque: 0, strength: 0 }
    }
}

/// A body at half the radius of an explosion (of even radius, so that half
/// the radius is a whole distance) is pushed with half the force, along the
/// direction from the centre to the body.
pub proof fn lemma_half_radius_push(body: Point, center: Point, radius: int, force: int, torque_roll: int)
    requires
        radius > 0,
        radius % 2 == 0,
        0 <= force <= MAX_FORCE,
        dist_sq(body, center) == (radius / 2) * (radius / 2),
    ensures
        radial_impulse_of(body, center, radius, force, torque_roll).strength == force / 2,
        radial_impulse_of(body, center, radius, force, torque_roll).impulse == (Point {
            x: mul_div(body.x - center.x, force / 2, radius / 2) as i64,
            y: mul_div(body.y - center.y, force / 2, radius / 2) as i64,
        }),
{
    let k = radius / 2;
    let d2 = dist_sq(body, center);
    assert(k > 0);
    assert(is_sqrt_of(d2, k)) by (nonlinear_arith)
        requires
            d2 == k * k,
            k > 0,
    ;
    lemma_sqrt_floor_is(d2, k);
    assert(0 < d2 < radius * radius) by (nonlinear_arith)
        requires
            d2 == k * k,
            k > 0,
            radius == 2 * k,
    ;
    let q = force / 2;
    let m = force % 2;
    assert(force == 2 * q + m && 0 <= m < 2);
    assert(force * (radius - k) == q * radius + m * k && 0 <= m * k < radius) by (nonlinear_arith)
        requires
            force == 2 * q + m,
            0 <= m < 2,
            radius == 2 * k,
            k > 0,
    ;
    lemma_fundamental_div_mod_converse(force * (radius - k), radius, q, m * k);
}

/// A body at or beyond the radius of an explosion gets no push, no spin and
/// no damage.
pub proof fn lemma_beyond_radius_nothing(body: Point, center: Point, radius: int, force: int, torque_roll: int, kind: BodyKind)
    requires
        radius > 0,
        dist_sq(body, center) >= radius * radius,
    ensures
        radial_impulse_of(body, center, radius, force, torque_roll)
            == (RadialImpulse { impulse: Point { x: 0, y: 0 }, torque: 0, strength: 0 }),
        blast_damage_for(kind, radial_impulse_of(body, center, radius, force, torque_roll)) == 0,
{
}

/// Damage dealt by a push of `strength`, in milli-hit-points.
pub open spec fn explosion_damage_of(strength: int) -> int {
    strength * EXPLOSION_DAMAGE_PER_STRENGTH
}

/// A body that an explosion may reach.
#[derive(Clone, Copy, Debug, PartialEq, Eq, Structural)]
pub struct BlastTarget {
    pub id: EntityId,
    pub position: Point,
    pub kind: BodyKind,
}

/// What an explosion did to one body.
#[derive(Clone, Copy, Debug, PartialEq, Eq, Structural)]
pub struct BlastHit {
    pub id: EntityId,
    pub push: RadialImpulse,
    /// Damage taken, in milli-hit-points; zero for a body that takes none.
    pub damage: i64,
    pub outcome: BodyOutcome,
}

/// Damage that an explosion deals to a target, given its push.
pub open spec fn blast_damage_for(kind: BodyKind, push: RadialImpulse) -> int {
    if takes_blast_damage(kind) && push.strength > 0 {
        explosion_damage_of(push.strength as int)
    } else {
        0
    }
}

/// The slots after the first `n` targets took their damage in order.
pub open spec fn explosion_world(
    s: Seq<crate::world::Slot>,
    targets: Seq<BlastTarget>,
    hits: Seq<BlastHit>,
    n: int,
) -> Seq<crate::world::Slot>
    decreases n,
{
    if n <= 0 {
        s
    } else {
        let prev = explosion_world(s, targets, hits, n - 1);
        if hits[n - 1].damage > 0 {
            body_hit(prev, targets[n - 1].id, hits[n - 1].damage as int)
        } else {
            prev
        }
    }
}

/// Applies an explosion to every target: each gets its radial push, and a
/// ragdoll part or wooden box that is pushed takes damage in proportion to
/// the push. `torque_rolls[i]` is the random spin drawn for `targets[i]`.
/// Bodies whose outcome is `Died` are to be despawned by the caller.
pub fn apply_explosion(
    world: &mut World,
    explosion: &Explosion,
    targets: &Vec<BlastTarget>,
    torque_rolls: &Vec<i64>,
) -> (hits: Vec<BlastHit>)
    requires
        old(world).wf(),
        explosion.wf(),
        targets.len() == torque_rolls.len(),
        forall|i: int| 0 <= i < targets.len() ==> (#[trigger] targets[i]).position.in_world(),
        forall|i: int|
            0 <= i < torque_rolls.len() ==> -TORQUE_SPREAD <= #[trigger] torque_rolls[i] <= TORQUE_SPREAD,
    ensures
        final(world).wf(),
        never_healed(old(world).view(), final(world).view()),
        hits.len() == targets.len(),
        forall|i: int| 0 <= i < hits.len() ==> {
            let t = #[trigger] targets[i];
            let push = radial_impulse_of(
                t.position,
                explosion.position,
                explosion.radius as int,
                explosion.force as int,
                torque_rolls[i] as int,
            );
            &&& hits[i].id == t.id
            &&& hits[i].push == push
            &&& hits[i].damage == blast_damage_for(t.kind, push)
            &&& hits[i].outcome == (if hits[i].damage > 0 {
                body_hit_outcome(
                    explosion_world(old(world).view(), targets@, hits@, i),
                    t.id,
                    hits[i].damage as int,
                )
            } else {
                BodyOutcome::Skipped
            })
        },
        final(world).view() == explosion_world(old(world).view(), targets@, hits@, hits.len() as int),
{
    let mut hits: Vec<BlastHit> = Vec::new();
    let mut i: usize = 0;
    proof {
        lemma_never_healed_refl(world.view());
    }
    while i < targets.len()
        invariant
            i <= targets.len(),
            targets.len() == torque_rolls.len(),
            hits.len() == i,
            world.wf(),
            explosion.wf(),
            forall|k: int| 0 <= k < targets.len() ==> (#[trigger] targets[k]).position.in_world(),
            forall|k: int|
                0 <= k < torque_rolls.len() ==> -TORQUE_SPREAD <= #[trigger] torque_rolls[k] <= TORQUE_SPREAD,
            forall|k: int| 0 <= k < i ==> {
                let t = #[trigger] targets[k];
                let push = radial_impulse_of(
                    t.position,
                    explosion.position,
                    explosion.radius as int,
                    explosion.force as int,
                    torque_rolls[k] as int,
                );
                &&& hits[k].id == t.id
                &&& hits[k].push == push
                &&& hits[k].damage == blast_damage_for(t.kind, push)
                &&& hits[k].outcome == (if hits[k].damage > 0 {
                    body_hit_outcome(
                        explosion_world(old(world).view(), targets@, hits@, k),
                        t.id,
                        hits[k].damage as int,
                    )
                } else {
                    BodyOutcome::Skipped
                })
            },
            world.view() == explosion_world(old(world).view(), targets@, hits@, i as int),
            never_healed(old(world).view(), world.view()),
        decreases targets.len() - i,
    {
        let t = targets[i];
        let ghost before = hits@;
        let ghost before_hit = world.view();
        let hit = blast_one(world, explosion, &t, torque_rolls[i]);
        proof {
            lemma_never_healed_trans(old(world).view(), before_hit, world.view());
        }
        hits.push(hit);
        proof {
            lemma_explosion_world_prefix(old(world).view(), targets@, before, hits@, i as int);
            assert forall|k: int| 0 <= k <= i implies explosion_world(old(world).view(), targets@, before, k)
                == explosion_world(old(world).view(), targets@, hits@, k) by {
                lemma_explosion_world_prefix(old(world).view(), targets@, before, hits@, k);
            };
        }
        i += 1;
    }
    hits
}

/// One target's share of `apply_explosion`.
fn blast_one(world: &mut World, explosion: &Explosion, t: &BlastTarget, torque_roll: i64) -> (hit: BlastHit)
    requires
        old(world).wf(),
        explosion.wf(),
        t.position.in_world(),
        -TORQUE_SPREAD <= torque_roll <= TORQUE_SPREAD,
    ensures
        final(world).wf(),
        never_healed(old(world).view(), final(world).view()),
        hit.id == t.id,
        hit.push == radial_impulse_of(
            t.position,
            explosion.position,
            explosion.radius as int,
            explosion.force as int,
            torque_roll as int,
        ),
        hit.damage == blast_damage_for(t.kind, hit.push),
        hit.outcome == (if hit.damage > 0 {
            body_hit_outcome(old(world).view(), t.id, hit.damage as int)
        } else {
            BodyOutcome::Skipped
        }),
        final(world).view() == (if hit.damage > 0 {
            body_hit(old(world).view(), t.id, hit.damage as int)
        } else {
            old(world).view()
        }),
{
    let push = apply_radial_impulse(
        t.position,
        explosion.position,
        explosion.radius,
        explosion.force,
        torque_roll,
    );
    let damage: i64 = if is_blast_damageable(t.kind) && push.strength > 0 {
        push.strength * EXPLOSION_DAMAGE_PER_STRENGTH
    } else {
        0
    };
    let outcome = if damage > 0 {
        world.damage_body(t.id, damage)
    } else {
        proof {
            lemma_never_healed_refl(world.view());
        }
        BodyOutcome::Skipped
    };
    BlastHit { id: t.id, push, damage, outcome }
}

/// The world after `n` hits depends on the first `n` hits alone.
proof fn lemma_explosion_world_prefix(
    s: Seq<crate::world::Slot>,
    targets: Seq<BlastTarget>,
    a: Seq<BlastHit>,
    b: Seq<BlastHit>,
    n: int,
)
    requires
        n <= a.len(),
        n <= b.len(),
        forall|k: int| 0 <= k < n ==> a[k] == b[k],
    ensures
        explosion_world(s, targets, a, n) == explosion_world(s, targets, b, n),
    decreases n,
{
    if n > 0 {
        lemma_explosion_world_prefix(s, targets, a, b, n - 1);
    }
}

} // verus!
