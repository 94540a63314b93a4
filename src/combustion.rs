//! Fire: ignition of flammable bodies, burn damage each tick, and random
//! spread to nearby flammable bodies with intensity that falls every hop.
//!
//! A body goes `Unlit -> OnFire -> (Extinguished | Dead)`.
use vstd::prelude::*;
use crate::fixed::{dist_sq, distance_sq, isqrt, sqrt_floor, Point};
use crate::finder::{find_closest_entity, Candidate};
use crate::health::EntityId;
use crate::random::rolls;
use crate::world::{body_hit, body_hit_outcome, never_healed, BodyOutcome, World};

verus! {

/// Burn damage per second at full intensity, in milli-hit-points per
/// millisecond (fifteen hit points a second).
pub const FIRE_DAMAGE_PER_MS: i64 = 15;

/// How long a fire burns, in milliseconds.
pub const FIRE_DURATION_MS: u64 = 8000;

/// Distance within which a fire may spread, in world units.
pub const FIRE_SPREAD_RADIUS: i64 = 50;

/// Distance from the ignition point within which a body can be set alight.
pub const IGNITION_PICK_RADIUS: i64 = 100;

/// Full intensity, in parts per thousand.
pub const FULL_INTENSITY: i64 = 1000;

/// Share of its intensity that a fire passes on when it spreads, in parts
/// per thousand.
pub const SPREAD_DECAY: i64 = 800;

/// Spread chances are in parts per million.
pub const CHANCE_SCALE: i64 = 1_000_000;

/// A burning body's fire.
#[derive(Clone, Copy, Debug, PartialEq, Eq, Structural)]
pub struct OnFire {
    /// Parts per thousand, in `(0, 1000]` for a fire that was lit.
    pub intensity: i64,
    pub duration_ms: u64,
    pub elapsed_ms: u64,
}

impl OnFire {
    pub open spec fn wf(&self) -> bool {
        0 <= self.intensity <= FULL_INTENSITY && self.elapsed_ms <= self.duration_ms <= FIRE_DURATION_MS
    }
}

/// Marks a body that can catch fire.
#[derive(Clone, Copy, Debug, PartialEq, Eq, Structural)]
pub struct Flammable {
    pub ignition_threshold: i64,
}

/// A fresh fire at full intensity.
pub fn ignite() -> (f: OnFire)
    ensures
        f.intensity == FULL_INTENSITY,
        f.duration_ms == FIRE_DURATION_MS,
        f.elapsed_ms == 0,
        f.wf(),
{
    OnFire { intensity: FULL_INTENSITY, duration_ms: FIRE_DURATION_MS, elapsed_ms: 0 }
}

/// The ignition action: the flammable body nearest to `point`, among those
/// not yet burning (`candidates`), within `IGNITION_PICK_RADIUS`, gets a
/// fresh fire. `None` when no such body is that close.
pub fn ignite_nearest(candidates: &Vec<Candidate>, point: Point) -> (r: Option<(EntityId, OnFire)>)
    requires
        point.in_world(),
        forall|i: int| 0 <= i < candidates.len() ==> (#[trigger] candidates[i]).position.in_world(),
    ensures
        r is None <==> forall|i: int| 0 <= i < candidates.len() ==>
            #[trigger] dist_sq(candidates[i].position, point) >= IGNITION_PICK_RADIUS * IGNITION_PICK_RADIUS,
        r matches Some(p) ==> {
            &&& exists|k: int| crate::finder::closest_index(candidates@, point, IGNITION_PICK_RADIUS as int, k)
                && candidates[k].id == p.0
            &&& p.1.intensity == FULL_INTENSITY
            &&& p.1.duration_ms == FIRE_DURATION_MS
            &&& p.1.elapsed_ms == 0
        },
{
    match find_closest_entity(candidates, point, IGNITION_PICK_RADIUS) {
        Some(id) => Some((id, ignite())),
        None => None,
    }
}

/// Burn damage over a tick of `dt_ms`: `rate * dt * intensity`.
pub open spec fn burn_damage_of(intensity: int, dt_ms: int) -> int {
    (FIRE_DAMAGE_PER_MS * dt_ms * intensity) / 1000
}

/// What a tick of burning did.
#[derive(Clone, Copy, Debug, PartialEq, Eq, Structural)]
pub enum FireOutcome {
    /// The body is gone or has no health.
    Skipped,
    /// Still burning.
    Burning,
    /// The fire ran its course; the body survives and loses its fire.
    Extinguished,
    /// The fire killed the body: it is to be despawned.
    Died,
}

/// Fire particles shown for a tick of a fire of `intensity`: three at full
/// intensity, rounded down.
pub open spec fn fire_particles_of(intensity: int) -> int {
    (3 * intensity) / 1000
}

/// What a tick of burning did, with what it shows.
#[derive(Clone, Copy, Debug, PartialEq, Eq, Structural)]
pub struct FireTick {
    pub outcome: FireOutcome,
    /// Fire particles to show at the body this tick.
    pub particles: i64,
    /// The body died and throws blood: it was organic.
    pub bleeds: bool,
}

/// Time burnt after a tick, held at the fire's duration.
pub open spec fn burnt_ms(f: OnFire, dt_ms: int) -> int {
    if f.elapsed_ms + dt_ms >= f.duration_ms { f.duration_ms as int } else { f.elapsed_ms + dt_ms }
}

/// Outcome of a tick of burning, given what the damage did.
pub open spec fn fire_outcome_of(hit: BodyOutcome, fire: OnFire, dt_ms: int) -> FireOutcome {
    match hit {
        BodyOutcome::Skipped => FireOutcome::Skipped,
        BodyOutcome::Died => FireOutcome::Died,
        BodyOutcome::Alive => if burnt_ms(fire, dt_ms) >= fire.duration_ms {
            FireOutcome::Extinguished
        } else {
            FireOutcome::Burning
        },
    }
}

/// Burns body `e` for a tick of `dt_ms` milliseconds: its fire's clock runs,
/// it takes `burn_damage_of` damage, and it either dies, is extinguished
/// when the duration has run out, or keeps burning. A body that dies of the
/// fire throws blood when it is `organic` (a ragdoll part). Fire particles
/// are shown in proportion to the intensity.
pub fn apply_fire_damage(world: &mut World, e: EntityId, fire: &mut OnFire, dt_ms: u64, organic: bool) -> (r: FireTick)
    requires
        old(world).wf(),
        old(fire).wf(),
        dt_ms <= 1_000_000,
    ensures
        final(world).wf(),
        never_healed(old(world).view(), final(world).view()),
        final(fire).intensity == old(fire).intensity,
        final(fire).duration_ms == old(fire).duration_ms,
        final(fire).elapsed_ms == burnt_ms(*old(fire), dt_ms as int),
        final(fire).wf(),
        final(world).view() == body_hit(old(world).view(), e, burn_damage_of(old(fire).intensity as int, dt_ms as int)),
        r.outcome == fire_outcome_of(
            body_hit_outcome(old(world).view(), e, burn_damage_of(old(fire).intensity as int, dt_ms as int)),
            *old(fire),
            dt_ms as int,
        ),
        r.particles == fire_particles_of(old(fire).intensity as int),
        r.bleeds == (r.outcome == FireOutcome::Died && organic),
{
    if fire.elapsed_ms + dt_ms >= fire.duration_ms {
        fire.elapsed_ms = fire.duration_ms;
    } else {
        fire.elapsed_ms = fire.elapsed_ms + dt_ms;
    }
    let dt = dt_ms as i64;
    proof {
        assert(0 <= FIRE_DAMAGE_PER_MS * dt * fire.intensity <= 15 * 1_000_000 * 1000) by (nonlinear_arith)
            requires
                0 <= dt <= 1_000_000,
                0 <= fire.intensity <= 1000,
        ;
    }
    let damage = (FIRE_DAMAGE_PER_MS * dt * fire.intensity) / 1000;
    let outcome = match world.damage_body(e, damage) {
        BodyOutcome::Skipped => FireOutcome::Skipped,
        BodyOutcome::Died => FireOutcome::Died,
        BodyOutcome::Alive => if fire.elapsed_ms >= fire.duration_ms {
            FireOutcome::Extinguished
        } else {
            FireOutcome::Burning
        },
    };
    let bleeds = match outcome {
        FireOutcome::Died => organic,
        _ => false,
    };
    FireTick { outcome, particles: (3 * fire.intensity) / 1000, bleeds }
}

/// Chance, in parts per million, that a fire of `intensity` spreads to a
/// body at squared distance `d2`: `(1 - distance / radius) * intensity * 0.01`
/// within the spread radius, none beyond.
pub open spec fn spread_chance_of(d2: int, intensity: int) -> int {
    if d2 < FIRE_SPREAD_RADIUS * FIRE_SPREAD_RADIUS {
        ((FIRE_SPREAD_RADIUS - sqrt_floor(d2)) * intensity * 10) / (FIRE_SPREAD_RADIUS as int)
    } else {
        0
    }
}

/// Intensity of a fire that spread from one of `intensity`.
pub open spec fn spread_intensity(intensity: int) -> int {
    (intensity * SPREAD_DECAY) / 1000
}

/// The fire a body at `target` catches from a fire of `intensity` at
/// `source`, given the roll `roll` in `[0, CHANCE_SCALE)`: it catches when
/// the roll falls under the spread chance.
pub open spec fn spread_of(source: Point, intensity: int, target: Point, roll: int) -> Option<OnFire> {
    if roll < spread_chance_of(dist_sq(source, target), intensity) {
        Some(OnFire {
            intensity: spread_intensity(intensity) as i64,
            duration_ms: FIRE_DURATION_MS,
            elapsed_ms: 0,
        })
    } else {
        None
    }
}

pub fn spread_chance(source: Point, intensity: i64, target: Point) -> (c: i64)
    requires
        source.in_world(),
        target.in_world(),
        0 <= intensity <= FULL_INTENSITY,
    ensures
        c == spread_chance_of(dist_sq(source, target), intensity as int),
        0 <= c <= 10 * intensity,
{
    let d2 = distance_sq(source, target);
    if d2 < (FIRE_SPREAD_RADIUS * FIRE_SPREAD_RADIUS) as u64 {
        let d = isqrt(d2) as i64;
        proof {
            assert(d < FIRE_SPREAD_RADIUS) by (nonlinear_arith)
                requires
                    d * d <= d2,
                    d2 < FIRE_SPREAD_RADIUS * FIRE_SPREAD_RADIUS,
                    d >= 0,
            ;
            assert(0 <= (FIRE_SPREAD_RADIUS - d) * intensity * 10 <= FIRE_SPREAD_RADIUS * intensity * 10) by (nonlinear_arith)
                requires
                    0 <= d < FIRE_SPREAD_RADIUS,
                    0 <= intensity <= FULL_INTENSITY,
            ;
            assert(((FIRE_SPREAD_RADIUS - d) * intensity * 10) / (FIRE_SPREAD_RADIUS as int) <= 10 * intensity) by (nonlinear_arith)
                requires
                    0 <= (FIRE_SPREAD_RADIUS - d) * intensity * 10 <= FIRE_SPREAD_RADIUS * intensity * 10,
            ;
        }
        ((FIRE_SPREAD_RADIUS - d) * intensity * 10) / FIRE_SPREAD_RADIUS
    } else {
        0
    }
}

/// One spread roll from a fire of `intensity` at `source` to a flammable,
/// not yet burning body at `target`.
pub fn try_spread(source: Point, intensity: i64, target: Point, roll: i64) -> (r: Option<OnFire>)
    requires
        source.in_world(),
        target.in_world(),
        0 <= intensity <= FULL_INTENSITY,
        0 <= roll,
    ensures
        r == spread_of(source, intensity as int, target, roll as int),
        r matches Some(f) ==> f.wf() && f.intensity < intensity,
{
    let chance = spread_chance(source, intensity, target);
    if roll < chance {
        proof {
            lemma_spread_attenuates(intensity as int);
        }
        Some(OnFire { intensity: (intensity * SPREAD_DECAY) / 1000, duration_ms: FIRE_DURATION_MS, elapsed_ms: 0 })
    } else {
        None
    }
}

/// Spread from one burning body at `source` to each flammable, not yet
/// burning body of `targets`, with `spread_rolls[i]` the roll for `targets[i]`.
pub fn spread_fire(source: Point, intensity: i64, targets: &Vec<Candidate>, spread_rolls: &Vec<i64>) -> (r: Vec<Option<OnFire>>)
    requires
        source.in_world(),
        0 <= intensity <= FULL_INTENSITY,
        targets.len() == spread_rolls.len(),
        forall|i: int| 0 <= i < targets.len() ==> (#[trigger] targets[i]).position.in_world(),
        forall|i: int| 0 <= i < spread_rolls.len() ==> 0 <= #[trigger] spread_rolls[i],
    ensures
        r.len() == targets.len(),
        forall|i: int| 0 <= i < targets.len() ==> #[trigger] r[i] == spread_of(
            source,
            intensity as int,
            targets[i].position,
            spread_rolls[i] as int,
        ),
{
    let mut r: Vec<Option<OnFire>> = Vec::new();
    let mut i: usize = 0;
    while i < targets.len()
        invariant
            i <= targets.len(),
            r.len() == i,
            targets.len() == spread_rolls.len(),
            source.in_world(),
            0 <= intensity <= FULL_INTENSITY,
            forall|k: int| 0 <= k < targets.len() ==> (#[trigger] targets[k]).position.in_world(),
            forall|k: int| 0 <= k < spread_rolls.len() ==> 0 <= #[trigger] spread_rolls[k],
            forall|k: int| 0 <= k < i ==> #[trigger] r[k] == spread_of(
                source,
                intensity as int,
                targets[k].position,
                spread_rolls[k] as int,
            ),
        decreases targets.len() - i,
    {
        r.push(try_spread(source, intensity, targets[i].position, spread_rolls[i]));
        i += 1;
    }
    r
}

/// `outcome` is what some roll in `[0, CHANCE_SCALE)` gives.
pub open spec fn outcome_of_some_roll(source: Point, intensity: int, target: Point, outcome: Option<OnFire>) -> bool {
    exists|roll: int| 0 <= roll < CHANCE_SCALE && outcome == #[trigger] spread_of(source, intensity, target, roll)
}

/// `spread_fire` with fresh random rolls: each target catches fire at most
/// with its spread chance, and a target out of reach never does.
pub fn spread_fire_randomly(source: Point, intensity: i64, targets: &Vec<Candidate>) -> (r: Vec<Option<OnFire>>)
    requires
        source.in_world(),
        0 <= intensity <= FULL_INTENSITY,
        forall|i: int| 0 <= i < targets.len() ==> (#[trigger] targets[i]).position.in_world(),
    ensures
        r.len() == targets.len(),
        forall|i: int| 0 <= i < targets.len() ==> outcome_of_some_roll(source, intensity as int, targets[i].position, #[trigger] r[i]),
{
    let drawn = rolls(targets.len(), 0, CHANCE_SCALE);
    let r = spread_fire(source, intensity, targets, &drawn);
    assert forall|i: int| 0 <= i < targets.len() implies outcome_of_some_roll(source, intensity as int, targets[i].position, #[trigger] r[i]) by {
        let roll = drawn[i] as int;
        assert(0 <= roll < CHANCE_SCALE);
        assert(r[i] == spread_of(source, intensity as int, targets[i].position, roll));
    };
    r
}

/// Intensity after `n` successful hops from a fire of `intensity`.
pub open spec fn intensity_after_hops(intensity: int, n: nat) -> int
    decreases n,
{
    if n == 0 {
        intensity
    } else {
        spread_intensity(intensity_after_hops(intensity, (n - 1) as nat))
    }
}

/// Each successful hop passes on `SPREAD_DECAY` thousandths of the intensity,
/// rounded down, which is strictly less than a positive intensity.
pub proof fn lemma_spread_attenuates(intensity: int)
    requires
        intensity > 0,
    ensures
        spread_intensity(intensity) == (intensity * SPREAD_DECAY) / 1000,
        0 <= spread_intensity(intensity) < intensity,
{
    assert(0 <= (intensity * 800) / 1000 < intensity) by (nonlinear_arith)
        requires
            intensity > 0,
    ;
}

proof fn lemma_hops_bound(intensity: int, n: nat)
    requires
        intensity >= 0,
    ensures
        0 <= intensity_after_hops(intensity, n),
        intensity_after_hops(intensity, n) <= if intensity - n > 0 { intensity - n } else { 0 },
    decreases n,
{
    if n > 0 {
        lemma_hops_bound(intensity, (n - 1) as nat);
        let prev = intensity_after_hops(intensity, (n - 1) as nat);
        if prev > 0 {
            lemma_spread_attenuates(prev);
        } else {
            assert(spread_intensity(0) == 0);
        }
    }
}

/// `b` to the power `n`.
pub open spec fn power(b: int, n: nat) -> int
    decreases n,
{
    if n == 0 { 1 } else { b * power(b, (n - 1) as nat) }
}

proof fn lemma_power_nonneg(b: int, n: nat)
    requires
        b >= 0,
    ensures
        power(b, n) >= 0,
    decreases n,
{
    if n > 0 {
        lemma_power_nonneg(b, (n - 1) as nat);
        assert(b * power(b, (n - 1) as nat) >= 0) by (nonlinear_arith)
            requires
                b >= 0,
                power(b, (n - 1) as nat) >= 0,
        ;
    }
}

/// After `n` successful hops a chain that started at `intensity` burns at
/// most `intensity * 0.8^n`: the per-hop factor, rounded down each hop.
pub proof fn lemma_spread_geometric(intensity: int, n: nat)
    requires
        intensity >= 0,
    ensures
        0 <= intensity_after_hops(intensity, n),
        intensity_after_hops(intensity, n) * power(5, n) <= intensity * power(4, n),
    decreases n,
{
    if n > 0 {
        let m = (n - 1) as nat;
        lemma_spread_geometric(intensity, m);
        lemma_power_nonneg(5, m);
        lemma_power_nonneg(4, m);
        let h = intensity_after_hops(intensity, m);
        let next = intensity_after_hops(intensity, n);
        assert(next == (h * 800) / 1000);
        assert(0 <= next && next * 5 <= h * 4) by (nonlinear_arith)
            requires
                next == (h * 800) / 1000,
                h >= 0,
        ;
        assert(next * power(5, n) <= intensity * power(4, n)) by (nonlinear_arith)
            requires
                next * 5 <= h * 4,
                next >= 0,
                h * power(5, m) <= intensity * power(4, m),
                power(5, m) >= 0,
                power(5, n) == 5 * power(5, m),
                power(4, n) == 4 * power(4, m),
        ;
    }
}

/// A chain of fires that started at `intensity` falls below any positive
/// floor after `intensity` hops, so no ignition spreads without end; a fire
/// of zero intensity has no chance to spread at all.
pub proof fn lemma_spread_chain_bounded(intensity: int, floor: int, d2: int)
    requires
        intensity >= 0,
        floor > 0,
    ensures
        intensity_after_hops(intensity, intensity as nat) < floor,
        spread_chance_of(d2, intensity_after_hops(intensity, intensity as nat)) == 0,
{
    lemma_hops_bound(intensity, intensity as nat);
    let s = sqrt_floor(d2);
    assert(((FIRE_SPREAD_RADIUS - s) * 0 * 10) / (FIRE_SPREAD_RADIUS as int) == 0) by (nonlinear_arith);
}

} // verus!
