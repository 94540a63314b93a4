//! The traveling shockwave ring: a wavefront whose radius grows every tick
//! and whose pressure decays as it spreads. A body is hit while its distance
//! from the origin lies in the tick's sweep window
//! `[previous radius, current radius + thickness)`.
use vstd::prelude::*;
use crate::blast::{is_blast_damageable, takes_blast_damage, BodyKind, MAX_RADIUS};
use crate::fixed::{
    dist_sq, distance_sq, isqrt, lemma_sqrt_floor_bounds, mul_div, mul_div_signed,
    sqrt_floor, Point, MAX_COORD,
};
use crate::health::{EntityId, JointOutcome};
use crate::impact::{apply_joint_hits, hits_wf, joints_world, JointDamageReport, JointHit};
use crate::world::{
    body_hit, body_hit_outcome, joint_hit_outcome, lemma_never_healed_refl, lemma_never_healed_trans, never_healed,
    BodyOutcome, Slot, World,
};

verus! {

/// Default speed of a wavefront, in world units per second.
pub const WAVE_SPEED: i64 = 1200;

/// Default thickness of a wavefront, in world units.
pub const WAVE_THICKNESS: i64 = 80;

/// Peak pressure of the ring a bomb sets off.
pub const BOMB_PEAK_PRESSURE: i64 = 80_000;

/// Default lifetime of a ring, in milliseconds.
pub const WAVE_LIFETIME_MS: u64 = 1500;

/// Largest peak pressure of a ring.
pub const MAX_PRESSURE: i64 = 1_000_000;

/// Largest wave speed, in world units per second.
pub const MAX_WAVE_SPEED: i64 = 1_000_000;

/// Longest tick, in milliseconds.
pub const MAX_DT_MS: i64 = 1000;

/// Largest size of a body, in world units.
pub const MAX_BODY_SIZE: i64 = 10_000;

/// Smallest cross-section a body presents to a wave, in world units.
pub const MIN_CROSS_SECTION: i64 = 20;

/// Lightest mass used for a body in a wave, in grams.
pub const MIN_WAVE_MASS: i64 = 100;

/// Mass assumed for a body whose mass is unknown, in grams.
pub const DEFAULT_MASS: i64 = 1000;

/// Largest mass of a body, in grams.
pub const MAX_MASS: i64 = 1_000_000_000_000;

/// Largest lifetime of a ring, in milliseconds.
pub const MAX_LIFETIME_MS: u64 = 1_000_000_000;

/// Speed cap of a fragment flung by the wave from a body with no velocity.
pub const FRAGMENT_SPEED_CAP: i64 = 500;

/// Speed cap of the blood flung by the wave from a ragdoll part.
pub const BLOOD_SPEED_CAP: i64 = 800;

/// Damage to a joint per unit of wave pressure, in milli-hit-points.
pub const JOINT_DAMAGE_PER_PRESSURE: i64 = 4;

#[derive(Clone, Copy, Debug, PartialEq, Eq, Structural)]
pub struct ShockwaveRing {
    pub origin: Point,
    pub current_radius: i64,
    pub max_radius: i64,
    pub peak_pressure: i64,
    /// World units per second.
    pub wave_speed: i64,
    pub wave_thickness: i64,
    pub lifetime_ms: u64,
    pub elapsed_ms: u64,
    /// How far from the origin the ring has already swept: bodies nearer
    /// than this were hit on an earlier tick and are not hit again.
    pub swept_to: i64,
}

impl ShockwaveRing {
    /// A ring that is still travelling.
    pub open spec fn wf(&self) -> bool {
        &&& self.origin.in_world()
        &&& 0 <= self.current_radius < self.max_radius <= MAX_RADIUS
        &&& 0 <= self.peak_pressure <= MAX_PRESSURE
        &&& 0 <= self.wave_speed <= MAX_WAVE_SPEED
        &&& 0 <= self.wave_thickness <= MAX_RADIUS
        &&& self.elapsed_ms < self.lifetime_ms <= MAX_LIFETIME_MS
        &&& self.current_radius <= self.swept_to <= self.current_radius + self.wave_thickness
    }
}

/// A new ring at `origin` with the default speed, thickness and lifetime.
pub fn spawn_shockwave(origin: Point, max_radius: i64, peak_pressure: i64) -> (r: ShockwaveRing)
    requires
        origin.in_world(),
        0 < max_radius <= MAX_RADIUS,
        0 <= peak_pressure <= MAX_PRESSURE,
    ensures
        r.wf(),
        r.origin == origin,
        r.current_radius == 0,
        r.max_radius == max_radius,
        r.peak_pressure == peak_pressure,
        r.wave_speed == WAVE_SPEED,
        r.wave_thickness == WAVE_THICKNESS,
        r.lifetime_ms == WAVE_LIFETIME_MS,
        r.elapsed_ms == 0,
        r.swept_to == 0,
{
    ShockwaveRing {
        origin,
        current_radius: 0,
        max_radius,
        peak_pressure,
        wave_speed: WAVE_SPEED,
        wave_thickness: WAVE_THICKNESS,
        lifetime_ms: WAVE_LIFETIME_MS,
        elapsed_ms: 0,
        swept_to: 0,
    }
}

/// Pressure left in the wave at radius `r` of `max`, in parts per thousand:
/// `1 - (r / max)^1.5`.
pub open spec fn wave_decay(r: int, max: int) -> int {
    let p = (r * 1000) / max;
    1000 - (p * sqrt_floor(p * 1000)) / 1000
}

pub fn wave_decay_permille(r: i64, max: i64) -> (d: i64)
    requires
        0 <= r <= max,
        0 < max <= MAX_RADIUS,
    ensures
        d == wave_decay(r as int, max as int),
        0 <= d <= 1000,
{
    proof {
        assert(0 <= r * 1000 <= max * 1000) by (nonlinear_arith)
            requires
                0 <= r <= max,
        ;
        assert(0 <= (r * 1000) / (max as int) <= 1000) by (nonlinear_arith)
            requires
                0 <= r * 1000 <= max * 1000,
                max > 0,
        ;
    }
    let p = (r * 1000) / max;
    let s = isqrt((p * 1000) as u64);
    proof {
        assert(s <= 1000) by (nonlinear_arith)
            requires
                s * s <= p * 1000,
                p <= 1000,
                s >= 0,
        ;
        assert(0 <= p * s <= 1_000_000) by (nonlinear_arith)
            requires
                0 <= p <= 1000,
                0 <= s <= 1000,
        ;
    }
    let s = s as i64;
    1000 - (p * s) / 1000
}

/// What one tick does to a ring.
#[derive(Clone, Copy, Debug, PartialEq, Eq, Structural)]
pub enum RingTick {
    /// The ring reached its largest radius or outlived its lifetime: it is
    /// to be despawned, and hits nothing this tick.
    Expired,
    /// The ring grew from `old_radius` to `new_radius` with `decay` parts
    /// per thousand of its peak pressure left. It hits what lies in its
    /// sweep window `[swept_from, new_radius + thickness)`: from where the
    /// previous tick's window ended (zero on the first tick) to the new outer
    /// edge of the wavefront. This lies within
    /// `[old_radius, new_radius + thickness)`, and the windows of successive
    /// ticks follow one another without overlap.
    Swept { old_radius: i64, new_radius: i64, decay: i64, swept_from: i64 },
}

/// Radius after a tick of `dt_ms` milliseconds.
pub open spec fn advanced_radius(ring: ShockwaveRing, dt_ms: int) -> int {
    ring.current_radius + (ring.wave_speed * dt_ms) / 1000
}

/// Elapsed time after a tick, held at the lifetime once it is reached.
pub open spec fn advanced_elapsed(ring: ShockwaveRing, dt_ms: int) -> int {
    if ring.elapsed_ms + dt_ms >= ring.lifetime_ms {
        ring.lifetime_ms as int
    } else {
        ring.elapsed_ms + dt_ms
    }
}

pub open spec fn ring_tick_of(ring: ShockwaveRing, dt_ms: int) -> RingTick {
    let r = advanced_radius(ring, dt_ms);
    if r >= ring.max_radius || advanced_elapsed(ring, dt_ms) >= ring.lifetime_ms {
        RingTick::Expired
    } else {
        RingTick::Swept {
            old_radius: ring.current_radius,
            new_radius: r as i64,
            decay: wave_decay(r, ring.max_radius as int) as i64,
            swept_from: ring.swept_to,
        }
    }
}

impl ShockwaveRing {
    /// Advances the ring by one tick of `dt_ms` milliseconds: the lifetime
    /// runs, the radius grows by `wave_speed * dt`, and the ring either
    /// expires or reports the window it swept.
    pub fn advance(&mut self, dt_ms: i64) -> (t: RingTick)
        requires
            old(self).wf(),
            0 <= dt_ms <= MAX_DT_MS,
        ensures
            t == ring_tick_of(*old(self), dt_ms as int),
            final(self).current_radius == advanced_radius(*old(self), dt_ms as int),
            final(self).elapsed_ms == advanced_elapsed(*old(self), dt_ms as int),
            final(self).origin == old(self).origin,
            final(self).max_radius == old(self).max_radius,
            final(self).peak_pressure == old(self).peak_pressure,
            final(self).wave_speed == old(self).wave_speed,
            final(self).wave_thickness == old(self).wave_thickness,
            final(self).lifetime_ms == old(self).lifetime_ms,
            final(self).current_radius >= old(self).current_radius,
            t is Swept ==> final(self).wf(),
            t is Swept ==> final(self).swept_to == final(self).current_radius + final(self).wave_thickness,
            t is Expired ==> final(self).swept_to == old(self).swept_to,
            t matches RingTick::Swept { old_radius, new_radius, decay, swept_from } ==> 0 <= decay <= 1000
                && old_radius == old(self).current_radius && new_radius == final(self).current_radius
                && swept_from == old(self).swept_to && old_radius <= swept_from <= new_radius + old(self).wave_thickness,
    {
        let step = dt_ms as u64;
        if self.elapsed_ms + step >= self.lifetime_ms {
            self.elapsed_ms = self.lifetime_ms;
        } else {
            self.elapsed_ms = self.elapsed_ms + step;
        }
        let old_radius = self.current_radius;
        proof {
            assert(0 <= self.wave_speed * dt_ms <= MAX_WAVE_SPEED * MAX_DT_MS) by (nonlinear_arith)
                requires
                    0 <= self.wave_speed <= MAX_WAVE_SPEED,
                    0 <= dt_ms <= MAX_DT_MS,
            ;
            assert(0 <= (self.wave_speed * dt_ms) / 1000 <= self.wave_speed * dt_ms) by (nonlinear_arith)
                requires
                    0 <= self.wave_speed * dt_ms,
            ;
        }
        self.current_radius = self.current_radius + (self.wave_speed * dt_ms) / 1000;
        if self.current_radius >= self.max_radius || self.elapsed_ms >= self.lifetime_ms {
            RingTick::Expired
        } else {
            let decay = wave_decay_permille(self.current_radius, self.max_radius);
            let swept_from = self.swept_to;
            self.swept_to = self.current_radius + self.wave_thickness;
            RingTick::Swept { old_radius, new_radius: self.current_radius, decay, swept_from }
        }
    }
}

/// A body at squared distance `d2` lies in the sweep window
/// `[swept_from, new_radius + thickness)`.
pub open spec fn in_sweep_window(d2: int, swept_from: int, new_radius: int, thickness: int) -> bool {
    swept_from * swept_from <= d2 && d2 < (new_radius + thickness) * (new_radius + thickness)
}

pub fn is_in_sweep_window(d2: u64, swept_from: i64, new_radius: i64, thickness: i64) -> (r: bool)
    requires
        0 <= swept_from <= 2 * MAX_RADIUS,
        0 <= new_radius <= 2 * MAX_RADIUS,
        0 <= thickness <= MAX_RADIUS,
    ensures
        r == in_sweep_window(d2 as int, swept_from as int, new_radius as int, thickness as int),
{
    proof {
        assert(swept_from * swept_from <= 4 * MAX_RADIUS * MAX_RADIUS) by (nonlinear_arith)
            requires
                0 <= swept_from <= 2 * MAX_RADIUS,
        ;
        assert((new_radius + thickness) * (new_radius + thickness) <= 9 * MAX_RADIUS * MAX_RADIUS) by (nonlinear_arith)
            requires
                0 <= new_radius + thickness <= 3 * MAX_RADIUS,
        ;
    }
    let lo = (swept_from * swept_from) as u64;
    let outer = new_radius + thickness;
    let hi = (outer * outer) as u64;
    lo <= d2 && d2 < hi
}

/// `sqrt(max / distance)` in parts per thousand, and one at the epicentre.
pub open spec fn distance_factor(d2: int, max: int) -> int {
    if d2 == 0 {
        1000
    } else {
        sqrt_floor((max * 1_000_000) / sqrt_floor(d2))
    }
}

/// Unit vector from the origin toward a body at offset `(dx, dy)`, in parts
/// per thousand; a body within one unit of the origin is pushed along +x.
pub open spec fn direction_of(dx: int, dy: int) -> Point {
    let d2 = dx * dx + dy * dy;
    if d2 > 1 {
        let d = sqrt_floor(d2);
        Point { x: mul_div(dx, 1000, d) as i64, y: mul_div(dy, 1000, d) as i64 }
    } else {
        Point { x: 1000, y: 0 }
    }
}

proof fn lemma_component_within(a: int, b: int)
    requires
        -2 * MAX_COORD <= a <= 2 * MAX_COORD,
        -2 * MAX_COORD <= b <= 2 * MAX_COORD,
    ensures
        -sqrt_floor(a * a + b * b) <= a <= sqrt_floor(a * a + b * b),
{
    let n = a * a + b * b;
    assert(a * a + b * b >= 0) by (nonlinear_arith);
    lemma_sqrt_floor_bounds(n);
    let d = sqrt_floor(n);
    assert(a * a <= n) by (nonlinear_arith)
        requires
            n == a * a + b * b,
    ;
    assert(-d <= a <= d) by (nonlinear_arith)
        requires
            a * a <= n,
            n < (d + 1) * (d + 1),
            d >= 0,
    ;
}

pub fn direction(dx: i64, dy: i64) -> (r: Point)
    requires
        -2 * MAX_COORD <= dx <= 2 * MAX_COORD,
        -2 * MAX_COORD <= dy <= 2 * MAX_COORD,
    ensures
        r == direction_of(dx as int, dy as int),
        -1000 <= r.x <= 1000,
        -1000 <= r.y <= 1000,
{
    proof {
        assert(0 <= dx * dx <= 4 * MAX_COORD * MAX_COORD) by (nonlinear_arith)
            requires
                -2 * MAX_COORD <= dx <= 2 * MAX_COORD,
        ;
        assert(0 <= dy * dy <= 4 * MAX_COORD * MAX_COORD) by (nonlinear_arith)
            requires
                -2 * MAX_COORD <= dy <= 2 * MAX_COORD,
        ;
    }
    let d2 = (dx * dx + dy * dy) as u64;
    if d2 > 1 {
        let d = isqrt(d2);
        proof {
            assert(d >= 1) by (nonlinear_arith)
                requires
                    d2 > 1,
                    d2 < (d + 1) * (d + 1),
                    d >= 0,
            ;
            lemma_component_within(dx as int, dy as int);
            lemma_component_within(dy as int, dx as int);
            assert(dy * dy + dx * dx == dx * dx + dy * dy);
            assert(mul_div(dx as int, 1000, d as int) <= 1000 && mul_div(dx as int, 1000, d as int) >= -1000) by (nonlinear_arith)
                requires
                    -d <= dx <= d,
                    d >= 1,
            ;
            assert(mul_div(dy as int, 1000, d as int) <= 1000 && mul_div(dy as int, 1000, d as int) >= -1000) by (nonlinear_arith)
                requires
                    -d <= dy <= d,
                    d >= 1,
            ;
        }
        let d = d as i64;
        Point { x: mul_div_signed(dx, 1000, d), y: mul_div_signed(dy, 1000, d) }
    } else {
        Point { x: 1000, y: 0 }
    }
}

/// Peak pressure scaled by the ring's decay and the body's distance factor.
pub open spec fn wave_pressure(peak: int, decay: int, d2: int, max: int) -> int {
    (((peak * decay) / 1000) * distance_factor(d2, max)) / 1000
}

pub fn wave_pressure_at(peak: i64, decay: i64, d2: u64, max: i64) -> (p: i64)
    requires
        0 <= peak <= MAX_PRESSURE,
        0 <= decay <= 1000,
        0 < max <= MAX_RADIUS,
    ensures
        p == wave_pressure(peak as int, decay as int, d2 as int, max as int),
        0 <= p <= 1_000_000_000,
{
    proof {
        assert(0 <= peak * decay <= MAX_PRESSURE * 1000) by (nonlinear_arith)
            requires
                0 <= peak <= MAX_PRESSURE,
                0 <= decay <= 1000,
        ;
        assert(0 <= (peak * decay) / 1000 <= MAX_PRESSURE) by (nonlinear_arith)
            requires
                0 <= peak * decay <= MAX_PRESSURE * 1000,
        ;
    }
    let scaled = (peak * decay) / 1000;
    let factor: i64 = if d2 == 0 {
        1000
    } else {
        let d = isqrt(d2);
        proof {
            assert(d >= 1) by (nonlinear_arith)
                requires
                    d2 >= 1,
                    d2 < (d + 1) * (d + 1),
                    d >= 0,
            ;
            assert(0 <= (max * 1_000_000) / (d as int) <= max * 1_000_000) by (nonlinear_arith)
                requires
                    d >= 1,
                    max > 0,
            ;
        }
        let q = ((max * 1_000_000) as u64) / d;
        let f = isqrt(q);
        proof {
            assert(f <= 1_000_000) by (nonlinear_arith)
                requires
                    f * f <= q,
                    q <= 1_000_000_000_000,
                    f >= 0,
            ;
        }
        f as i64
    };
    proof {
        assert(0 <= scaled * factor <= MAX_PRESSURE * 1_000_000) by (nonlinear_arith)
            requires
                0 <= scaled <= MAX_PRESSURE,
                0 <= factor <= 1_000_000,
        ;
        assert((scaled * factor) / 1000 <= 1_000_000_000) by (nonlinear_arith)
            requires
                0 <= scaled * factor <= MAX_PRESSURE * 1_000_000,
        ;
    }
    (scaled * factor) / 1000
}

/// Mass of a body as the wave sees it: at least `MIN_WAVE_MASS`, and
/// `DEFAULT_MASS` when unknown.
pub open spec fn wave_mass(mass: Option<i64>) -> int {
    match mass {
        Some(m) => if m < MIN_WAVE_MASS { MIN_WAVE_MASS as int } else { m as int },
        None => DEFAULT_MASS as int,
    }
}

/// Cross-section a body of `size` presents to the wave.
pub open spec fn cross_section(size: int) -> int {
    if size < MIN_CROSS_SECTION { MIN_CROSS_SECTION as int } else { size }
}

/// Size of the wave's push over a tick: `pressure * cross-section * dt`.
pub open spec fn wave_impulse_size(pressure: int, size: int, dt_ms: int) -> int {
    (pressure * cross_section(size) * dt_ms) / 1000
}

/// Weight of the random spin, in parts per thousand: one at the origin,
/// falling to none at the largest radius.
pub open spec fn torque_weight(d2: int, max: int) -> int {
    let f = (sqrt_floor(d2) * 1000) / max;
    1000 - (if f > 1000 { 1000 } else { f })
}

/// Damage a wave deals, in milli-hit-points: `0.8 * pressure`, raised by up
/// to three times as the velocity change `impulse / mass` nears its cap.
pub open spec fn wave_damage(pressure: int, impulse: int, mass: int) -> int {
    let v = (impulse * 1000) / mass;
    let vf = if v > 1000 { 1000 } else { v };
    (pressure * 8 * (1000 + 2 * vf)) / 10000
}

/// Scales a unit direction in parts per thousand to a vector of size `len`.
pub open spec fn along(dir: Point, len: int) -> Point {
    Point { x: mul_div(dir.x as int, len, 1000) as i64, y: mul_div(dir.y as int, len, 1000) as i64 }
}

pub open spec fn min_of(a: int, b: int) -> int {
    if a < b { a } else { b }
}

/// A body that a ring may reach.
#[derive(Clone, Copy, Debug, PartialEq, Eq, Structural)]
pub struct WaveTarget {
    pub id: EntityId,
    pub position: Point,
    pub kind: BodyKind,
    /// Mass in grams, when the physics engine reports one.
    pub mass: Option<i64>,
    /// Larger side of the body, in world units.
    pub size: i64,
    /// Linear velocity before the hit, when known.
    pub velocity: Option<Point>,
}

impl WaveTarget {
    pub open spec fn wf(&self) -> bool {
        &&& self.position.in_world()
        &&& 0 <= self.size <= MAX_BODY_SIZE
        &&& (self.mass matches Some(m) ==> m <= MAX_MASS)
    }
}

/// What a ring did to one body in one tick.
#[derive(Clone, Copy, Debug, PartialEq, Eq, Structural)]
pub struct WaveHit {
    pub id: EntityId,
    /// The body lay in the sweep window; all else is zero when it did not.
    pub in_window: bool,
    pub pressure: i64,
    pub impulse: Point,
    pub torque: i64,
    /// The body is a ragdoll part or a wooden box and took `damage`.
    pub damaged: bool,
    pub damage: i64,
    /// Velocity that fragments inherit should the body die.
    pub fragment_velocity: Point,
    /// Velocity of the blood a dying ragdoll part throws.
    pub blood_velocity: Point,
    /// Should the body die, it throws blood: it is a ragdoll part.
    pub bleeds: bool,
    /// Should the body die, its fragments are wood-like (see
    /// `fragments::plan_fragments`): it is a wooden box.
    pub wooden_fragments: bool,
}

/// The hit of a ring that swept `[swept_from, new_radius + thickness)` with
/// `decay` left, on body `t`, over a tick of `dt_ms`; `torque_roll` is the
/// random spin drawn for the body, in parts per thousand.
pub open spec fn wave_hit_of(
    ring: ShockwaveRing,
    swept_from: int,
    new_radius: int,
    decay: int,
    t: WaveTarget,
    dt_ms: int,
    torque_roll: int,
) -> WaveHit {
    let d2 = dist_sq(t.position, ring.origin);
    if in_sweep_window(d2, swept_from, new_radius, ring.wave_thickness as int) {
        let dir = direction_of(t.position.x - ring.origin.x, t.position.y - ring.origin.y);
        let p = wave_pressure(ring.peak_pressure as int, decay, d2, ring.max_radius as int);
        let m = wave_impulse_size(p, t.size as int, dt_ms);
        let damaged = takes_blast_damage(t.kind);
        WaveHit {
            id: t.id,
            in_window: true,
            pressure: p as i64,
            impulse: along(dir, m),
            torque: mul_div(mul_div(torque_roll, m / 10, 1000), torque_weight(d2, ring.max_radius as int), 1000) as i64,
            damaged,
            damage: if damaged { wave_damage(p, m, wave_mass(t.mass)) as i64 } else { 0 },
            fragment_velocity: match t.velocity {
                Some(v) => v,
                None => along(dir, min_of((p * 3) / 10, FRAGMENT_SPEED_CAP as int)),
            },
            blood_velocity: along(dir, min_of(p / 2, BLOOD_SPEED_CAP as int)),
            bleeds: t.kind is RagdollPart,
            wooden_fragments: t.kind is WoodenBox,
        }
    } else {
        WaveHit {
            id: t.id,
            in_window: false,
            pressure: 0,
            impulse: Point { x: 0, y: 0 },
            torque: 0,
            damaged: false,
            damage: 0,
            fragment_velocity: Point { x: 0, y: 0 },
            blood_velocity: Point { x: 0, y: 0 },
            bleeds: false,
            wooden_fragments: false,
        }
    }
}

fn scale_direction(dir: Point, len: i64) -> (r: Point)
    requires
        -1000 <= dir.x <= 1000,
        -1000 <= dir.y <= 1000,
        0 <= len <= 1_000_000_000_000_000,
    ensures
        r == along(dir, len as int),
{
    proof {
        assert((if dir.x >= 0 { dir.x as int } else { -dir.x }) * len <= 1000 * 1_000_000_000_000_000) by (nonlinear_arith)
            requires
                -1000 <= dir.x <= 1000,
                0 <= len <= 1_000_000_000_000_000,
        ;
        assert((if dir.y >= 0 { dir.y as int } else { -dir.y }) * len <= 1000 * 1_000_000_000_000_000) by (nonlinear_arith)
            requires
                -1000 <= dir.y <= 1000,
                0 <= len <= 1_000_000_000_000_000,
        ;
    }
    Point { x: mul_div_signed(dir.x, len, 1000), y: mul_div_signed(dir.y, len, 1000) }
}

/// The effect of a ring's tick on one body: see `wave_hit_of`.
pub fn wave_hit_on(
    ring: &ShockwaveRing,
    swept_from: i64,
    new_radius: i64,
    decay: i64,
    t: &WaveTarget,
    dt_ms: i64,
    torque_roll: i64,
) -> (h: WaveHit)
    requires
        ring.origin.in_world(),
        0 < ring.max_radius <= MAX_RADIUS,
        0 <= ring.peak_pressure <= MAX_PRESSURE,
        0 <= ring.wave_thickness <= MAX_RADIUS,
        0 <= swept_from <= 2 * MAX_RADIUS,
        0 <= new_radius <= ring.max_radius,
        0 <= decay <= 1000,
        t.wf(),
        0 <= dt_ms <= MAX_DT_MS,
        -1000 <= torque_roll <= 1000,
    ensures
        h == wave_hit_of(*ring, swept_from as int, new_radius as int, decay as int, *t, dt_ms as int, torque_roll as int),
        h.damage >= 0,
{
    let d2 = distance_sq(t.position, ring.origin);
    if !is_in_sweep_window(d2, swept_from, new_radius, ring.wave_thickness) {
        return WaveHit {
            id: t.id,
            in_window: false,
            pressure: 0,
            impulse: Point { x: 0, y: 0 },
            torque: 0,
            damaged: false,
            damage: 0,
            fragment_velocity: Point { x: 0, y: 0 },
            blood_velocity: Point { x: 0, y: 0 },
            bleeds: false,
            wooden_fragments: false,
        };
    }
    let dir = direction(t.position.x - ring.origin.x, t.position.y - ring.origin.y);
    let p = wave_pressure_at(ring.peak_pressure, decay, d2, ring.max_radius);
    let cs = if t.size < MIN_CROSS_SECTION { MIN_CROSS_SECTION } else { t.size };
    proof {
        assert(0 <= p * cs <= 1_000_000_000 * MAX_BODY_SIZE) by (nonlinear_arith)
            requires
                0 <= p <= 1_000_000_000,
                0 <= cs <= MAX_BODY_SIZE,
        ;
        assert(0 <= p * cs * dt_ms <= 1_000_000_000 * MAX_BODY_SIZE * MAX_DT_MS) by (nonlinear_arith)
            requires
                0 <= p * cs <= 1_000_000_000 * MAX_BODY_SIZE,
                0 <= dt_ms <= MAX_DT_MS,
        ;
        assert((p * cs * dt_ms) / 1000 <= 1_000_000_000 * MAX_BODY_SIZE) by (nonlinear_arith)
            requires
                0 <= p * cs * dt_ms <= 1_000_000_000 * MAX_BODY_SIZE * MAX_DT_MS,
        ;
    }
    let m = (p * cs * dt_ms) / 1000;
    let impulse = scale_direction(dir, m);
    // random spin, weighted down toward the largest radius
    let d = isqrt(d2) as i64;
    proof {
        assert(d * 1000 <= 3_000_000_000) by (nonlinear_arith)
            requires
                d * d <= d2,
                d2 <= 8 * MAX_COORD * MAX_COORD,
                d >= 0,
        ;
        assert((if torque_roll >= 0 { torque_roll as int } else { -torque_roll }) * (m / 10) <= 1000 * 1_000_000_000 * MAX_BODY_SIZE) by (nonlinear_arith)
            requires
                -1000 <= torque_roll <= 1000,
                0 <= m / 10 <= 1_000_000_000 * MAX_BODY_SIZE,
        ;
    }
    let f = (d * 1000) / ring.max_radius;
    let weight = 1000 - (if f > 1000 { 1000 } else { f });
    let spin = mul_div_signed(torque_roll, m / 10, 1000);
    proof {
        assert(-1_000_000_000 * MAX_BODY_SIZE <= spin <= 1_000_000_000 * MAX_BODY_SIZE) by (nonlinear_arith)
            requires
                spin == mul_div(torque_roll as int, m / 10, 1000),
                -1000 <= torque_roll <= 1000,
                0 <= m / 10 <= 1_000_000_000 * MAX_BODY_SIZE,
        ;
        assert((if spin >= 0 { spin as int } else { -spin }) * weight <= 1_000_000_000 * MAX_BODY_SIZE * 1000) by (nonlinear_arith)
            requires
                -1_000_000_000 * MAX_BODY_SIZE <= spin <= 1_000_000_000 * MAX_BODY_SIZE,
                0 <= weight <= 1000,
        ;
    }
    let torque = mul_div_signed(spin, weight, 1000);
    let damaged = is_blast_damageable(t.kind);
    let damage: i64 = if damaged {
        let mass: i64 = match t.mass {
            Some(mv) => if mv < MIN_WAVE_MASS { MIN_WAVE_MASS } else { mv },
            None => DEFAULT_MASS,
        };
        let v = (m * 1000) / mass;
        let vf = if v > 1000 { 1000 } else { v };
        proof {
            assert(0 <= (m * 1000) / (mass as int)) by (nonlinear_arith)
                requires
                    m >= 0,
                    mass > 0,
            ;
            assert(0 <= p * 8 * (1000 + 2 * vf) <= 1_000_000_000 * 8 * 3000) by (nonlinear_arith)
                requires
                    0 <= p <= 1_000_000_000,
                    0 <= vf <= 1000,
            ;
            assert(0 <= (p * 8 * (1000 + 2 * vf)) / 10000) by (nonlinear_arith)
                requires
                    0 <= p * 8 * (1000 + 2 * vf),
            ;
        }
        (p * 8 * (1000 + 2 * vf)) / 10000
    } else {
        0
    };
    let fragment_velocity = match t.velocity {
        Some(v) => v,
        None => {
            let cap = (p * 3) / 10;
            scale_direction(dir, if cap < FRAGMENT_SPEED_CAP { cap } else { FRAGMENT_SPEED_CAP })
        },
    };
    let half = p / 2;
    let blood_velocity = scale_direction(dir, if half < BLOOD_SPEED_CAP { half } else { BLOOD_SPEED_CAP });
    WaveHit {
        id: t.id,
        in_window: true,
        pressure: p,
        impulse,
        torque,
        damaged,
        damage,
        fragment_velocity,
        blood_velocity,
        bleeds: match t.kind {
            BodyKind::RagdollPart => true,
            _ => false,
        },
        wooden_fragments: match t.kind {
            BodyKind::WoodenBox => true,
            _ => false,
        },
    }
}

/// The slots after the first `n` wave hits that carry damage were applied.
pub open spec fn wave_world(s: Seq<Slot>, hits: Seq<WaveHit>, n: int) -> Seq<Slot>
    decreases n,
{
    if n <= 0 {
        s
    } else {
        let prev = wave_world(s, hits, n - 1);
        if hits[n - 1].damaged {
            body_hit(prev, hits[n - 1].id, hits[n - 1].damage as int)
        } else {
            prev
        }
    }
}

proof fn lemma_wave_world_prefix(s: Seq<Slot>, a: Seq<WaveHit>, b: Seq<WaveHit>, n: int)
    requires
        n <= a.len(),
        n <= b.len(),
        forall|k: int| 0 <= k < n ==> a[k] == b[k],
    ensures
        wave_world(s, a, n) == wave_world(s, b, n),
    decreases n,
{
    if n > 0 {
        lemma_wave_world_prefix(s, a, b, n - 1);
    }
}

/// One tick of a ring over the bodies of the world.
pub struct WaveTick {
    pub tick: RingTick,
    /// One entry per target, in order; empty when the ring expired.
    pub hits: Vec<WaveHit>,
    /// What the damage did to each target.
    pub outcomes: Vec<BodyOutcome>,
}

/// Advances `ring` by a tick and applies it to every target: each body in the
/// sweep window is pushed outward, and a ragdoll part or wooden box there
/// takes damage. `torque_rolls[i]` is the random spin drawn for `targets[i]`,
/// in parts per thousand. Bodies whose outcome is `Died` are to be
/// fragmented and despawned by the caller; an `Expired` ring is to be
/// despawned and hits nothing.
pub fn update_shockwave(
    world: &mut World,
    ring: &mut ShockwaveRing,
    targets: &Vec<WaveTarget>,
    dt_ms: i64,
    torque_rolls: &Vec<i64>,
) -> (r: WaveTick)
    requires
        old(world).wf(),
        old(ring).wf(),
        0 <= dt_ms <= MAX_DT_MS,
        targets.len() == torque_rolls.len(),
        forall|i: int| 0 <= i < targets.len() ==> (#[trigger] targets[i]).wf(),
        forall|i: int| 0 <= i < torque_rolls.len() ==> -1000 <= #[trigger] torque_rolls[i] <= 1000,
    ensures
        final(world).wf(),
        never_healed(old(world).view(), final(world).view()),
        r.tick == ring_tick_of(*old(ring), dt_ms as int),
        final(ring).current_radius == advanced_radius(*old(ring), dt_ms as int),
        final(ring).elapsed_ms == advanced_elapsed(*old(ring), dt_ms as int),
        final(ring).origin == old(ring).origin,
        final(ring).max_radius == old(ring).max_radius,
        final(ring).peak_pressure == old(ring).peak_pressure,
        final(ring).wave_speed == old(ring).wave_speed,
        final(ring).wave_thickness == old(ring).wave_thickness,
        final(ring).lifetime_ms == old(ring).lifetime_ms,
        r.tick is Swept ==> final(ring).wf(),
        r.tick is Expired ==> r.hits.len() == 0 && r.outcomes.len() == 0
            && final(world).view() == old(world).view(),
        r.tick matches RingTick::Swept { new_radius, decay, swept_from, .. } ==> {
            &&& r.hits.len() == targets.len()
            &&& r.outcomes.len() == targets.len()
            &&& forall|i: int| 0 <= i < targets.len() ==> #[trigger] r.hits[i] == wave_hit_of(
                *old(ring),
                swept_from as int,
                new_radius as int,
                decay as int,
                targets[i],
                dt_ms as int,
                torque_rolls[i] as int,
            )
            &&& forall|i: int| 0 <= i < targets.len() ==> #[trigger] r.outcomes[i] == (if r.hits[i].damaged {
                body_hit_outcome(wave_world(old(world).view(), r.hits@, i), r.hits[i].id, r.hits[i].damage as int)
            } else {
                BodyOutcome::Skipped
            })
            &&& final(world).view() == wave_world(old(world).view(), r.hits@, targets.len() as int)
        },
{
    let ghost start = *ring;
    let tick = ring.advance(dt_ms);
    proof {
        lemma_never_healed_refl(world.view());
    }
    let mut hits: Vec<WaveHit> = Vec::new();
    let mut outcomes: Vec<BodyOutcome> = Vec::new();
    match tick {
        RingTick::Expired => {},
        RingTick::Swept { new_radius, decay, swept_from, .. } => {
            let mut i: usize = 0;
            while i < targets.len()
                invariant
                    i <= targets.len(),
                    targets.len() == torque_rolls.len(),
                    hits.len() == i,
                    outcomes.len() == i,
                    world.wf(),
                    tick == ring_tick_of(start, dt_ms as int),
                    start.wf(),
                    ring.origin == start.origin,
                    ring.max_radius == start.max_radius,
                    ring.peak_pressure == start.peak_pressure,
                    ring.wave_thickness == start.wave_thickness,
                    0 <= swept_from <= 2 * MAX_RADIUS,
                    0 <= new_radius < ring.max_radius,
                    0 <= decay <= 1000,
                    0 <= dt_ms <= MAX_DT_MS,
                    forall|k: int| 0 <= k < targets.len() ==> (#[trigger] targets[k]).wf(),
                    forall|k: int| 0 <= k < torque_rolls.len() ==> -1000 <= #[trigger] torque_rolls[k] <= 1000,
                    forall|k: int| 0 <= k < i ==> #[trigger] hits[k] == wave_hit_of(
                        start,
                        swept_from as int,
                        new_radius as int,
                        decay as int,
                        targets[k],
                        dt_ms as int,
                        torque_rolls[k] as int,
                    ),
                    forall|k: int| 0 <= k < i ==> #[trigger] outcomes[k] == (if hits[k].damaged {
                        body_hit_outcome(wave_world(old(world).view(), hits@, k), hits[k].id, hits[k].damage as int)
                    } else {
                        BodyOutcome::Skipped
                    }),
                    world.view() == wave_world(old(world).view(), hits@, i as int),
                    never_healed(old(world).view(), world.view()),
                decreases targets.len() - i,
            {
                let t = targets[i];
                let h = wave_hit_on(ring, swept_from, new_radius, decay, &t, dt_ms, torque_rolls[i]);
                assert(h == wave_hit_of(start, swept_from as int, new_radius as int, decay as int, t, dt_ms as int, torque_rolls[i as int] as int));
                let ghost before_hit = world.view();
                let outcome = if h.damaged {
                    world.damage_body(h.id, h.damage)
                } else {
                    BodyOutcome::Skipped
                };
                proof {
                    lemma_never_healed_refl(world.view());
                    lemma_never_healed_trans(old(world).view(), before_hit, world.view());
                }
                let ghost before = hits@;
                hits.push(h);
                outcomes.push(outcome);
                proof {
                    assert forall|k: int| 0 <= k <= i implies wave_world(old(world).view(), before, k)
                        == wave_world(old(world).view(), hits@, k) by {
                        lemma_wave_world_prefix(old(world).view(), before, hits@, k);
                    };
                }
                i += 1;
            }
        },
    }
    WaveTick { tick, hits, outcomes }
}

/// The radii a ring reports tick after tick, from its spawn at radius zero:
/// never negative and never shrinking.
pub open spec fn ring_radii(radii: Seq<int>) -> bool {
    &&& radii.len() >= 2
    &&& radii[0] == 0
    &&& forall|i: int, j: int| 0 <= i <= j < radii.len() ==> 0 <= #[trigger] radii[i] <= #[trigger] radii[j]
}

/// Where tick `k`'s sweep window starts: nothing is swept before the first
/// tick, and each later tick starts where the previous one's outer edge
/// `radius + thickness` ended (`ShockwaveRing::swept_to`).
pub open spec fn swept_from_at(radii: Seq<int>, thickness: int, k: int) -> int {
    if k <= 1 { 0 } else { radii[k - 1] + thickness }
}

/// Tick `k` (from one) of a ring with these radii hits a body, or a joint,
/// at squared distance `d2`.
pub open spec fn swept_on(radii: Seq<int>, thickness: int, d2: int, k: int) -> bool {
    1 <= k < radii.len() && in_sweep_window(d2, swept_from_at(radii, thickness, k), radii[k], thickness)
}

proof fn lemma_square_grows(a: int, b: int)
    requires
        0 <= a <= b,
    ensures
        a * a <= b * b,
{
    assert(a * a <= b * b) by (nonlinear_arith)
        requires
            0 <= a <= b,
    ;
}

proof fn lemma_some_tick_sweeps(radii: Seq<int>, thickness: int, d2: int, k: int)
    requires
        ring_radii(radii),
        thickness >= 0,
        1 <= k < radii.len(),
        swept_from_at(radii, thickness, k) * swept_from_at(radii, thickness, k) <= d2,
        d2 < (radii.last() + thickness) * (radii.last() + thickness),
    ensures
        exists|j: int| swept_on(radii, thickness, d2, j),
    decreases radii.len() - k,
{
    if d2 < (radii[k] + thickness) * (radii[k] + thickness) {
        assert(swept_on(radii, thickness, d2, k));
    } else if k == radii.len() - 1 {
        assert(radii.last() == radii[k]);
    } else {
        assert(swept_from_at(radii, thickness, k + 1) == radii[k] + thickness);
        lemma_some_tick_sweeps(radii, thickness, d2, k + 1);
    }
}

/// A body (or joint) that stays put at squared distance `d2` from a ring's
/// origin, within the outer edge the ring finally reaches, is hit on exactly
/// one tick of the ring's life: the first whose window
/// `[previous radius, radius + thickness)` holds it. Later windows start
/// where the earlier ones ended, so none holds it again.
pub proof fn lemma_sweep_once(radii: Seq<int>, thickness: int, d2: int)
    requires
        ring_radii(radii),
        thickness >= 0,
        0 <= d2 < (radii.last() + thickness) * (radii.last() + thickness),
    ensures
        exists|k: int| swept_on(radii, thickness, d2, k),
        forall|j: int, k: int|
            swept_on(radii, thickness, d2, j) && swept_on(radii, thickness, d2, k) ==> j == k,
{
    lemma_some_tick_sweeps(radii, thickness, d2, 1);
    assert forall|j: int, k: int|
        swept_on(radii, thickness, d2, j) && swept_on(radii, thickness, d2, k) implies j == k by {
        if j < k {
            assert(0 <= radii[j] <= radii[k - 1]);
            lemma_square_grows(radii[j] + thickness, radii[k - 1] + thickness);
        } else if k < j {
            assert(0 <= radii[k] <= radii[j - 1]);
            lemma_square_grows(radii[k] + thickness, radii[j - 1] + thickness);
        }
    };
}

/// The old radius, new radius and start of the sweep window of a tick.
pub open spec fn tick_window(t: RingTick) -> (int, int, int) {
    match t {
        RingTick::Swept { old_radius, new_radius, swept_from, .. } => (old_radius as int, new_radius as int, swept_from as int),
        RingTick::Expired => (0, 0, 0),
    }
}

/// The states of a ring from its spawn and the ticks between them, as
/// `advance` (and so `update_shockwave`) ensures them: `ticks[k]` took
/// `rings[k]` to `rings[k + 1]`, and every tick swept.
pub open spec fn ring_history(rings: Seq<ShockwaveRing>, ticks: Seq<RingTick>) -> bool {
    &&& rings.len() == ticks.len() + 1
    &&& rings[0].current_radius == 0
    &&& rings[0].swept_to == 0
    &&& rings[0].wave_thickness >= 0
    &&& forall|k: int| 0 <= k < ticks.len() ==> {
        &&& (#[trigger] ticks[k]) is Swept
        &&& tick_window(ticks[k]) == (
            rings[k].current_radius as int,
            rings[k + 1].current_radius as int,
            rings[k].swept_to as int,
        )
        &&& rings[k].current_radius <= rings[k + 1].current_radius
        &&& rings[k + 1].wave_thickness == rings[k].wave_thickness
        &&& rings[k + 1].swept_to == rings[k + 1].current_radius + rings[k + 1].wave_thickness
    }
}

/// Tick `k` (from zero) of the history hits a body at squared distance `d2`.
pub open spec fn hit_on_tick(ticks: Seq<RingTick>, thickness: int, d2: int, k: int) -> bool {
    0 <= k < ticks.len() && in_sweep_window(d2, tick_window(ticks[k]).2, tick_window(ticks[k]).1, thickness)
}

proof fn lemma_history_grows(rings: Seq<ShockwaveRing>, ticks: Seq<RingTick>, i: int, j: int)
    requires
        ring_history(rings, ticks),
        0 <= i <= j < rings.len(),
    ensures
        rings[i].current_radius <= rings[j].current_radius,
        rings[j].wave_thickness == rings[i].wave_thickness,
    decreases j - i,
{
    if i < j {
        lemma_history_grows(rings, ticks, i, j - 1);
        assert(ticks[j - 1] is Swept);
    }
}

/// Over the whole life of a ring, as the ticks of `update_shockwave` report
/// it, a body that stays put within the outer edge the ring finally reaches
/// lies in the sweep window of exactly one tick, so it is pushed and damaged
/// on that tick alone.
pub proof fn lemma_ring_sweeps_once(rings: Seq<ShockwaveRing>, ticks: Seq<RingTick>, d2: int)
    requires
        ring_history(rings, ticks),
        ticks.len() >= 1,
        0 <= d2,
        d2 < (rings.last().current_radius + rings[0].wave_thickness) * (rings.last().current_radius + rings[0].wave_thickness),
    ensures
        exists|k: int| hit_on_tick(ticks, rings[0].wave_thickness as int, d2, k),
        forall|j: int, k: int|
            hit_on_tick(ticks, rings[0].wave_thickness as int, d2, j)
                && hit_on_tick(ticks, rings[0].wave_thickness as int, d2, k) ==> j == k,
{
    let t = rings[0].wave_thickness as int;
    let radii = Seq::new(rings.len(), |i: int| rings[i].current_radius as int);
    assert forall|i: int, j: int| 0 <= i <= j < radii.len() implies 0 <= #[trigger] radii[i] <= #[trigger] radii[j] by {
        lemma_history_grows(rings, ticks, 0, i);
        lemma_history_grows(rings, ticks, i, j);
    };
    assert(ring_radii(radii));
    assert(radii.last() == rings.last().current_radius);
    assert forall|k: int| 0 <= k < ticks.len() implies
        (#[trigger] hit_on_tick(ticks, t, d2, k)) == swept_on(radii, t, d2, k + 1) by {
        assert(ticks[k] is Swept);
        lemma_history_grows(rings, ticks, 0, k);
        if k >= 1 {
            assert(ticks[k - 1] is Swept);
            assert(rings[k].swept_to == rings[k].current_radius + t);
        }
        assert(swept_from_at(radii, t, k + 1) == rings[k].swept_to);
    };
    lemma_sweep_once(radii, t, d2);
    let k0 = choose|k: int| swept_on(radii, t, d2, k);
    assert(hit_on_tick(ticks, t, d2, k0 - 1));
    assert forall|j: int, k: int| hit_on_tick(ticks, t, d2, j) && hit_on_tick(ticks, t, d2, k) implies j == k by {
        assert(swept_on(radii, t, d2, j + 1));
        assert(swept_on(radii, t, d2, k + 1));
    };
}

/// A tick's sweep window lies within `[old_radius, new_radius + thickness)`:
/// it starts no nearer than the radius the ring had before the tick.
pub proof fn lemma_window_within_wavefront(d2: int, swept_from: int, old_radius: int, new_radius: int, thickness: int)
    requires
        0 <= old_radius <= swept_from,
        in_sweep_window(d2, swept_from, new_radius, thickness),
    ensures
        old_radius * old_radius <= d2 < (new_radius + thickness) * (new_radius + thickness),
{
    lemma_square_grows(old_radius, swept_from);
}

/// Damage a ring deals to a joint at `position` on the tick whose sweep
/// window is `[swept_from, new_radius + thickness)`, in milli-hit-points:
/// `JOINT_DAMAGE_PER_PRESSURE` per unit of undecayed pressure while the joint
/// lies in that window; `None` elsewhere. Joints are hit on the same windows
/// as bodies, so each is hit on one tick of a ring's life (`lemma_sweep_once`).
pub open spec fn wave_joint_damage_of(ring: ShockwaveRing, swept_from: int, new_radius: int, position: Point) -> Option<i64> {
    let d2 = dist_sq(position, ring.origin);
    if in_sweep_window(d2, swept_from, new_radius, ring.wave_thickness as int) {
        Some((wave_pressure(ring.peak_pressure as int, 1000, d2, ring.max_radius as int) * JOINT_DAMAGE_PER_PRESSURE) as i64)
    } else {
        None
    }
}

pub fn wave_joint_damage(ring: &ShockwaveRing, swept_from: i64, new_radius: i64, position: Point) -> (r: Option<i64>)
    requires
        ring.origin.in_world(),
        0 < ring.max_radius <= MAX_RADIUS,
        0 <= ring.peak_pressure <= MAX_PRESSURE,
        0 <= ring.wave_thickness <= MAX_RADIUS,
        0 <= swept_from <= 2 * MAX_RADIUS,
        0 <= new_radius <= ring.max_radius,
        position.in_world(),
    ensures
        r == wave_joint_damage_of(*ring, swept_from as int, new_radius as int, position),
        r is Some <==> in_sweep_window(
            dist_sq(position, ring.origin),
            swept_from as int,
            new_radius as int,
            ring.wave_thickness as int,
        ),
        r matches Some(d) ==> d >= 0,
{
    let d2 = distance_sq(position, ring.origin);
    if is_in_sweep_window(d2, swept_from, new_radius, ring.wave_thickness) {
        let p = wave_pressure_at(ring.peak_pressure, 1000, d2, ring.max_radius);
        Some(p * JOINT_DAMAGE_PER_PRESSURE)
    } else {
        None
    }
}

/// A jointed ragdoll part that a ring may reach.
#[derive(Clone, Copy, Debug, PartialEq, Eq, Structural)]
pub struct JointTarget {
    pub child: EntityId,
    pub position: Point,
}

/// The hit of a ring on the joint of a part, with no blood direction.
pub open spec fn wave_joint_hit_of(ring: ShockwaveRing, swept_from: int, new_radius: int, t: JointTarget) -> Option<JointHit> {
    match wave_joint_damage_of(ring, swept_from, new_radius, t.position) {
        Some(d) => Some(JointHit { child: t.child, damage: d, blood_velocity: Point { x: 0, y: 0 } }),
        None => None,
    }
}

/// Joint damage from the tick of a ring whose sweep window is
/// `[swept_from, new_radius + thickness)` (as `RingTick::Swept` reports it),
/// applied to the world: `hits[i]` is `wave_joint_hit_of(..., targets[i])`.
/// A joint outside the sweep window is not touched.
pub fn shockwave_joint_damage(
    world: &mut World,
    ring: &ShockwaveRing,
    swept_from: i64,
    new_radius: i64,
    targets: &Vec<JointTarget>,
) -> (r: JointDamageReport)
    requires
        old(world).wf(),
        ring.origin.in_world(),
        0 < ring.max_radius <= MAX_RADIUS,
        0 <= ring.peak_pressure <= MAX_PRESSURE,
        0 <= ring.wave_thickness <= MAX_RADIUS,
        0 <= swept_from <= 2 * MAX_RADIUS,
        0 <= new_radius <= ring.max_radius,
        forall|i: int| 0 <= i < targets.len() ==> (#[trigger] targets[i]).position.in_world(),
    ensures
        final(world).wf(),
        never_healed(old(world).view(), final(world).view()),
        r.hits.len() == targets.len(),
        forall|i: int| 0 <= i < targets.len() ==> #[trigger] r.hits[i] == wave_joint_hit_of(
            *ring,
            swept_from as int,
            new_radius as int,
            targets[i],
        ),
        forall|i: int| 0 <= i < targets.len() && !in_sweep_window(
            dist_sq(targets[i].position, ring.origin),
            swept_from as int,
            new_radius as int,
            ring.wave_thickness as int,
        ) ==> #[trigger] r.hits[i] is None && r.outcomes[i] == JointOutcome::Skipped,
        r.outcomes.len() == targets.len(),
        forall|i: int| 0 <= i < targets.len() ==> #[trigger] r.outcomes[i] == match r.hits[i] {
            Some(h) => joint_hit_outcome(joints_world(old(world).view(), r.hits@, i), h.child, h.damage as int),
            None => JointOutcome::Skipped,
        },
        final(world).view() == joints_world(old(world).view(), r.hits@, targets.len() as int),
{
    let mut hits: Vec<Option<JointHit>> = Vec::new();
    let mut i: usize = 0;
    while i < targets.len()
        invariant
            i <= targets.len(),
            hits.len() == i,
            ring.origin.in_world(),
            0 < ring.max_radius <= MAX_RADIUS,
            0 <= ring.peak_pressure <= MAX_PRESSURE,
            0 <= ring.wave_thickness <= MAX_RADIUS,
            0 <= swept_from <= 2 * MAX_RADIUS,
        0 <= new_radius <= ring.max_radius,
            forall|k: int| 0 <= k < targets.len() ==> (#[trigger] targets[k]).position.in_world(),
            forall|k: int| 0 <= k < i ==> #[trigger] hits[k] == wave_joint_hit_of(
                *ring,
                swept_from as int,
                new_radius as int,
                targets[k],
            ),
            hits_wf(hits@),
        decreases targets.len() - i,
    {
        let t = targets[i];
        let h = match wave_joint_damage(ring, swept_from, new_radius, t.position) {
            Some(d) => Some(JointHit { child: t.child, damage: d, blood_velocity: Point { x: 0, y: 0 } }),
            None => None,
        };
        hits.push(h);
        i += 1;
    }
    let outcomes = apply_joint_hits(world, &hits);
    JointDamageReport { hits, outcomes }
}

} // verus!
