//! Health of bodies and of the joints between them.
use vstd::prelude::*;

verus! {

/// Largest health a body or a joint may be created with, in milli-hit-points.
pub const MAX_HEALTH: i64 = 1_000_000_000_000;

/// Health after `damage` is taken from `current`; it bottoms out at the
/// smallest `i64` instead of wrapping.
pub open spec fn after_damage(current: int, damage: int) -> int {
    if current - damage < i64::MIN {
        i64::MIN as int
    } else {
        current - damage
    }
}

/// How badly a joint at `current` out of `max` health is fractured, in parts
/// per thousand: `1000 - 1000 * current / max`.
pub open spec fn severity_of(current: int, max: int) -> int {
    1000 - (1000 * current) / max
}

/// Takes `damage` from `current`, saturating at the smallest `i64`.
pub fn subtract_damage(current: i64, damage: i64) -> (r: i64)
    requires
        damage >= 0,
    ensures
        r == after_damage(current as int, damage as int),
        r <= current,
{
    if current < i64::MIN + damage {
        i64::MIN
    } else {
        current - damage
    }
}

/// Health of a damageable body.
#[derive(Clone, Copy, Debug, PartialEq, Eq, Structural)]
pub struct Health {
    pub current: i64,
    pub max: i64,
}

impl Health {
    pub open spec fn wf(&self) -> bool {
        0 < self.max <= MAX_HEALTH && self.current <= self.max
    }

    pub open spec fn dead(&self) -> bool {
        self.current <= 0
    }

    /// Full health of `max` milli-hit-points.
    pub fn new(max: i64) -> (r: Health)
        requires
            0 < max <= MAX_HEALTH,
        ensures
            r.current == max,
            r.max == max,
            r.wf(),
    {
        Health { current: max, max }
    }

    /// A body at or below zero health is dead and must be despawned.
    pub fn is_dead(&self) -> (r: bool)
        ensures
            r == self.dead(),
    {
        self.current <= 0
    }

    /// Takes `damage` off the current health; returns whether the body is now dead.
    pub fn apply_damage(&mut self, damage: i64) -> (r: bool)
        requires
            damage >= 0,
        ensures
            final(self).current == after_damage(old(self).current as int, damage as int),
            final(self).current <= old(self).current,
            final(self).max == old(self).max,
            old(self).wf() ==> final(self).wf(),
            r == final(self).dead(),
    {
        self.current = subtract_damage(self.current, damage);
        self.current <= 0
    }
}

/// Handle of a body in the world.
#[derive(Clone, Copy, Debug, PartialEq, Eq, Hash, Structural)]
pub struct EntityId {
    pub index: u32,
}

/// Health of an articulated connection, independent of the health of the
/// bodies it links. It lives on the child body; `parent` is the other end.
#[derive(Clone, Copy, Debug, PartialEq, Eq, Structural)]
pub struct JointHealth {
    pub current: i64,
    pub max: i64,
    pub parent: EntityId,
}

/// What a hit did to a joint.
#[derive(Clone, Copy, Debug, PartialEq, Eq, Structural)]
pub enum JointOutcome {
    /// The joint or its body no longer exists: nothing was done.
    Skipped,
    /// Still holding at half health or more.
    Intact,
    /// Below half health; the severity is in parts per thousand.
    Fractured(u32),
    /// Health reached zero: the joint is to be removed.
    Severed,
}

/// Outcome of a joint left at `current` out of `max` health.
pub open spec fn joint_outcome_of(current: int, max: int) -> JointOutcome {
    if current <= 0 {
        JointOutcome::Severed
    } else if 2 * current < max {
        JointOutcome::Fractured(severity_of(current, max) as u32)
    } else {
        JointOutcome::Intact
    }
}

impl JointHealth {
    pub open spec fn wf(&self) -> bool {
        0 < self.max <= MAX_HEALTH && self.current <= self.max
    }

    /// A joint at full health `max` whose other end is `parent`.
    pub fn new(max: i64, parent: EntityId) -> (r: JointHealth)
        requires
            0 < max <= MAX_HEALTH,
        ensures
            r.current == max,
            r.max == max,
            r.parent == parent,
            r.wf(),
    {
        JointHealth { current: max, max, parent }
    }

    /// Classifies the joint's present health.
    pub fn outcome(&self) -> (r: JointOutcome)
        requires
            self.wf(),
        ensures
            r == joint_outcome_of(self.current as int, self.max as int),
            r matches JointOutcome::Fractured(s) ==> 500 < s <= 1000,
    {
        if self.current <= 0 {
            JointOutcome::Severed
        } else if self.current < self.max - self.current {
            let s = 1000 - (1000 * self.current) / self.max;
            assert((1000 * (self.current as int)) / (self.max as int) < 500) by (nonlinear_arith)
                requires
                    0 < self.current,
                    2 * self.current < self.max,
            ;
            assert((1000 * (self.current as int)) / (self.max as int) >= 0) by (nonlinear_arith)
                requires
                    0 < self.current,
                    0 < self.max,
            ;
            JointOutcome::Fractured(s as u32)
        } else {
            JointOutcome::Intact
        }
    }

    /// Takes `damage` off the joint and says whether it holds, is fractured
    /// or is severed.
    pub fn apply_damage(&mut self, damage: i64) -> (r: JointOutcome)
        requires
            old(self).wf(),
            damage >= 0,
        ensures
            final(self).current == after_damage(old(self).current as int, damage as int),
            final(self).current <= old(self).current,
            final(self).max == old(self).max,
            final(self).parent == old(self).parent,
            final(self).wf(),
            r == joint_outcome_of(final(self).current as int, final(self).max as int),
    {
        self.current = subtract_damage(self.current, damage);
        self.outcome()
    }
}

/// Health never rises when a non-negative amount of damage is taken.
pub proof fn lemma_damage_never_heals(current: int, damage: int)
    requires
        damage >= 0,
        i64::MIN <= current <= i64::MAX,
    ensures
        after_damage(current, damage) <= current,
{
}

} // verus!
