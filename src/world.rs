//! The registry of bodies: an arena of slots addressed by `EntityId`, each
//! holding the body's health and, for a jointed body, the joint to its parent.
//!
//! A handle to a body that is gone is never an error: queries answer "absent"
//! and commands on it do nothing.
use vstd::prelude::*;
use crate::health::{
    after_damage, joint_outcome_of, EntityId, Health, JointHealth, JointOutcome,
};

verus! {

/// One body of the world.
#[derive(Clone, Copy, Debug)]
pub struct Slot {
    pub alive: bool,
    pub health: Option<Health>,
    /// The joint that holds this body to its parent, while it holds.
    pub joint: Option<JointHealth>,
    /// Fracture severity of the joint, in parts per thousand, once it fell
    /// below half health.
    pub fracture: Option<u32>,
}

/// What is left of a slot after its body was despawned.
pub open spec fn dead_slot() -> Slot {
    Slot { alive: false, health: None, joint: None, fracture: None }
}

pub open spec fn slot_wf(slot: Slot) -> bool {
    &&& (slot.health matches Some(h) ==> h.wf())
    &&& (slot.joint matches Some(j) ==> j.wf())
}

pub open spec fn is_alive_in(s: Seq<Slot>, e: EntityId) -> bool {
    e.index < s.len() && s[e.index as int].alive
}

/// The slots after a request to despawn `e`: a body that is already gone is
/// left as it is.
pub open spec fn despawned(s: Seq<Slot>, e: EntityId) -> Seq<Slot> {
    if is_alive_in(s, e) {
        s.update(e.index as int, dead_slot())
    } else {
        s
    }
}

/// The slots after the requests of `batch`, in order.
pub open spec fn despawned_all(s: Seq<Slot>, batch: Seq<EntityId>) -> Seq<Slot>
    decreases batch.len(),
{
    if batch.len() == 0 {
        s
    } else {
        despawned(despawned_all(s, batch.drop_last()), batch.last())
    }
}

/// A slot whose joint took `damage`.
pub open spec fn slot_after_joint_hit(slot: Slot, damage: int) -> Slot
    recommends
        slot.joint is Some,
{
    let j = slot.joint.unwrap();
    let c = after_damage(j.current as int, damage);
    let hit = JointHealth { current: c as i64, ..j };
    match joint_outcome_of(c, j.max as int) {
        JointOutcome::Severed => Slot { joint: None, ..slot },
        JointOutcome::Fractured(sev) => Slot { joint: Some(hit), fracture: Some(sev), ..slot },
        _ => Slot { joint: Some(hit), ..slot },
    }
}

/// A slot whose body took `damage`.
pub open spec fn slot_after_body_hit(slot: Slot, damage: int) -> Slot
    recommends
        slot.health is Some,
{
    let h = slot.health.unwrap();
    Slot { health: Some(Health { current: after_damage(h.current as int, damage) as i64, ..h }), ..slot }
}

/// What a hit did to a body.
#[derive(Clone, Copy, Debug, PartialEq, Eq, Structural)]
pub enum BodyOutcome {
    /// The body is gone, has no health, or is already dead: nothing was done.
    Skipped,
    /// The body took the damage and lives.
    Alive,
    /// The body's health reached zero: it is to be despawned.
    Died,
}

pub struct World {
    pub slots: Vec<Slot>,
}

impl World {
    pub open spec fn view(&self) -> Seq<Slot> {
        self.slots@
    }

    pub open spec fn wf(&self) -> bool {
        forall|i: int| 0 <= i < self.slots@.len() ==> slot_wf(#[trigger] self.slots@[i])
    }

    pub fn new() -> (r: World)
        ensures
            r.view() == Seq::<Slot>::empty(),
            r.wf(),
    {
        World { slots: Vec::new() }
    }

    /// Adds a living body with the given health.
    pub fn spawn(&mut self, health: Option<Health>) -> (r: EntityId)
        requires
            old(self).wf(),
            old(self).view().len() < u32::MAX,
            health matches Some(h) ==> h.wf(),
        ensures
            final(self).wf(),
            r.index == old(self).view().len(),
            final(self).view() == old(self).view().push(
                Slot { alive: true, health, joint: None, fracture: None },
            ),
    {
        let index = self.slots.len() as u32;
        self.slots.push(Slot { alive: true, health, joint: None, fracture: None });
        EntityId { index }
    }

    pub fn is_alive(&self, e: EntityId) -> (r: bool)
        ensures
            r == is_alive_in(self.view(), e),
    {
        (e.index as usize) < self.slots.len() && self.slots[e.index as usize].alive
    }

    /// Health of a living body; `None` for a body without health or one that is gone.
    pub fn health(&self, e: EntityId) -> (r: Option<Health>)
        ensures
            r == (if is_alive_in(self.view(), e) {
                self.view()[e.index as int].health
            } else {
                None
            }),
    {
        if self.is_alive(e) {
            self.slots[e.index as usize].health
        } else {
            None
        }
    }

    /// The joint that holds a living body, if any.
    pub fn joint(&self, e: EntityId) -> (r: Option<JointHealth>)
        ensures
            r == (if is_alive_in(self.view(), e) {
                self.view()[e.index as int].joint
            } else {
                None
            }),
    {
        if self.is_alive(e) {
            self.slots[e.index as usize].joint
        } else {
            None
        }
    }

    /// Removes a body. Returns whether it was alive; despawning a body that
    /// is already gone changes nothing.
    pub fn despawn(&mut self, e: EntityId) -> (removed: bool)
        requires
            old(self).wf(),
        ensures
            final(self).wf(),
            removed == is_alive_in(old(self).view(), e),
            final(self).view() == despawned(old(self).view(), e),
    {
        if self.is_alive(e) {
            self.slots.set(e.index as usize, Slot { alive: false, health: None, joint: None, fracture: None });
            true
        } else {
            false
        }
    }

    /// Applies a tick's despawn requests in order. Returns the bodies that
    /// were removed, each once, however often it was requested.
    pub fn despawn_batch(&mut self, batch: &Vec<EntityId>) -> (removed: Vec<EntityId>)
        requires
            old(self).wf(),
        ensures
            final(self).wf(),
            final(self).view() == despawned_all(old(self).view(), batch@),
            removed@.no_duplicates(),
            forall|e: EntityId| removed@.contains(e) <==> (batch@.contains(e) && is_alive_in(old(self).view(), e)),
    {
        let mut removed: Vec<EntityId> = Vec::new();
        let mut i: usize = 0;
        while i < batch.len()
            invariant
                i <= batch.len(),
                self.wf(),
                self.view() == despawned_all(old(self).view(), batch@.take(i as int)),
                self.view().len() == old(self).view().len(),
                removed@.no_duplicates(),
                forall|e: EntityId| removed@.contains(e) ==> !is_alive_in(self.view(), e),
                forall|e: EntityId| removed@.contains(e) <==> (batch@.take(i as int).contains(e) && is_alive_in(old(self).view(), e)),
                forall|e: EntityId| !batch@.take(i as int).contains(e) ==>
                    (is_alive_in(self.view(), e) == is_alive_in(old(self).view(), e)),
                forall|e: EntityId| batch@.take(i as int).contains(e) ==> !is_alive_in(self.view(), e),
            decreases batch.len() - i,
        {
            let e = batch[i];
            proof {
                assert(batch@.take(i as int + 1).drop_last() == batch@.take(i as int));
                assert(batch@.take(i as int + 1).last() == e);
                assert forall|x: EntityId| batch@.take(i as int + 1).contains(x) <==> (batch@.take(i as int).contains(x) || x == e) by {
                    if batch@.take(i as int + 1).contains(x) {
                        let k = choose|k: int| 0 <= k < i + 1 && #[trigger] batch@.take(i as int + 1)[k] == x;
                        if k < i {
                            assert(batch@.take(i as int)[k] == x);
                        }
                    }
                    if batch@.take(i as int).contains(x) {
                        let k = choose|k: int| 0 <= k < i && #[trigger] batch@.take(i as int)[k] == x;
                        assert(batch@.take(i as int + 1)[k] == x);
                    }
                    if x == e {
                        assert(batch@.take(i as int + 1)[i as int] == x);
                    }
                };
            }
            let ghost before = self.view();
            let ghost removed_before = removed@;
            let was_alive = self.despawn(e);
            proof {
                assert forall|x: EntityId| is_alive_in(self.view(), x) == (is_alive_in(before, x) && x != e) by {
                    if x != e {
                        assert(x.index != e.index);
                    }
                };
            }
            if was_alive {
                removed.push(e);
                proof {
                    assert(!removed_before.contains(e));
                    assert forall|x: EntityId| removed@.contains(x) <==> (removed_before.contains(x) || x == e) by {
                        if removed@.contains(x) && x != e {
                            let k = choose|k: int| 0 <= k < removed@.len() && #[trigger] removed@[k] == x;
                            assert(removed_before[k] == x);
                        }
                        if removed_before.contains(x) {
                            let k = choose|k: int| 0 <= k < removed_before.len() && #[trigger] removed_before[k] == x;
                            assert(removed@[k] == x);
                        }
                        if x == e {
                            assert(removed@[removed@.len() - 1] == x);
                        }
                    };
                }
            }
            proof {
                if !was_alive {
                    assert(removed@ == removed_before);
                }
                assert forall|x: EntityId| removed@.contains(x) implies !is_alive_in(self.view(), x) by {
                    if x != e {
                        assert(removed_before.contains(x));
                    }
                };
                assert forall|x: EntityId| batch@.take(i as int + 1).contains(x) implies !is_alive_in(self.view(), x) by {
                    if x != e {
                        assert(batch@.take(i as int).contains(x));
                        assert(!is_alive_in(before, x));
                        assert(x.index != e.index);
                    } else {
                        assert(!is_alive_in(self.view(), e));
                    }
                };
                assert forall|x: EntityId| !batch@.take(i as int + 1).contains(x) implies
                    is_alive_in(self.view(), x) == is_alive_in(old(self).view(), x) by {
                    assert(!batch@.take(i as int).contains(x));
                };
                assert forall|x: EntityId| removed@.contains(x) <==> (batch@.take(i as int + 1).contains(x)
                    && is_alive_in(old(self).view(), x)) by {
                    if x != e {
                        assert(removed@.contains(x) == removed_before.contains(x));
                    } else if !batch@.take(i as int).contains(x) {
                        assert(is_alive_in(before, x) == is_alive_in(old(self).view(), x));
                    }
                };
            }
            i += 1;
        }
        assert(batch@.take(batch.len() as int) == batch@);
        removed
    }

    /// Gives a living body a joint of full health `max` to `parent`.
    pub fn attach_joint(&mut self, child: EntityId, parent: EntityId, max: i64) -> (attached: bool)
        requires
            old(self).wf(),
            0 < max <= crate::health::MAX_HEALTH,
        ensures
            final(self).wf(),
            attached == is_alive_in(old(self).view(), child),
            final(self).view() == (if attached {
                old(self).view().update(
                    child.index as int,
                    Slot {
                        joint: Some(JointHealth { current: max, max, parent }),
                        ..old(self).view()[child.index as int]
                    },
                )
            } else {
                old(self).view()
            }),
    {
        if self.is_alive(child) {
            let slot = self.slots[child.index as usize];
            self.slots.set(child.index as usize, Slot { joint: Some(JointHealth::new(max, parent)), ..slot });
            true
        } else {
            false
        }
    }

    /// Damages the joint that holds `child`. A severed joint is removed; a
    /// fractured one gets its severity recorded. A body that is gone, or has
    /// no joint, is skipped. No other slot, and no body's health, changes.
    pub fn damage_joint(&mut self, child: EntityId, damage: i64) -> (r: JointOutcome)
        requires
            old(self).wf(),
            damage >= 0,
        ensures
            final(self).wf(),
            never_healed(old(self).view(), final(self).view()),
            r == joint_hit_outcome(old(self).view(), child, damage as int),
            final(self).view() == joint_hit(old(self).view(), child, damage as int),
    {
        if !self.is_alive(child) {
            return JointOutcome::Skipped;
        }
        let slot = self.slots[child.index as usize];
        match slot.joint {
            None => JointOutcome::Skipped,
            Some(j) => {
                let mut j = j;
                assert(slot_wf(self.slots@[child.index as int]));
                let r = j.apply_damage(damage);
                let next = match r {
                    JointOutcome::Severed => Slot { joint: None, ..slot },
                    JointOutcome::Fractured(sev) => Slot { joint: Some(j), fracture: Some(sev), ..slot },
                    _ => Slot { joint: Some(j), ..slot },
                };
                self.slots.set(child.index as usize, next);
                r
            },
        }
    }

    /// Damages a living body's health. The body is not despawned here: a
    /// `Died` outcome asks the caller to queue it for the tick's batch.
    pub fn damage_body(&mut self, e: EntityId, damage: i64) -> (r: BodyOutcome)
        requires
            old(self).wf(),
            damage >= 0,
        ensures
            final(self).wf(),
            never_healed(old(self).view(), final(self).view()),
            r == body_hit_outcome(old(self).view(), e, damage as int),
            final(self).view() == body_hit(old(self).view(), e, damage as int),
    {
        if !self.is_alive(e) {
            return BodyOutcome::Skipped;
        }
        let slot = self.slots[e.index as usize];
        match slot.health {
            None => BodyOutcome::Skipped,
            Some(h) => {
                if h.current <= 0 {
                    return BodyOutcome::Skipped;
                }
                let mut h = h;
                assert(slot_wf(self.slots@[e.index as int]));
                let dead = h.apply_damage(damage);
                self.slots.set(e.index as usize, Slot { health: Some(h), ..slot });
                if dead {
                    BodyOutcome::Died
                } else {
                    BodyOutcome::Alive
                }
            },
        }
    }
}

/// No body's health and no joint's health is higher in `after` than in
/// `before`, and nothing that had none gained any.
pub open spec fn never_healed(before: Seq<Slot>, after: Seq<Slot>) -> bool {
    &&& after.len() == before.len()
    &&& forall|i: int| 0 <= i < after.len() ==> {
        &&& ((#[trigger] after[i]).health is Some ==> before[i].health is Some
            && after[i].health.unwrap().current <= before[i].health.unwrap().current)
        &&& (after[i].joint is Some ==> before[i].joint is Some
            && after[i].joint.unwrap().current <= before[i].joint.unwrap().current)
    }
}

pub proof fn lemma_never_healed_refl(s: Seq<Slot>)
    ensures
        never_healed(s, s),
{
}

pub proof fn lemma_never_healed_trans(a: Seq<Slot>, b: Seq<Slot>, c: Seq<Slot>)
    requires
        never_healed(a, b),
        never_healed(b, c),
    ensures
        never_healed(a, c),
{
    assert forall|i: int| 0 <= i < c.len() implies {
        &&& ((#[trigger] c[i]).health is Some ==> a[i].health is Some
            && c[i].health.unwrap().current <= a[i].health.unwrap().current)
        &&& (c[i].joint is Some ==> a[i].joint is Some
            && c[i].joint.unwrap().current <= a[i].joint.unwrap().current)
    } by {
        assert(b[i] == b[i]);
    };
}

/// Whether `e` is a living body held by a joint.
pub open spec fn has_joint(s: Seq<Slot>, e: EntityId) -> bool {
    is_alive_in(s, e) && s[e.index as int].joint is Some
}

/// The slots after the joint holding `child` took `damage`; nothing changes
/// for a body that is gone or holds no joint.
pub open spec fn joint_hit(s: Seq<Slot>, child: EntityId, damage: int) -> Seq<Slot> {
    if has_joint(s, child) {
        s.update(child.index as int, slot_after_joint_hit(s[child.index as int], damage))
    } else {
        s
    }
}

/// What `damage` does to the joint holding `child`.
pub open spec fn joint_hit_outcome(s: Seq<Slot>, child: EntityId, damage: int) -> JointOutcome {
    if has_joint(s, child) {
        let j = s[child.index as int].joint.unwrap();
        joint_outcome_of(after_damage(j.current as int, damage), j.max as int)
    } else {
        JointOutcome::Skipped
    }
}

/// Whether damage can reach `e`: a body that is still registered, has
/// health, and is not yet dead. A body whose health already fell to zero
/// waits for the tick's despawn batch and takes no more hits, so that its
/// death is reported once.
pub open spec fn can_take_damage(s: Seq<Slot>, e: EntityId) -> bool {
    is_alive_in(s, e) && s[e.index as int].health is Some && s[e.index as int].health.unwrap().current > 0
}

/// The slots after `e` took `damage`; a body that is gone, has no health or
/// is already dead is left as it is.
pub open spec fn body_hit(s: Seq<Slot>, e: EntityId, damage: int) -> Seq<Slot> {
    if can_take_damage(s, e) {
        s.update(e.index as int, slot_after_body_hit(s[e.index as int], damage))
    } else {
        s
    }
}

/// What `damage` does to body `e`.
pub open spec fn body_hit_outcome(s: Seq<Slot>, e: EntityId, damage: int) -> BodyOutcome {
    if !can_take_damage(s, e) {
        BodyOutcome::Skipped
    } else if after_damage(s[e.index as int].health.unwrap().current as int, damage) <= 0 {
        BodyOutcome::Died
    } else {
        BodyOutcome::Alive
    }
}

/// Despawning a body a second time leaves the world as the first despawn left it.
pub proof fn lemma_despawn_idempotent(s: Seq<Slot>, e: EntityId)
    ensures
        despawned(despawned(s, e), e) == despawned(s, e),
{
}

/// A batch that names a body twice has the effect of a batch that names it once.
pub proof fn lemma_despawn_batch_repeat(s: Seq<Slot>, batch: Seq<EntityId>, e: EntityId)
    ensures
        despawned_all(s, batch.push(e).push(e)) == despawned_all(s, batch.push(e)),
{
    assert(batch.push(e).push(e).drop_last() == batch.push(e));
    assert(batch.push(e).drop_last() == batch);
    lemma_despawn_idempotent(despawned_all(s, batch), e);
}

/// Once a hit has killed a body, later hits in the same tick neither change
/// the world nor report the death again, so its fragments are spawned once.
pub proof fn lemma_death_reported_once(s: Seq<Slot>, e: EntityId, first: int, later: int)
    requires
        body_hit_outcome(s, e, first) == BodyOutcome::Died,
        first >= 0,
    ensures
        body_hit_outcome(body_hit(s, e, first), e, later) == BodyOutcome::Skipped,
        body_hit(body_hit(s, e, first), e, later) == body_hit(s, e, first),
{
}

} // verus!
