//! Picking the body nearest to a point.
use vstd::prelude::*;
use crate::fixed::{dist_sq, distance_sq, Point};
use crate::health::EntityId;

verus! {

/// A body offered to a pick, with its position.
#[derive(Clone, Copy, Debug, PartialEq, Eq, Structural)]
pub struct Candidate {
    pub id: EntityId,
    pub position: Point,
}

/// Index of the candidate nearest to `target` among those strictly within
/// `max_distance`; on a tie, the first. `None` when none is that close.
pub open spec fn closest_index(c: Seq<Candidate>, target: Point, max_distance: int, k: int) -> bool {
    &&& 0 <= k < c.len()
    &&& dist_sq(c[k].position, target) < max_distance * max_distance
    &&& forall|j: int| 0 <= j < c.len() ==> dist_sq(c[k].position, target) <= #[trigger] dist_sq(c[j].position, target)
    &&& forall|j: int| 0 <= j < k ==> dist_sq(c[k].position, target) < #[trigger] dist_sq(c[j].position, target)
}

/// The candidate nearest to `target` that lies strictly within
/// `max_distance`, the first of equally near ones; `None` if none does.
pub fn find_closest_entity(candidates: &Vec<Candidate>, target: Point, max_distance: i64) -> (r: Option<EntityId>)
    requires
        target.in_world(),
        0 <= max_distance <= 1_000_000,
        forall|i: int| 0 <= i < candidates.len() ==> (#[trigger] candidates[i]).position.in_world(),
    ensures
        r is None <==> forall|i: int| 0 <= i < candidates.len() ==>
            #[trigger] dist_sq(candidates[i].position, target) >= max_distance * max_distance,
        r matches Some(id) ==> exists|k: int| closest_index(candidates@, target, max_distance as int, k)
            && candidates[k].id == id,
{
    match closest_candidate(candidates, target, max_distance) {
        Some(k) => Some(candidates[k].id),
        None => None,
    }
}

/// Index of the candidate that `find_closest_entity` picks.
pub fn closest_candidate(candidates: &Vec<Candidate>, target: Point, max_distance: i64) -> (r: Option<usize>)
    requires
        target.in_world(),
        0 <= max_distance <= 1_000_000,
        forall|i: int| 0 <= i < candidates.len() ==> (#[trigger] candidates[i]).position.in_world(),
    ensures
        r is None <==> forall|i: int| 0 <= i < candidates.len() ==>
            #[trigger] dist_sq(candidates[i].position, target) >= max_distance * max_distance,
        r matches Some(k) ==> closest_index(candidates@, target, max_distance as int, k as int),
{
    proof {
        assert(max_distance * max_distance <= 1_000_000_000_000) by (nonlinear_arith)
            requires
                0 <= max_distance <= 1_000_000,
        ;
    }
    let limit: u64 = (max_distance as u64) * (max_distance as u64);
    let mut best: Option<usize> = None;
    let mut best_d2: u64 = 0;
    let mut i: usize = 0;
    while i < candidates.len()
        invariant
            i <= candidates.len(),
            limit == max_distance * max_distance,
            target.in_world(),
            forall|k: int| 0 <= k < candidates.len() ==> (#[trigger] candidates[k]).position.in_world(),
            best is None ==> forall|j: int| 0 <= j < i ==>
                #[trigger] dist_sq(candidates[j].position, target) >= limit,
            best matches Some(b) ==> {
                &&& b < i
                &&& best_d2 == dist_sq(candidates[b as int].position, target)
                &&& best_d2 < limit
                &&& forall|j: int| 0 <= j < i ==> best_d2 <= #[trigger] dist_sq(candidates[j].position, target)
                &&& forall|j: int| 0 <= j < b ==> best_d2 < #[trigger] dist_sq(candidates[j].position, target)
            },
        decreases candidates.len() - i,
    {
        let d2 = distance_sq(candidates[i].position, target);
        let closer = match best {
            None => d2 < limit,
            Some(_) => d2 < best_d2,
        };
        if closer {
            best = Some(i);
            best_d2 = d2;
        }
        i += 1;
    }
    best
}

} // verus!
