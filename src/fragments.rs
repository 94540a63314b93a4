//! Debris planning: how many fragments a destroyed body breaks into, and
//! what they are made of. The spawner itself only places what it is told.
use vstd::prelude::*;
use crate::random::rolls;

verus! {

/// Number of blood particles in one burst: a slow spray and a fast one.
pub const BLOOD_SLOW_PARTICLES: i64 = 25;
pub const BLOOD_FAST_PARTICLES: i64 = 15;

/// Density of wooden fragments and of other fragments, in thousandths.
pub const WOOD_FRAGMENT_DENSITY: i64 = 700;
pub const OTHER_FRAGMENT_DENSITY: i64 = 1000;

/// Half-open range of the fragment count of a destroyed body.
pub open spec fn fragment_count_range(is_wooden: bool) -> (int, int) {
    if is_wooden { (8, 15) } else { (6, 12) }
}

/// Fragments a destroyed body breaks into.
#[derive(Clone, Copy, Debug, PartialEq, Eq, Structural)]
pub struct FragmentPlan {
    pub count: i64,
    /// In thousandths.
    pub density: i64,
}

/// The fragments of a body, for a drawn `count`.
pub open spec fn fragment_plan_of(is_wooden: bool, count: int) -> FragmentPlan {
    FragmentPlan {
        count: count as i64,
        density: if is_wooden { WOOD_FRAGMENT_DENSITY } else { OTHER_FRAGMENT_DENSITY },
    }
}

/// Plans the fragments of a destroyed body, with a random count in its
/// material's range: eight to fourteen for wood, six to eleven otherwise.
pub fn plan_fragments(is_wooden: bool) -> (r: FragmentPlan)
    ensures
        exists|count: int| fragment_count_range(is_wooden).0 <= count < fragment_count_range(is_wooden).1
            && r == #[trigger] fragment_plan_of(is_wooden, count),
{
    let (lo, hi): (i64, i64) = if is_wooden { (8, 15) } else { (6, 12) };
    let drawn = rolls(1, lo, hi);
    let count = drawn[0];
    let r = FragmentPlan {
        count,
        density: if is_wooden { WOOD_FRAGMENT_DENSITY } else { OTHER_FRAGMENT_DENSITY },
    };
    assert(r == fragment_plan_of(is_wooden, count as int));
    r
}

} // verus!
