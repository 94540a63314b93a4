use ragdoll_sandbox::fragments::{plan_fragments, OTHER_FRAGMENT_DENSITY, WOOD_FRAGMENT_DENSITY};
use ragdoll_sandbox::random::rolls;

#[test]
fn fragment_counts_stay_in_range() {
    for _ in 0..200 {
        let wood = plan_fragments(true);
        assert!((8..15).contains(&wood.count));
        assert_eq!(wood.density, WOOD_FRAGMENT_DENSITY);
        let other = plan_fragments(false);
        assert!((6..12).contains(&other.count));
        assert_eq!(other.density, OTHER_FRAGMENT_DENSITY);
    }
}

#[test]
fn rolls_stay_in_range() {
    let r = rolls(500, -5000, 5000);
    assert_eq!(r.len(), 500);
    assert!(r.iter().all(|v| (-5000..5000).contains(v)));
    assert!(r.iter().any(|v| *v != r[0]));
}
