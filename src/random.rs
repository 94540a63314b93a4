//! Random draws, from the thread-local generator of `rand`.
use vstd::prelude::*;
use rand::Rng;

verus! {

/// Relies on `rand::Rng::gen_range` on `rand::thread_rng()`: for a half-open
/// range `lo..hi` it returns a value `lo <= r < hi`, and it panics on an empty
/// range, which `requires` rules out.
#[verifier::external_body]
fn roll_in_range(lo: i64, hi: i64) -> (r: i64)
    requires
        lo < hi,
    ensures
        lo <= r < hi,
{
    rand::thread_rng().gen_range(lo..hi)
}

/// `n` random values, each in `[lo, hi)`.
pub fn rolls(n: usize, lo: i64, hi: i64) -> (r: Vec<i64>)
    requires
        lo < hi,
    ensures
        r.len() == n,
        forall|i: int| 0 <= i < n ==> lo <= #[trigger] r[i] < hi,
{
    let mut r: Vec<i64> = Vec::new();
    let mut i: usize = 0;
    while i < n
        invariant
            i <= n,
            r.len() == i,
            lo < hi,
            forall|k: int| 0 <= k < i ==> lo <= #[trigger] r[k] < hi,
        decreases n - i,
    {
        r.push(roll_in_range(lo, hi));
        i += 1;
    }
    r
}

} // verus!
