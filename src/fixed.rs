//! Integer square roots and fixed-point helpers.
use vstd::prelude::*;

verus! {

/// Floor of the square root of `n` (zero for negative `n`).
pub open spec fn sqrt_floor(n: int) -> int
    decreases n,
{
    if n <= 0 {
        0
    } else {
        let s = sqrt_floor(n - 1);
        if (s + 1) * (s + 1) <= n {
            s + 1
        } else {
            s
        }
    }
}

/// `r` is the integer square root of `n`.
pub open spec fn is_sqrt_of(n: int, r: int) -> bool {
    0 <= r && r * r <= n && n < (r + 1) * (r + 1)
}

pub proof fn lemma_sqrt_floor_bounds(n: int)
    requires
        n >= 0,
    ensures
        is_sqrt_of(n, sqrt_floor(n)),
    decreases n,
{
    if n > 0 {
        lemma_sqrt_floor_bounds(n - 1);
        let s = sqrt_floor(n - 1);
        assert((s + 1) * (s + 1) <= n || n < (s + 1) * (s + 1));
        if (s + 1) * (s + 1) <= n {
            assert(n < (s + 2) * (s + 2)) by (nonlinear_arith)
                requires
                    n - 1 < (s + 1) * (s + 1),
                    s >= 0,
            ;
        }
    }
}

pub proof fn lemma_sqrt_unique(n: int, a: int, b: int)
    requires
        is_sqrt_of(n, a),
        is_sqrt_of(n, b),
    ensures
        a == b,
{
    if a < b {
        assert((a + 1) * (a + 1) <= b * b) by (nonlinear_arith)
            requires
                0 <= a,
                a + 1 <= b,
        ;
    } else if b < a {
        assert((b + 1) * (b + 1) <= a * a) by (nonlinear_arith)
            requires
                0 <= b,
                b + 1 <= a,
        ;
    }
}

/// `r` is the square root of `n` exactly when it is `sqrt_floor(n)`.
pub proof fn lemma_sqrt_floor_is(n: int, r: int)
    requires
        n >= 0,
        is_sqrt_of(n, r),
    ensures
        r == sqrt_floor(n),
{
    lemma_sqrt_floor_bounds(n);
    lemma_sqrt_unique(n, r, sqrt_floor(n));
}

/// Integer square root, rounded down.
pub fn isqrt(n: u64) -> (r: u64)
    ensures
        r == sqrt_floor(n as int),
        is_sqrt_of(n as int, r as int),
        r < 0x1_0000_0000,
{
    let mut lo: u64 = 0;
    let mut hi: u64 = 0x1_0000_0000;
    assert(n < hi * hi) by (nonlinear_arith)
        requires
            hi == 0x1_0000_0000,
            n < 0x1_0000_0000_0000_0000,
    ;
    while lo + 1 < hi
        invariant
            lo < hi <= 0x1_0000_0000,
            lo * lo <= n,
            n < hi * hi,
        decreases hi - lo,
    {
        let mid = lo + (hi - lo) / 2;
        assert(mid * mid < 0x1_0000_0000_0000_0000) by (nonlinear_arith)
            requires
                mid < 0x1_0000_0000,
        ;
        if mid * mid <= n {
            lo = mid;
        } else {
            hi = mid;
        }
    }
    proof {
        lemma_sqrt_floor_is(n as int, lo as int);
    }
    lo
}


/// Largest absolute coordinate of a position in the world.
pub const MAX_COORD: i64 = 1_000_000;

/// A position, or a vector, in world units.
#[derive(Clone, Copy, Debug, PartialEq, Eq, Structural)]
pub struct Point {
    pub x: i64,
    pub y: i64,
}

impl Point {
    /// Both coordinates lie within `MAX_COORD`.
    pub open spec fn in_world(&self) -> bool {
        -MAX_COORD <= self.x <= MAX_COORD && -MAX_COORD <= self.y <= MAX_COORD
    }
}

/// Squared distance between `a` and `b`.
pub open spec fn dist_sq(a: Point, b: Point) -> int {
    (a.x - b.x) * (a.x - b.x) + (a.y - b.y) * (a.y - b.y)
}

proof fn lemma_dist_sq_bounds(a: Point, b: Point)
    requires
        a.in_world(),
        b.in_world(),
    ensures
        0 <= dist_sq(a, b) <= 8 * MAX_COORD * MAX_COORD,
{
    let dx = a.x - b.x;
    let dy = a.y - b.y;
    assert(0 <= dx * dx <= 4 * MAX_COORD * MAX_COORD) by (nonlinear_arith)
        requires
            -2 * MAX_COORD <= dx <= 2 * MAX_COORD,
    ;
    assert(0 <= dy * dy <= 4 * MAX_COORD * MAX_COORD) by (nonlinear_arith)
        requires
            -2 * MAX_COORD <= dy <= 2 * MAX_COORD,
    ;
}

/// Squared distance between two positions of the world.
pub fn distance_sq(a: Point, b: Point) -> (r: u64)
    requires
        a.in_world(),
        b.in_world(),
    ensures
        r == dist_sq(a, b),
        r <= 8 * MAX_COORD * MAX_COORD,
{
    proof {
        lemma_dist_sq_bounds(a, b);
    }
    let dx = a.x - b.x;
    let dy = a.y - b.y;
    proof {
        assert(dx * dx >= 0 && dy * dy >= 0) by (nonlinear_arith);
    }
    (dx * dx + dy * dy) as u64
}

/// `a * b / c`, rounded toward zero, for a signed `a`.
pub open spec fn mul_div(a: int, b: int, c: int) -> int {
    if a >= 0 {
        (a * b) / c
    } else {
        -(((-a) * b) / c)
    }
}

/// `a * b / c` rounded toward zero; the sign is that of `a`.
pub fn mul_div_signed(a: i64, b: i64, c: i64) -> (r: i64)
    requires
        b >= 0,
        c > 0,
        -i64::MAX <= a,
        (if a >= 0 { a as int } else { -a }) * b <= i64::MAX,
    ensures
        r == mul_div(a as int, b as int, c as int),
        a >= 0 ==> 0 <= r,
        a < 0 ==> r <= 0,
{
    if a >= 0 {
        proof {
            assert(0 <= a * b) by (nonlinear_arith)
                requires
                    a >= 0,
                    b >= 0,
            ;
            assert(0 <= (a * b) / (c as int)) by (nonlinear_arith)
                requires
                    a * b >= 0,
                    c > 0,
            ;
        }
        (a * b) / c
    } else {
        let m = -a;
        proof {
            assert(0 <= m * b) by (nonlinear_arith)
                requires
                    m >= 0,
                    b >= 0,
            ;
            assert(0 <= (m * b) / (c as int) <= m * b) by (nonlinear_arith)
                requires
                    m * b >= 0,
                    c > 0,
            ;
        }
        -((m * b) / c)
    }
}

} // verus!
