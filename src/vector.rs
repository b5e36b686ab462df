use vstd::prelude::*;

verus! {

/// A point or displacement on the integer lattice.
#[derive(Clone, Copy, Debug, PartialEq, Eq, Structural)]
pub struct Vec2 {
    pub x: i64,
    pub y: i64,
}

/// Squared Euclidean distance between two points.
pub open spec fn dist2_spec(a: Vec2, b: Vec2) -> int {
    let dx = a.x - b.x;
    let dy = a.y - b.y;
    dx * dx + dy * dy
}

/// `r` is the integer square root of `n`: the largest `r` with `r * r <= n`.
pub open spec fn is_floor_sqrt(n: int, r: int) -> bool {
    &&& r >= 0
    &&& r * r <= n
    &&& n < (r + 1) * (r + 1)
}

/// The integer square root of a non-negative `n`.
pub open spec fn floor_sqrt(n: int) -> int {
    choose|r: int| is_floor_sqrt(n, r)
}

/// At most one integer is the floor square root of `n`.
pub proof fn lemma_floor_sqrt_unique(n: int, r1: int, r2: int)
    requires
        is_floor_sqrt(n, r1),
        is_floor_sqrt(n, r2),
    ensures
        r1 == r2,
{
    if r1 < r2 {
        assert((r1 + 1) * (r1 + 1) <= r2 * r2) by (nonlinear_arith)
            requires r1 + 1 <= r2, r1 >= 0;
    }
    if r2 < r1 {
        assert((r2 + 1) * (r2 + 1) <= r1 * r1) by (nonlinear_arith)
            requires r2 + 1 <= r1, r2 >= 0;
    }
}

/// A value that is a floor square root is the one `floor_sqrt` names.
pub proof fn lemma_floor_sqrt_is(n: int, r: int)
    requires
        is_floor_sqrt(n, r),
    ensures
        floor_sqrt(n) == r,
{
    let c = floor_sqrt(n);
    assert(is_floor_sqrt(n, c));
    lemma_floor_sqrt_unique(n, r, c);
}

/// Every non-negative integer has a floor square root, and `floor_sqrt` is it.
pub proof fn lemma_floor_sqrt(n: int)
    requires
        n >= 0,
    ensures
        is_floor_sqrt(n, floor_sqrt(n)),
    decreases n,
{
    if n == 0 {
        assert(is_floor_sqrt(0, 0));
    } else {
        lemma_floor_sqrt(n - 1);
        let r = floor_sqrt(n - 1);
        if (r + 1) * (r + 1) <= n {
            assert(n < (r + 2) * (r + 2)) by (nonlinear_arith)
                requires n - 1 < (r + 1) * (r + 1), r >= 0;
            assert(is_floor_sqrt(n, r + 1));
        } else {
            assert(is_floor_sqrt(n, r));
        }
    }
}

/// Integer square root by bisection over `[0, 2^32)`.
pub fn isqrt(n: u64) -> (r: u64)
    ensures
        is_floor_sqrt(n as int, r as int),
        r as int == floor_sqrt(n as int),
        r <= 4294967295,
{
    let mut lo: u128 = 0;
    let mut hi: u128 = 4294967296;
    while hi - lo > 1
        invariant
            lo < hi <= 4294967296,
            lo * lo <= n,
            (n as int) < hi * hi,
        decreases hi - lo,
    {
        let mid: u128 = lo + (hi - lo) / 2;
        assert(mid * mid <= 4294967296u128 * 4294967296u128) by (nonlinear_arith)
            requires mid <= 4294967296u128;
        if mid * mid <= n as u128 {
            lo = mid;
        } else {
            hi = mid;
        }
    }
    assert(hi == lo + 1);
    proof {
        lemma_floor_sqrt_is(n as int, lo as int);
    }
    lo as u64
}

/// Euclidean distance between two points, rounded down to an integer.
pub fn get_euclidean_distance(point1: &Vec2, point2: &Vec2) -> (d: u64)
    requires
        -2147483648 <= point1.x - point2.x <= 2147483648,
        -2147483648 <= point1.y - point2.y <= 2147483648,
    ensures
        d as int == floor_sqrt(dist2_spec(*point1, *point2)),
{
    let dx: i128 = point1.x as i128 - point2.x as i128;
    let dy: i128 = point1.y as i128 - point2.y as i128;
    assert(dx * dx <= 2147483648 * 2147483648) by (nonlinear_arith)
        requires -2147483648 <= dx <= 2147483648;
    assert(dy * dy <= 2147483648 * 2147483648) by (nonlinear_arith)
        requires -2147483648 <= dy <= 2147483648;
    assert(dx * dx >= 0 && dy * dy >= 0) by (nonlinear_arith);
    let d2: i128 = dx * dx + dy * dy;
    isqrt(d2 as u64)
}

} // verus!
