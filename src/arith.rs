use vstd::prelude::*;

verus! {

/// Division of `a` by a positive `b`, rounding toward zero, as Rust's `/` does.
pub open spec fn trunc_div_spec(a: int, b: int) -> int {
    if a >= 0 {
        a / b
    } else {
        -((-a) / b)
    }
}

/// `v` limited to the closed range `[-limit, limit]`.
pub open spec fn clamp_spec(v: int, limit: int) -> int {
    if v > limit {
        limit
    } else if v < -limit {
        -limit
    } else {
        v
    }
}

/// Quotient of `a` by `b`, rounded toward zero.
pub fn trunc_div(a: i128, b: i128) -> (q: i128)
    requires
        b > 0,
        a > i128::MIN,
    ensures
        q as int == trunc_div_spec(a as int, b as int),
{
    if a >= 0 {
        a / b
    } else {
        let n: i128 = -a;
        let m: i128 = n / b;
        -m
    }
}

/// `v` clamped to `[-limit, limit]`, as an `i64`.
pub fn clamp_speed(v: i128, limit: i64) -> (r: i64)
    requires
        limit >= 0,
    ensures
        r as int == clamp_spec(v as int, limit as int),
{
    if v > limit as i128 {
        limit
    } else if v < -(limit as i128) {
        -limit
    } else {
        v as i64
    }
}

/// Rounding toward zero is odd: negating the dividend negates the quotient.
pub proof fn lemma_trunc_div_neg(a: int, b: int)
    requires
        b > 0,
    ensures
        trunc_div_spec(-a, b) == -trunc_div_spec(a, b),
{
    if a == 0 {
        assert(0int / b == 0) by (nonlinear_arith) requires b > 0;
    }
}

/// The rounding error of `trunc_div` is below one divisor: `|b * q - a| < b`.
pub proof fn lemma_trunc_div_error(a: int, b: int)
    requires
        b > 0,
    ensures
        a >= 0 ==> 0 <= a - b * trunc_div_spec(a, b) < b,
        a < 0 ==> 0 <= b * trunc_div_spec(a, b) - a < b,
{
    if a >= 0 {
        vstd::arithmetic::div_mod::lemma_fundamental_div_mod(a, b);
        vstd::arithmetic::div_mod::lemma_mod_bound(a, b);
    } else {
        vstd::arithmetic::div_mod::lemma_fundamental_div_mod(-a, b);
        vstd::arithmetic::div_mod::lemma_mod_bound(-a, b);
        assert(b * (-((-a) / b)) == -(b * ((-a) / b))) by (nonlinear_arith);
    }
}

/// `|trunc_div(a, b)| <= bound` whenever `|a| <= bound * b`.
pub proof fn lemma_trunc_div_bound(a: int, b: int, bound: int)
    requires
        b > 0,
        bound >= 0,
        -(bound * b) <= a <= bound * b,
    ensures
        -bound <= trunc_div_spec(a, b) <= bound,
{
    lemma_trunc_div_error(a, b);
    let q = trunc_div_spec(a, b);
    if q > bound {
        assert(b * q >= b * (bound + 1)) by (nonlinear_arith) requires q >= bound + 1, b > 0;
        assert(b * (bound + 1) == bound * b + b) by (nonlinear_arith);
    }
    if q < -bound {
        assert(b * q <= b * (-bound - 1)) by (nonlinear_arith) requires q <= -bound - 1, b > 0;
        assert(b * (-bound - 1) == -(bound * b) - b) by (nonlinear_arith);
    }
}

} // verus!
