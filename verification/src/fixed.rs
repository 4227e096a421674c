//! 16.16 fixed-point scalar arithmetic.
//!
//! The integer `v` represents the real number `v / 65536`. All operations are
//! exact integer computations; an operation whose mathematical result leaves
//! the representable range `[-FX_LIMIT, FX_LIMIT]` reports that instead of
//! wrapping. Division truncates toward zero, like Rust's integer division.

use vstd::prelude::*;

verus! {

/// The fixed-point representation of the real number one.
pub const FX_ONE: i64 = 65536;

/// Largest magnitude a fixed-point scalar may take (2^40, i.e. the real
/// number 2^24). Keeping every scalar inside this range lets all
/// intermediate products fit comfortably in `i128`.
pub const FX_LIMIT: i64 = 1099511627776;

/// A scalar is in range when its magnitude is at most `FX_LIMIT`.
pub open spec fn fx_in_range(v: int) -> bool {
    -(FX_LIMIT as int) <= v <= FX_LIMIT as int
}

/// Division truncated toward zero (the rounding of Rust's `/` on integers).
pub open spec fn div_trunc(a: int, b: int) -> int
    recommends
        b > 0,
{
    if a >= 0 {
        a / b
    } else {
        -((-a) / b)
    }
}

/// The fixed-point product of `a` and `b`.
pub open spec fn fx_mul_spec(a: int, b: int) -> int {
    div_trunc(a * b, FX_ONE as int)
}

/// The fixed-point quotient of `a` by `b` (`b` a positive raw integer scale
/// or fixed-point value, depending on the caller).
pub open spec fn fx_div_spec(a: int, b: int) -> int
    recommends
        b > 0,
{
    div_trunc(a * (FX_ONE as int), b)
}

/// Linear interpolation from `a` to `b` with fixed-point weight `t`:
/// `a + (b - a) * t`.
pub open spec fn fx_lerp_spec(a: int, b: int, t: int) -> int {
    a + fx_mul_spec(b - a, t)
}

/// Bounds on the product of two bounded factors.
pub proof fn lemma_mul_range(a: int, b: int, m: int, n: int)
    requires
        -m <= a <= m,
        -n <= b <= n,
        0 <= m,
        0 <= n,
    ensures
        -(m * n) <= a * b <= m * n,
{
    assert(-(m * n) <= a * b <= m * n) by (nonlinear_arith)
        requires
            -m <= a <= m,
            -n <= b <= n,
            0 <= m,
            0 <= n,
    ;
}

/// Truncated division shrinks magnitude: `|a / b| <= |a|` for `b >= 1`.
pub proof fn lemma_div_trunc_shrinks(a: int, b: int)
    requires
        b >= 1,
    ensures
        a >= 0 ==> 0 <= div_trunc(a, b) <= a,
        a < 0 ==> a <= div_trunc(a, b) <= 0,
{
    if a >= 0 {
        assert(0 <= a / b <= a) by (nonlinear_arith)
            requires
                a >= 0,
                b >= 1,
        ;
    } else {
        assert(0 <= (-a) / b <= -a) by (nonlinear_arith)
            requires
                -a >= 0,
                b >= 1,
        ;
    }
}

/// Division truncated toward zero, on `i128`, with a positive divisor.
pub(crate) fn div_trunc_i128(a: i128, b: i128) -> (r: i128)
    requires
        b > 0,
        a != i128::MIN,
    ensures
        r == div_trunc(a as int, b as int),
{
    if a >= 0 {
        let q: u128 = (a as u128) / (b as u128);
        proof {
            lemma_div_trunc_shrinks(a as int, b as int);
        }
        q as i128
    } else {
        let m: u128 = (-a) as u128;
        let q: u128 = m / (b as u128);
        proof {
            lemma_div_trunc_shrinks(a as int, b as int);
        }
        -(q as i128)
    }
}

/// The fixed-point product, or `None` when the result would leave the
/// representable range.
pub fn fx_mul(a: i64, b: i64) -> (r: Option<i64>)
    requires
        fx_in_range(a as int),
        fx_in_range(b as int),
    ensures
        r == (if fx_in_range(fx_mul_spec(a as int, b as int)) {
            Some(fx_mul_spec(a as int, b as int) as i64)
        } else {
            None::<i64>
        }),
{
    proof {
        lemma_mul_range(a as int, b as int, FX_LIMIT as int, FX_LIMIT as int);
    }
    let p: i128 = (a as i128) * (b as i128);
    let q: i128 = div_trunc_i128(p, FX_ONE as i128);
    proof {
        lemma_div_trunc_shrinks(p as int, FX_ONE as int);
    }
    if -(FX_LIMIT as i128) <= q && q <= FX_LIMIT as i128 {
        Some(q as i64)
    } else {
        None
    }
}

/// The fixed-point quotient, or `None` when the result would leave the
/// representable range. The divisor must be positive.
pub fn fx_div(a: i64, b: i64) -> (r: Option<i64>)
    requires
        fx_in_range(a as int),
        0 < b,
    ensures
        r == (if fx_in_range(fx_div_spec(a as int, b as int)) {
            Some(fx_div_spec(a as int, b as int) as i64)
        } else {
            None::<i64>
        }),
{
    proof {
        lemma_mul_range(a as int, FX_ONE as int, FX_LIMIT as int, FX_ONE as int);
    }
    let p: i128 = (a as i128) * (FX_ONE as i128);
    let q: i128 = div_trunc_i128(p, b as i128);
    proof {
        lemma_div_trunc_shrinks(p as int, b as int);
    }
    if -(FX_LIMIT as i128) <= q && q <= FX_LIMIT as i128 {
        Some(q as i64)
    } else {
        None
    }
}

/// Linear interpolation `a + (b - a) * t`, or `None` when the result would
/// leave the representable range.
pub fn fx_lerp(a: i64, b: i64, t: i64) -> (r: Option<i64>)
    requires
        fx_in_range(a as int),
        fx_in_range(b as int),
        fx_in_range(t as int),
    ensures
        r == (if fx_in_range(fx_lerp_spec(a as int, b as int, t as int)) {
            Some(fx_lerp_spec(a as int, b as int, t as int) as i64)
        } else {
            None::<i64>
        }),
{
    let d: i128 = (b as i128) - (a as i128);
    proof {
        lemma_mul_range(d as int, t as int, 2 * FX_LIMIT as int, FX_LIMIT as int);
    }
    let p: i128 = d * (t as i128);
    let q: i128 = div_trunc_i128(p, FX_ONE as i128);
    proof {
        lemma_div_trunc_shrinks(p as int, FX_ONE as int);
    }
    let s: i128 = (a as i128) + q;
    if -(FX_LIMIT as i128) <= s && s <= FX_LIMIT as i128 {
        Some(s as i64)
    } else {
        None
    }
}

/// With a weight in `[0, 1]`, interpolation stays between its endpoints, so
/// it can never leave the representable range.
pub proof fn lemma_lerp_bounded(a: int, b: int, t: int)
    requires
        fx_in_range(a),
        fx_in_range(b),
        0 <= t <= FX_ONE as int,
    ensures
        fx_in_range(fx_lerp_spec(a, b, t)),
        b >= a ==> a <= fx_lerp_spec(a, b, t) <= b,
        b < a ==> b <= fx_lerp_spec(a, b, t) <= a,
{
    let d = b - a;
    let s = FX_ONE as int;
    if d >= 0 {
        assert(0 <= d * t <= d * s) by (nonlinear_arith)
            requires
                d >= 0,
                0 <= t <= s,
        ;
        assert((d * t) / s <= (d * s) / s) by (nonlinear_arith)
            requires
                0 <= d * t <= d * s,
                s > 0,
        ;
        assert((d * s) / s == d) by (nonlinear_arith)
            requires
                s > 0,
        ;
        assert(0 <= (d * t) / s) by (nonlinear_arith)
            requires
                0 <= d * t,
                s > 0,
        ;
    } else {
        let e = -d;
        assert(0 <= e * t <= e * s) by (nonlinear_arith)
            requires
                e >= 0,
                0 <= t <= s,
        ;
        assert((e * t) / s <= (e * s) / s) by (nonlinear_arith)
            requires
                0 <= e * t <= e * s,
                s > 0,
        ;
        assert((e * s) / s == e) by (nonlinear_arith)
            requires
                s > 0,
        ;
        assert(0 <= (e * t) / s) by (nonlinear_arith)
            requires
                0 <= e * t,
                s > 0,
        ;
        assert(-(d * t) == e * t) by (nonlinear_arith)
            requires
                e == -d,
        ;
    }
}

/// Multiplying by a positive factor and truncated-dividing by it again is
/// the identity.
pub proof fn lemma_div_trunc_cancel(c: int, s: int)
    requires
        s >= 1,
    ensures
        div_trunc(c * s, s) == c,
{
    if c >= 0 {
        assert((c * s) / s == c && c * s >= 0) by (nonlinear_arith)
            requires
                s >= 1,
                c >= 0,
        ;
    } else {
        assert(((-c) * s) / s == -c && (-c) * s >= 0 && -(c * s) == (-c) * s)
            by (nonlinear_arith)
            requires
                s >= 1,
                c < 0,
        ;
    }
}

/// The integer square root: the greatest `r` with `r * r <= n`.
pub open spec fn isqrt_spec(n: nat) -> nat
    decreases n,
{
    if n == 0 {
        0
    } else {
        let r = isqrt_spec((n - 1) as nat);
        if (r + 1) * (r + 1) <= n {
            r + 1
        } else {
            r
        }
    }
}

/// The defining bounds of the integer square root.
pub proof fn lemma_isqrt_bounds(n: nat)
    ensures
        isqrt_spec(n) * isqrt_spec(n) <= n,
        n < (isqrt_spec(n) + 1) * (isqrt_spec(n) + 1),
    decreases n,
{
    if n > 0 {
        lemma_isqrt_bounds((n - 1) as nat);
        let r = isqrt_spec((n - 1) as nat);
        assert(r * r <= n - 1);
        assert(n - 1 < (r + 1) * (r + 1));
        if (r + 1) * (r + 1) <= n {
            assert(isqrt_spec(n) == r + 1);
            assert(n < ((r + 1) + 1) * ((r + 1) + 1)) by (nonlinear_arith)
                requires
                    n - 1 < (r + 1) * (r + 1),
                    (r + 1) * (r + 1) <= n,
            ;
        } else {
            assert(isqrt_spec(n) == r);
            assert(n < (isqrt_spec(n) + 1) * (isqrt_spec(n) + 1));
        }
    } else {
        assert(isqrt_spec(0) == 0);
        assert(n < (isqrt_spec(n) + 1) * (isqrt_spec(n) + 1)) by (nonlinear_arith)
            requires
                n == 0,
                isqrt_spec(n) == 0,
        ;
    }
}

/// The integer square root of a positive number is positive.
pub proof fn lemma_isqrt_pos(n: nat)
    requires
        n >= 1,
    ensures
        isqrt_spec(n) >= 1,
{
    lemma_isqrt_bounds(n);
    if isqrt_spec(n) == 0 {
        assert(n < 1) by (nonlinear_arith)
            requires
                isqrt_spec(n) == 0,
                n < (isqrt_spec(n) + 1) * (isqrt_spec(n) + 1),
        ;
    }
}

/// Any integer satisfying the square-root bounds is the integer square root.
pub proof fn lemma_isqrt_unique(n: nat, r: nat)
    requires
        r * r <= n,
        n < (r + 1) * (r + 1),
    ensures
        r == isqrt_spec(n),
{
    lemma_isqrt_bounds(n);
    let s = isqrt_spec(n);
    assert(r == s) by (nonlinear_arith)
        requires
            r * r <= n,
            n < (r + 1) * (r + 1),
            s * s <= n,
            n < (s + 1) * (s + 1),
    ;
}

/// The integer square root, by binary search. The bound on `n` keeps the
/// midpoint's square inside `u128`.
pub fn isqrt(n: u128) -> (r: u128)
    requires
        (n as nat) < 19342813113834066795298816,  // 2^84
    ensures
        r == isqrt_spec(n as nat),
        r < 4398046511104,
{
    let mut lo: u128 = 0;
    let mut hi: u128 = 4398046511104;  // 2^42
    proof {
        assert((hi as nat) * (hi as nat) == 19342813113834066795298816) by (nonlinear_arith)
            requires
                hi == 4398046511104u128,
        ;
    }
    while lo + 1 < hi
        invariant
            lo < hi,
            hi <= 4398046511104,
            (lo as nat) * (lo as nat) <= n as nat,
            (n as nat) < (hi as nat) * (hi as nat),
        decreases hi - lo,
    {
        let mid: u128 = lo + (hi - lo) / 2;
        proof {
            assert((mid as nat) * (mid as nat) < 19342813113834066795298816nat)
                by (nonlinear_arith)
                requires
                    mid < 4398046511104,
            ;
        }
        if mid * mid <= n {
            lo = mid;
        } else {
            hi = mid;
        }
    }
    proof {
        assert((n as nat) < ((lo + 1) as nat) * ((lo + 1) as nat)) by (nonlinear_arith)
            requires
                lo + 1 >= hi,
                (n as nat) < (hi as nat) * (hi as nat),
        ;
        lemma_isqrt_unique(n as nat, lo as nat);
    }
    lo
}

} // verus!
