//! Fixed-point vector, quaternion and matrix math.
//!
//! Matrices are 4x4, row-major, and applied to row-vector points on the
//! right of the matrix's rows (`p' = M * p` with `p` a column), matching a
//! transform chain written `parent * local`. Every operation has an exact
//! specification; an operation whose result would leave the fixed-point
//! range reports `AnimationError::Overflow`.

use vstd::prelude::*;

use crate::fixed::{
    div_trunc, fx_in_range, fx_lerp, fx_lerp_spec, fx_mul_spec, isqrt, isqrt_spec,
    div_trunc_i128, lemma_div_trunc_shrinks, lemma_isqrt_bounds, lemma_mul_range, FX_LIMIT,
    FX_ONE,
};
use crate::AnimationError;

verus! {

/// A 3-component vector of fixed-point scalars.
#[derive(Clone, Copy, Debug, PartialEq, Eq, Structural)]
pub struct Vector3 {
    pub x: i64,
    pub y: i64,
    pub z: i64,
}

/// A rotation quaternion of fixed-point scalars.
#[derive(Clone, Copy, Debug, PartialEq, Eq, Structural)]
pub struct Quaternion {
    pub w: i64,
    pub x: i64,
    pub y: i64,
    pub z: i64,
}

/// A 4x4 row-major matrix of fixed-point scalars.
#[derive(Clone, Copy, Debug, PartialEq, Eq, Structural)]
pub struct Matrix4 {
    pub m00: i64,
    pub m01: i64,
    pub m02: i64,
    pub m03: i64,
    pub m10: i64,
    pub m11: i64,
    pub m12: i64,
    pub m13: i64,
    pub m20: i64,
    pub m21: i64,
    pub m22: i64,
    pub m23: i64,
    pub m30: i64,
    pub m31: i64,
    pub m32: i64,
    pub m33: i64,
}

pub open spec fn vec3_in_range(v: Vector3) -> bool {
    &&& fx_in_range(v.x as int)
    &&& fx_in_range(v.y as int)
    &&& fx_in_range(v.z as int)
}

pub open spec fn quat_in_range(q: Quaternion) -> bool {
    &&& fx_in_range(q.w as int)
    &&& fx_in_range(q.x as int)
    &&& fx_in_range(q.y as int)
    &&& fx_in_range(q.z as int)
}

pub open spec fn mat4_in_range(m: Matrix4) -> bool {
    &&& fx_in_range(m.m00 as int) && fx_in_range(m.m01 as int) && fx_in_range(m.m02 as int)
        && fx_in_range(m.m03 as int)
    &&& fx_in_range(m.m10 as int) && fx_in_range(m.m11 as int) && fx_in_range(m.m12 as int)
        && fx_in_range(m.m13 as int)
    &&& fx_in_range(m.m20 as int) && fx_in_range(m.m21 as int) && fx_in_range(m.m22 as int)
        && fx_in_range(m.m23 as int)
    &&& fx_in_range(m.m30 as int) && fx_in_range(m.m31 as int) && fx_in_range(m.m32 as int)
        && fx_in_range(m.m33 as int)
}

/// The identity quaternion (no rotation).
pub open spec fn quat_id_spec() -> Quaternion {
    Quaternion { w: FX_ONE, x: 0, y: 0, z: 0 }
}

/// The identity quaternion (no rotation).
pub fn quaternion_id() -> (r: Quaternion)
    ensures
        r == quat_id_spec(),
{
    Quaternion { w: FX_ONE, x: 0, y: 0, z: 0 }
}

/// The identity matrix.
pub open spec fn mat4_id_spec() -> Matrix4 {
    Matrix4 {
        m00: FX_ONE, m01: 0, m02: 0, m03: 0,
        m10: 0, m11: FX_ONE, m12: 0, m13: 0,
        m20: 0, m21: 0, m22: FX_ONE, m23: 0,
        m30: 0, m31: 0, m32: 0, m33: FX_ONE,
    }
}

/// The identity matrix.
pub fn mat4_id() -> (r: Matrix4)
    ensures
        r == mat4_id_spec(),
{
    Matrix4 {
        m00: FX_ONE, m01: 0, m02: 0, m03: 0,
        m10: 0, m11: FX_ONE, m12: 0, m13: 0,
        m20: 0, m21: 0, m22: FX_ONE, m23: 0,
        m30: 0, m31: 0, m32: 0, m33: FX_ONE,
    }
}

/// The squared magnitude of a quaternion, in units of `FX_ONE` squared.
/// A quaternion is exactly unit-length when this equals `FX_ONE * FX_ONE`.
pub open spec fn quat_norm_sq_scaled(q: Quaternion) -> int {
    (q.w as int) * (q.w as int) + (q.x as int) * (q.x as int) + (q.y as int) * (q.y as int) + (
    q.z as int) * (q.z as int)
}

/// The squared magnitude of the componentwise interpolation of `q1` and
/// `q2` at weight `t`, before renormalization.
pub open spec fn nlerp_sum_sq(q1: Quaternion, q2: Quaternion, t: int) -> int {
    let w = fx_lerp_spec(q1.w as int, q2.w as int, t);
    let x = fx_lerp_spec(q1.x as int, q2.x as int, t);
    let y = fx_lerp_spec(q1.y as int, q2.y as int, t);
    let z = fx_lerp_spec(q1.z as int, q2.z as int, t);
    w * w + x * x + y * y + z * z
}

/// What `lerp_quaternion` returns: a normalized componentwise blend, with
/// the exact endpoints passed through unchanged. `Err(Overflow)` when an
/// interpolated component leaves the fixed-point range,
/// `Err(DegenerateQuaternion)` when the blend has zero magnitude (antipodal
/// inputs meeting in the middle).
pub open spec fn lerp_quaternion_res(q1: Quaternion, q2: Quaternion, t: int) -> Result<
    Quaternion,
    AnimationError,
> {
    if t == 0 {
        Ok(q1)
    } else if t == FX_ONE as int {
        Ok(q2)
    } else {
        let w = fx_lerp_spec(q1.w as int, q2.w as int, t);
        let x = fx_lerp_spec(q1.x as int, q2.x as int, t);
        let y = fx_lerp_spec(q1.y as int, q2.y as int, t);
        let z = fx_lerp_spec(q1.z as int, q2.z as int, t);
        if !(fx_in_range(w) && fx_in_range(x) && fx_in_range(y) && fx_in_range(z)) {
            Err(AnimationError::Overflow)
        } else {
            let sum = w * w + x * x + y * y + z * z;
            if sum == 0 {
                Err(AnimationError::DegenerateQuaternion)
            } else {
                let len = isqrt_spec(sum as nat) as int;
                Ok(
                    Quaternion {
                        w: div_trunc(w * (FX_ONE as int), len) as i64,
                        x: div_trunc(x * (FX_ONE as int), len) as i64,
                        y: div_trunc(y * (FX_ONE as int), len) as i64,
                        z: div_trunc(z * (FX_ONE as int), len) as i64,
                    },
                )
            }
        }
    }
}

/// A component whose square is below the squared bound is within the bound.
proof fn lemma_sq_le(c: int, b: int)
    requires
        c * c < (b + 1) * (b + 1),
        b >= 0,
    ensures
        -b <= c <= b,
{
    assert(-b <= c <= b) by (nonlinear_arith)
        requires
            c * c < (b + 1) * (b + 1),
            b >= 0,
    ;
}

/// Truncated division by a positive divisor keeps a proportional bound.
proof fn lemma_div_trunc_bound(a: int, b: int, c: int)
    requires
        b >= 1,
        0 <= c,
        -(c * b) <= a <= c * b,
    ensures
        -c <= div_trunc(a, b) <= c,
{
    if a >= 0 {
        assert(a / b <= c && 0 <= a / b) by (nonlinear_arith)
            requires
                b >= 1,
                0 <= c,
                0 <= a <= c * b,
        ;
    } else {
        assert((-a) / b <= c && 0 <= (-a) / b) by (nonlinear_arith)
            requires
                b >= 1,
                0 <= c,
                0 <= -a <= c * b,
        ;
    }
}

/// Normalized linear interpolation (nlerp) of two quaternions:
/// componentwise interpolation with weights `(1 - t, t)`, renormalized to
/// unit length. The exact endpoints `t == 0` and `t == FX_ONE` pass their
/// input through unchanged, so an exact sample hit suffers no drift.
pub fn lerp_quaternion(q1: &Quaternion, q2: &Quaternion, t: i64) -> (r: Result<
    Quaternion,
    AnimationError,
>)
    requires
        quat_in_range(*q1),
        quat_in_range(*q2),
        fx_in_range(t as int),
    ensures
        r == lerp_quaternion_res(*q1, *q2, t as int),
{
    if t == 0 {
        return Ok(*q1);
    }
    if t == FX_ONE {
        return Ok(*q2);
    }
    let w = match fx_lerp(q1.w, q2.w, t) {
        Some(v) => v,
        None => { return Err(AnimationError::Overflow) },
    };
    let x = match fx_lerp(q1.x, q2.x, t) {
        Some(v) => v,
        None => { return Err(AnimationError::Overflow) },
    };
    let y = match fx_lerp(q1.y, q2.y, t) {
        Some(v) => v,
        None => { return Err(AnimationError::Overflow) },
    };
    let z = match fx_lerp(q1.z, q2.z, t) {
        Some(v) => v,
        None => { return Err(AnimationError::Overflow) },
    };
    proof {
        lemma_mul_range(w as int, w as int, FX_LIMIT as int, FX_LIMIT as int);
        lemma_mul_range(x as int, x as int, FX_LIMIT as int, FX_LIMIT as int);
        lemma_mul_range(y as int, y as int, FX_LIMIT as int, FX_LIMIT as int);
        lemma_mul_range(z as int, z as int, FX_LIMIT as int, FX_LIMIT as int);
        assert((w as int) * (w as int) >= 0 && (x as int) * (x as int) >= 0 && (y as int) * (
        y as int) >= 0 && (z as int) * (z as int) >= 0) by (nonlinear_arith);
    }
    let sum: i128 = (w as i128) * (w as i128) + (x as i128) * (x as i128) + (y as i128) * (
    y as i128) + (z as i128) * (z as i128);
    if sum == 0 {
        return Err(AnimationError::DegenerateQuaternion);
    }
    let len: u128 = isqrt(sum as u128);
    proof {
        lemma_isqrt_bounds(sum as nat);
        crate::fixed::lemma_isqrt_pos(sum as nat);
        lemma_sq_le(w as int, len as int);
        lemma_sq_le(x as int, len as int);
        lemma_sq_le(y as int, len as int);
        lemma_sq_le(z as int, len as int);
        lemma_mul_range(w as int, FX_ONE as int, FX_LIMIT as int, FX_ONE as int);
        lemma_mul_range(x as int, FX_ONE as int, FX_LIMIT as int, FX_ONE as int);
        lemma_mul_range(y as int, FX_ONE as int, FX_LIMIT as int, FX_ONE as int);
        lemma_mul_range(z as int, FX_ONE as int, FX_LIMIT as int, FX_ONE as int);
        assert(((len as int) * (FX_ONE as int)) >= (w as int) * (FX_ONE as int) >= -((
        len as int) * (FX_ONE as int))) by (nonlinear_arith)
            requires
                -(len as int) <= w as int <= len as int,
        ;
        assert(((len as int) * (FX_ONE as int)) >= (x as int) * (FX_ONE as int) >= -((
        len as int) * (FX_ONE as int))) by (nonlinear_arith)
            requires
                -(len as int) <= x as int <= len as int,
        ;
        assert(((len as int) * (FX_ONE as int)) >= (y as int) * (FX_ONE as int) >= -((
        len as int) * (FX_ONE as int))) by (nonlinear_arith)
            requires
                -(len as int) <= y as int <= len as int,
        ;
        assert(((len as int) * (FX_ONE as int)) >= (z as int) * (FX_ONE as int) >= -((
        len as int) * (FX_ONE as int))) by (nonlinear_arith)
            requires
                -(len as int) <= z as int <= len as int,
        ;
        lemma_div_trunc_bound((w as int) * (FX_ONE as int), len as int, FX_ONE as int);
        lemma_div_trunc_bound((x as int) * (FX_ONE as int), len as int, FX_ONE as int);
        lemma_div_trunc_bound((y as int) * (FX_ONE as int), len as int, FX_ONE as int);
        lemma_div_trunc_bound((z as int) * (FX_ONE as int), len as int, FX_ONE as int);
    }
    let nw: i128 = div_trunc_i128((w as i128) * (FX_ONE as i128), len as i128);
    let nx: i128 = div_trunc_i128((x as i128) * (FX_ONE as i128), len as i128);
    let ny: i128 = div_trunc_i128((y as i128) * (FX_ONE as i128), len as i128);
    let nz: i128 = div_trunc_i128((z as i128) * (FX_ONE as i128), len as i128);
    Ok(Quaternion { w: nw as i64, x: nx as i64, y: ny as i64, z: nz as i64 })
}

/// What `quaternion_to_matrix` returns: the rotation matrix of a
/// quaternion, with zero translation. `Err(Overflow)` when an entry leaves
/// the fixed-point range (possible only for far-from-unit inputs).
pub open spec fn quaternion_to_matrix_res(q: Quaternion) -> Result<Matrix4, AnimationError> {
    let xx = fx_mul_spec(q.x as int, q.x as int);
    let yy = fx_mul_spec(q.y as int, q.y as int);
    let zz = fx_mul_spec(q.z as int, q.z as int);
    let xy = fx_mul_spec(q.x as int, q.y as int);
    let xz = fx_mul_spec(q.x as int, q.z as int);
    let yz = fx_mul_spec(q.y as int, q.z as int);
    let wx = fx_mul_spec(q.w as int, q.x as int);
    let wy = fx_mul_spec(q.w as int, q.y as int);
    let wz = fx_mul_spec(q.w as int, q.z as int);
    let r00 = FX_ONE as int - 2 * (yy + zz);
    let r01 = 2 * (xy - wz);
    let r02 = 2 * (xz + wy);
    let r10 = 2 * (xy + wz);
    let r11 = FX_ONE as int - 2 * (xx + zz);
    let r12 = 2 * (yz - wx);
    let r20 = 2 * (xz - wy);
    let r21 = 2 * (yz + wx);
    let r22 = FX_ONE as int - 2 * (xx + yy);
    if fx_in_range(r00) && fx_in_range(r01) && fx_in_range(r02) && fx_in_range(r10)
        && fx_in_range(r11) && fx_in_range(r12) && fx_in_range(r20) && fx_in_range(r21)
        && fx_in_range(r22) {
        Ok(
            Matrix4 {
                m00: r00 as i64, m01: r01 as i64, m02: r02 as i64, m03: 0,
                m10: r10 as i64, m11: r11 as i64, m12: r12 as i64, m13: 0,
                m20: r20 as i64, m21: r21 as i64, m22: r22 as i64, m23: 0,
                m30: 0, m31: 0, m32: 0, m33: FX_ONE,
            },
        )
    } else {
        Err(AnimationError::Overflow)
    }
}

/// One scaled product of two in-range fixed-point factors, on `i128`.
fn fx_mul_wide(a: i64, b: i64) -> (r: i128)
    requires
        fx_in_range(a as int),
        fx_in_range(b as int),
    ensures
        r == fx_mul_spec(a as int, b as int),
        -(FX_LIMIT as int) * (FX_LIMIT as int) <= r <= (FX_LIMIT as int) * (FX_LIMIT as int),
{
    proof {
        lemma_mul_range(a as int, b as int, FX_LIMIT as int, FX_LIMIT as int);
    }
    let p: i128 = (a as i128) * (b as i128);
    let q: i128 = div_trunc_i128(p, FX_ONE as i128);
    proof {
        lemma_div_trunc_shrinks(p as int, FX_ONE as int);
        lemma_mul_range(FX_LIMIT as int, FX_LIMIT as int, FX_LIMIT as int, FX_LIMIT as int);
    }
    q
}

/// Converts a rotation quaternion to a row-major rotation matrix
/// (translation zero, homogeneous row and column the identity's).
pub fn quaternion_to_matrix(q: &Quaternion) -> (r: Result<Matrix4, AnimationError>)
    requires
        quat_in_range(*q),
    ensures
        r == quaternion_to_matrix_res(*q),
{
    let xx: i128 = fx_mul_wide(q.x, q.x);
    let yy: i128 = fx_mul_wide(q.y, q.y);
    let zz: i128 = fx_mul_wide(q.z, q.z);
    let xy: i128 = fx_mul_wide(q.x, q.y);
    let xz: i128 = fx_mul_wide(q.x, q.z);
    let yz: i128 = fx_mul_wide(q.y, q.z);
    let wx: i128 = fx_mul_wide(q.w, q.x);
    let wy: i128 = fx_mul_wide(q.w, q.y);
    let wz: i128 = fx_mul_wide(q.w, q.z);
    let r00: i128 = (FX_ONE as i128) - 2 * (yy + zz);
    let r01: i128 = 2 * (xy - wz);
    let r02: i128 = 2 * (xz + wy);
    let r10: i128 = 2 * (xy + wz);
    let r11: i128 = (FX_ONE as i128) - 2 * (xx + zz);
    let r12: i128 = 2 * (yz - wx);
    let r20: i128 = 2 * (xz - wy);
    let r21: i128 = 2 * (yz + wx);
    let r22: i128 = (FX_ONE as i128) - 2 * (xx + yy);
    let lim: i128 = FX_LIMIT as i128;
    if !(-lim <= r00 && r00 <= lim && -lim <= r01 && r01 <= lim && -lim <= r02 && r02 <= lim) {
        return Err(AnimationError::Overflow);
    }
    if !(-lim <= r10 && r10 <= lim && -lim <= r11 && r11 <= lim && -lim <= r12 && r12 <= lim) {
        return Err(AnimationError::Overflow);
    }
    if !(-lim <= r20 && r20 <= lim && -lim <= r21 && r21 <= lim && -lim <= r22 && r22 <= lim) {
        return Err(AnimationError::Overflow);
    }
    Ok(
        Matrix4 {
            m00: r00 as i64, m01: r01 as i64, m02: r02 as i64, m03: 0,
            m10: r10 as i64, m11: r11 as i64, m12: r12 as i64, m13: 0,
            m20: r20 as i64, m21: r21 as i64, m22: r22 as i64, m23: 0,
            m30: 0, m31: 0, m32: 0, m33: FX_ONE,
        },
    )
}

/// With a weight in `[0, 1]` and in-range inputs, a quaternion blend never
/// overflows, and a successful blend is itself in range (its components
/// have magnitude at most `FX_ONE`).
pub proof fn lemma_lerp_quaternion_in_range(q1: Quaternion, q2: Quaternion, t: int)
    requires
        quat_in_range(q1),
        quat_in_range(q2),
        0 <= t <= FX_ONE as int,
    ensures
        lerp_quaternion_res(q1, q2, t) != Err::<Quaternion, AnimationError>(
            AnimationError::Overflow,
        ),
        lerp_quaternion_res(q1, q2, t) matches Ok(q) ==> quat_in_range(q),
{
    if t != 0 && t != FX_ONE as int {
        crate::fixed::lemma_lerp_bounded(q1.w as int, q2.w as int, t);
        crate::fixed::lemma_lerp_bounded(q1.x as int, q2.x as int, t);
        crate::fixed::lemma_lerp_bounded(q1.y as int, q2.y as int, t);
        crate::fixed::lemma_lerp_bounded(q1.z as int, q2.z as int, t);
        let w = fx_lerp_spec(q1.w as int, q2.w as int, t);
        let x = fx_lerp_spec(q1.x as int, q2.x as int, t);
        let y = fx_lerp_spec(q1.y as int, q2.y as int, t);
        let z = fx_lerp_spec(q1.z as int, q2.z as int, t);
        let sum = w * w + x * x + y * y + z * z;
        lemma_mul_range(w, w, FX_LIMIT as int, FX_LIMIT as int);
        lemma_mul_range(x, x, FX_LIMIT as int, FX_LIMIT as int);
        lemma_mul_range(y, y, FX_LIMIT as int, FX_LIMIT as int);
        lemma_mul_range(z, z, FX_LIMIT as int, FX_LIMIT as int);
        assert(w * w >= 0 && x * x >= 0 && y * y >= 0 && z * z >= 0) by (nonlinear_arith);
        if sum != 0 {
            lemma_isqrt_bounds(sum as nat);
            crate::fixed::lemma_isqrt_pos(sum as nat);
            let len = isqrt_spec(sum as nat) as int;
            lemma_sq_le(w, len);
            lemma_sq_le(x, len);
            lemma_sq_le(y, len);
            lemma_sq_le(z, len);
            assert(-(len * (FX_ONE as int)) <= w * (FX_ONE as int) <= len * (FX_ONE as int)
                && -(len * (FX_ONE as int)) <= x * (FX_ONE as int) <= len * (FX_ONE as int)
                && -(len * (FX_ONE as int)) <= y * (FX_ONE as int) <= len * (FX_ONE as int)
                && -(len * (FX_ONE as int)) <= z * (FX_ONE as int) <= len * (FX_ONE as int))
                by (nonlinear_arith)
                requires
                    -len <= w <= len,
                    -len <= x <= len,
                    -len <= y <= len,
                    -len <= z <= len,
                    FX_ONE > 0,
            ;
            lemma_div_trunc_bound(w * (FX_ONE as int), len, FX_ONE as int);
            lemma_div_trunc_bound(x * (FX_ONE as int), len, FX_ONE as int);
            lemma_div_trunc_bound(y * (FX_ONE as int), len, FX_ONE as int);
            lemma_div_trunc_bound(z * (FX_ONE as int), len, FX_ONE as int);
        }
    }
}

/// A successful quaternion blend is in range whatever the weight: its
/// renormalized components have magnitude at most `FX_ONE`, and the
/// endpoint passthroughs return the (in-range) inputs.
pub proof fn lemma_lerp_quaternion_ok_in_range(q1: Quaternion, q2: Quaternion, t: int)
    requires
        quat_in_range(q1),
        quat_in_range(q2),
    ensures
        lerp_quaternion_res(q1, q2, t) matches Ok(q) ==> quat_in_range(q),
{
    if t != 0 && t != FX_ONE as int {
        let w = fx_lerp_spec(q1.w as int, q2.w as int, t);
        let x = fx_lerp_spec(q1.x as int, q2.x as int, t);
        let y = fx_lerp_spec(q1.y as int, q2.y as int, t);
        let z = fx_lerp_spec(q1.z as int, q2.z as int, t);
        if fx_in_range(w) && fx_in_range(x) && fx_in_range(y) && fx_in_range(z) {
            let sum = w * w + x * x + y * y + z * z;
            lemma_mul_range(w, w, FX_LIMIT as int, FX_LIMIT as int);
            lemma_mul_range(x, x, FX_LIMIT as int, FX_LIMIT as int);
            lemma_mul_range(y, y, FX_LIMIT as int, FX_LIMIT as int);
            lemma_mul_range(z, z, FX_LIMIT as int, FX_LIMIT as int);
            assert(w * w >= 0 && x * x >= 0 && y * y >= 0 && z * z >= 0) by (nonlinear_arith);
            if sum != 0 {
                lemma_isqrt_bounds(sum as nat);
                crate::fixed::lemma_isqrt_pos(sum as nat);
                let len = isqrt_spec(sum as nat) as int;
                lemma_sq_le(w, len);
                lemma_sq_le(x, len);
                lemma_sq_le(y, len);
                lemma_sq_le(z, len);
                assert(-(len * (FX_ONE as int)) <= w * (FX_ONE as int) <= len * (FX_ONE as int)
                    && -(len * (FX_ONE as int)) <= x * (FX_ONE as int) <= len * (FX_ONE as int)
                    && -(len * (FX_ONE as int)) <= y * (FX_ONE as int) <= len * (FX_ONE as int)
                    && -(len * (FX_ONE as int)) <= z * (FX_ONE as int) <= len * (FX_ONE as int))
                    by (nonlinear_arith)
                    requires
                        -len <= w <= len,
                        -len <= x <= len,
                        -len <= y <= len,
                        -len <= z <= len,
                        FX_ONE > 0,
                ;
                lemma_div_trunc_bound(w * (FX_ONE as int), len, FX_ONE as int);
                lemma_div_trunc_bound(x * (FX_ONE as int), len, FX_ONE as int);
                lemma_div_trunc_bound(y * (FX_ONE as int), len, FX_ONE as int);
                lemma_div_trunc_bound(z * (FX_ONE as int), len, FX_ONE as int);
            }
        }
    }
}

/// The scaled dot product of four fixed-point factor pairs: one entry of a
/// matrix product.
pub open spec fn dot4_spec(
    a0: int,
    b0: int,
    a1: int,
    b1: int,
    a2: int,
    b2: int,
    a3: int,
    b3: int,
) -> int {
    div_trunc(a0 * b0 + a1 * b1 + a2 * b2 + a3 * b3, FX_ONE as int)
}

/// One entry of a matrix product, or `None` when it leaves the range.
fn dot4(a0: i64, b0: i64, a1: i64, b1: i64, a2: i64, b2: i64, a3: i64, b3: i64) -> (r: Option<
    i64,
>)
    requires
        fx_in_range(a0 as int) && fx_in_range(b0 as int),
        fx_in_range(a1 as int) && fx_in_range(b1 as int),
        fx_in_range(a2 as int) && fx_in_range(b2 as int),
        fx_in_range(a3 as int) && fx_in_range(b3 as int),
    ensures
        r == (if fx_in_range(
            dot4_spec(
                a0 as int,
                b0 as int,
                a1 as int,
                b1 as int,
                a2 as int,
                b2 as int,
                a3 as int,
                b3 as int,
            ),
        ) {
            Some(
                dot4_spec(
                    a0 as int,
                    b0 as int,
                    a1 as int,
                    b1 as int,
                    a2 as int,
                    b2 as int,
                    a3 as int,
                    b3 as int,
                ) as i64,
            )
        } else {
            None::<i64>
        }),
{
    proof {
        lemma_mul_range(a0 as int, b0 as int, FX_LIMIT as int, FX_LIMIT as int);
        lemma_mul_range(a1 as int, b1 as int, FX_LIMIT as int, FX_LIMIT as int);
        lemma_mul_range(a2 as int, b2 as int, FX_LIMIT as int, FX_LIMIT as int);
        lemma_mul_range(a3 as int, b3 as int, FX_LIMIT as int, FX_LIMIT as int);
    }
    let s: i128 = (a0 as i128) * (b0 as i128) + (a1 as i128) * (b1 as i128) + (a2 as i128) * (
    b2 as i128) + (a3 as i128) * (b3 as i128);
    let q: i128 = div_trunc_i128(s, FX_ONE as i128);
    proof {
        lemma_div_trunc_shrinks(s as int, FX_ONE as int);
    }
    if -(FX_LIMIT as i128) <= q && q <= FX_LIMIT as i128 {
        Some(q as i64)
    } else {
        None
    }
}

/// Whether every entry of the matrix product stays in range.
pub open spec fn mat4_mul_fits(a: Matrix4, b: Matrix4) -> bool {
    &&& fx_in_range(dot4_spec(a.m00 as int, b.m00 as int, a.m01 as int, b.m10 as int, a.m02 as int, b.m20 as int, a.m03 as int, b.m30 as int))
    &&& fx_in_range(dot4_spec(a.m00 as int, b.m01 as int, a.m01 as int, b.m11 as int, a.m02 as int, b.m21 as int, a.m03 as int, b.m31 as int))
    &&& fx_in_range(dot4_spec(a.m00 as int, b.m02 as int, a.m01 as int, b.m12 as int, a.m02 as int, b.m22 as int, a.m03 as int, b.m32 as int))
    &&& fx_in_range(dot4_spec(a.m00 as int, b.m03 as int, a.m01 as int, b.m13 as int, a.m02 as int, b.m23 as int, a.m03 as int, b.m33 as int))
    &&& fx_in_range(dot4_spec(a.m10 as int, b.m00 as int, a.m11 as int, b.m10 as int, a.m12 as int, b.m20 as int, a.m13 as int, b.m30 as int))
    &&& fx_in_range(dot4_spec(a.m10 as int, b.m01 as int, a.m11 as int, b.m11 as int, a.m12 as int, b.m21 as int, a.m13 as int, b.m31 as int))
    &&& fx_in_range(dot4_spec(a.m10 as int, b.m02 as int, a.m11 as int, b.m12 as int, a.m12 as int, b.m22 as int, a.m13 as int, b.m32 as int))
    &&& fx_in_range(dot4_spec(a.m10 as int, b.m03 as int, a.m11 as int, b.m13 as int, a.m12 as int, b.m23 as int, a.m13 as int, b.m33 as int))
    &&& fx_in_range(dot4_spec(a.m20 as int, b.m00 as int, a.m21 as int, b.m10 as int, a.m22 as int, b.m20 as int, a.m23 as int, b.m30 as int))
    &&& fx_in_range(dot4_spec(a.m20 as int, b.m01 as int, a.m21 as int, b.m11 as int, a.m22 as int, b.m21 as int, a.m23 as int, b.m31 as int))
    &&& fx_in_range(dot4_spec(a.m20 as int, b.m02 as int, a.m21 as int, b.m12 as int, a.m22 as int, b.m22 as int, a.m23 as int, b.m32 as int))
    &&& fx_in_range(dot4_spec(a.m20 as int, b.m03 as int, a.m21 as int, b.m13 as int, a.m22 as int, b.m23 as int, a.m23 as int, b.m33 as int))
    &&& fx_in_range(dot4_spec(a.m30 as int, b.m00 as int, a.m31 as int, b.m10 as int, a.m32 as int, b.m20 as int, a.m33 as int, b.m30 as int))
    &&& fx_in_range(dot4_spec(a.m30 as int, b.m01 as int, a.m31 as int, b.m11 as int, a.m32 as int, b.m21 as int, a.m33 as int, b.m31 as int))
    &&& fx_in_range(dot4_spec(a.m30 as int, b.m02 as int, a.m31 as int, b.m12 as int, a.m32 as int, b.m22 as int, a.m33 as int, b.m32 as int))
    &&& fx_in_range(dot4_spec(a.m30 as int, b.m03 as int, a.m31 as int, b.m13 as int, a.m32 as int, b.m23 as int, a.m33 as int, b.m33 as int))
}

/// The matrix product with every entry truncated into `i64`; meaningful
/// when `mat4_mul_fits` holds.
pub open spec fn mat4_mul_full(a: Matrix4, b: Matrix4) -> Matrix4 {
    Matrix4 {
        m00: dot4_spec(a.m00 as int, b.m00 as int, a.m01 as int, b.m10 as int, a.m02 as int, b.m20 as int, a.m03 as int, b.m30 as int) as i64,
        m01: dot4_spec(a.m00 as int, b.m01 as int, a.m01 as int, b.m11 as int, a.m02 as int, b.m21 as int, a.m03 as int, b.m31 as int) as i64,
        m02: dot4_spec(a.m00 as int, b.m02 as int, a.m01 as int, b.m12 as int, a.m02 as int, b.m22 as int, a.m03 as int, b.m32 as int) as i64,
        m03: dot4_spec(a.m00 as int, b.m03 as int, a.m01 as int, b.m13 as int, a.m02 as int, b.m23 as int, a.m03 as int, b.m33 as int) as i64,
        m10: dot4_spec(a.m10 as int, b.m00 as int, a.m11 as int, b.m10 as int, a.m12 as int, b.m20 as int, a.m13 as int, b.m30 as int) as i64,
        m11: dot4_spec(a.m10 as int, b.m01 as int, a.m11 as int, b.m11 as int, a.m12 as int, b.m21 as int, a.m13 as int, b.m31 as int) as i64,
        m12: dot4_spec(a.m10 as int, b.m02 as int, a.m11 as int, b.m12 as int, a.m12 as int, b.m22 as int, a.m13 as int, b.m32 as int) as i64,
        m13: dot4_spec(a.m10 as int, b.m03 as int, a.m11 as int, b.m13 as int, a.m12 as int, b.m23 as int, a.m13 as int, b.m33 as int) as i64,
        m20: dot4_spec(a.m20 as int, b.m00 as int, a.m21 as int, b.m10 as int, a.m22 as int, b.m20 as int, a.m23 as int, b.m30 as int) as i64,
        m21: dot4_spec(a.m20 as int, b.m01 as int, a.m21 as int, b.m11 as int, a.m22 as int, b.m21 as int, a.m23 as int, b.m31 as int) as i64,
        m22: dot4_spec(a.m20 as int, b.m02 as int, a.m21 as int, b.m12 as int, a.m22 as int, b.m22 as int, a.m23 as int, b.m32 as int) as i64,
        m23: dot4_spec(a.m20 as int, b.m03 as int, a.m21 as int, b.m13 as int, a.m22 as int, b.m23 as int, a.m23 as int, b.m33 as int) as i64,
        m30: dot4_spec(a.m30 as int, b.m00 as int, a.m31 as int, b.m10 as int, a.m32 as int, b.m20 as int, a.m33 as int, b.m30 as int) as i64,
        m31: dot4_spec(a.m30 as int, b.m01 as int, a.m31 as int, b.m11 as int, a.m32 as int, b.m21 as int, a.m33 as int, b.m31 as int) as i64,
        m32: dot4_spec(a.m30 as int, b.m02 as int, a.m31 as int, b.m12 as int, a.m32 as int, b.m22 as int, a.m33 as int, b.m32 as int) as i64,
        m33: dot4_spec(a.m30 as int, b.m03 as int, a.m31 as int, b.m13 as int, a.m32 as int, b.m23 as int, a.m33 as int, b.m33 as int) as i64,
    }
}

/// What `row_mat4_mul` returns.
pub open spec fn mat4_mul_res(a: Matrix4, b: Matrix4) -> Result<Matrix4, AnimationError> {
    if mat4_mul_fits(a, b) {
        Ok(mat4_mul_full(a, b))
    } else {
        Err(AnimationError::Overflow)
    }
}

/// Row-major matrix product `a * b`.
pub fn row_mat4_mul(a: &Matrix4, b: &Matrix4) -> (r: Result<Matrix4, AnimationError>)
    requires
        mat4_in_range(*a),
        mat4_in_range(*b),
    ensures
        r == mat4_mul_res(*a, *b),
{
    let m00 = match dot4(a.m00, b.m00, a.m01, b.m10, a.m02, b.m20, a.m03, b.m30) {
        Some(v) => v,
        None => { return Err(AnimationError::Overflow) },
    };
    let m01 = match dot4(a.m00, b.m01, a.m01, b.m11, a.m02, b.m21, a.m03, b.m31) {
        Some(v) => v,
        None => { return Err(AnimationError::Overflow) },
    };
    let m02 = match dot4(a.m00, b.m02, a.m01, b.m12, a.m02, b.m22, a.m03, b.m32) {
        Some(v) => v,
        None => { return Err(AnimationError::Overflow) },
    };
    let m03 = match dot4(a.m00, b.m03, a.m01, b.m13, a.m02, b.m23, a.m03, b.m33) {
        Some(v) => v,
        None => { return Err(AnimationError::Overflow) },
    };
    let m10 = match dot4(a.m10, b.m00, a.m11, b.m10, a.m12, b.m20, a.m13, b.m30) {
        Some(v) => v,
        None => { return Err(AnimationError::Overflow) },
    };
    let m11 = match dot4(a.m10, b.m01, a.m11, b.m11, a.m12, b.m21, a.m13, b.m31) {
        Some(v) => v,
        None => { return Err(AnimationError::Overflow) },
    };
    let m12 = match dot4(a.m10, b.m02, a.m11, b.m12, a.m12, b.m22, a.m13, b.m32) {
        Some(v) => v,
        None => { return Err(AnimationError::Overflow) },
    };
    let m13 = match dot4(a.m10, b.m03, a.m11, b.m13, a.m12, b.m23, a.m13, b.m33) {
        Some(v) => v,
        None => { return Err(AnimationError::Overflow) },
    };
    let m20 = match dot4(a.m20, b.m00, a.m21, b.m10, a.m22, b.m20, a.m23, b.m30) {
        Some(v) => v,
        None => { return Err(AnimationError::Overflow) },
    };
    let m21 = match dot4(a.m20, b.m01, a.m21, b.m11, a.m22, b.m21, a.m23, b.m31) {
        Some(v) => v,
        None => { return Err(AnimationError::Overflow) },
    };
    let m22 = match dot4(a.m20, b.m02, a.m21, b.m12, a.m22, b.m22, a.m23, b.m32) {
        Some(v) => v,
        None => { return Err(AnimationError::Overflow) },
    };
    let m23 = match dot4(a.m20, b.m03, a.m21, b.m13, a.m22, b.m23, a.m23, b.m33) {
        Some(v) => v,
        None => { return Err(AnimationError::Overflow) },
    };
    let m30 = match dot4(a.m30, b.m00, a.m31, b.m10, a.m32, b.m20, a.m33, b.m30) {
        Some(v) => v,
        None => { return Err(AnimationError::Overflow) },
    };
    let m31 = match dot4(a.m30, b.m01, a.m31, b.m11, a.m32, b.m21, a.m33, b.m31) {
        Some(v) => v,
        None => { return Err(AnimationError::Overflow) },
    };
    let m32 = match dot4(a.m30, b.m02, a.m31, b.m12, a.m32, b.m22, a.m33, b.m32) {
        Some(v) => v,
        None => { return Err(AnimationError::Overflow) },
    };
    let m33 = match dot4(a.m30, b.m03, a.m31, b.m13, a.m32, b.m23, a.m33, b.m33) {
        Some(v) => v,
        None => { return Err(AnimationError::Overflow) },
    };
    Ok(
        Matrix4 {
            m00, m01, m02, m03,
            m10, m11, m12, m13,
            m20, m21, m22, m23,
            m30, m31, m32, m33,
        },
    )
}

/// What `row_mat4_transform` returns: the matrix applied to the point
/// `(v.x, v.y, v.z, 1)`, keeping the spatial components.
pub open spec fn mat4_transform_res(m: Matrix4, v: Vector3) -> Result<Vector3, AnimationError> {
    let x = dot4_spec(m.m00 as int, v.x as int, m.m01 as int, v.y as int, m.m02 as int, v.z as int, m.m03 as int, FX_ONE as int);
    let y = dot4_spec(m.m10 as int, v.x as int, m.m11 as int, v.y as int, m.m12 as int, v.z as int, m.m13 as int, FX_ONE as int);
    let z = dot4_spec(m.m20 as int, v.x as int, m.m21 as int, v.y as int, m.m22 as int, v.z as int, m.m23 as int, FX_ONE as int);
    if fx_in_range(x) && fx_in_range(y) && fx_in_range(z) {
        Ok(Vector3 { x: x as i64, y: y as i64, z: z as i64 })
    } else {
        Err(AnimationError::Overflow)
    }
}

/// Applies the matrix to the homogeneous point `(v, 1)`.
pub fn row_mat4_transform(m: &Matrix4, v: &Vector3) -> (r: Result<Vector3, AnimationError>)
    requires
        mat4_in_range(*m),
        vec3_in_range(*v),
    ensures
        r == mat4_transform_res(*m, *v),
{
    let x = match dot4(m.m00, v.x, m.m01, v.y, m.m02, v.z, m.m03, FX_ONE) {
        Some(t) => t,
        None => { return Err(AnimationError::Overflow) },
    };
    let y = match dot4(m.m10, v.x, m.m11, v.y, m.m12, v.z, m.m13, FX_ONE) {
        Some(t) => t,
        None => { return Err(AnimationError::Overflow) },
    };
    let z = match dot4(m.m20, v.x, m.m21, v.y, m.m22, v.z, m.m23, FX_ONE) {
        Some(t) => t,
        None => { return Err(AnimationError::Overflow) },
    };
    Ok(Vector3 { x, y, z })
}

/// What `matrix_to_quaternion` returns, by the branch taken: the trace
/// branch when the trace is positive, else the branch of the largest
/// diagonal entry. `Err(DegenerateQuaternion)` when the chosen branch's
/// radicand is not positive (no rotation matrix does that),
/// `Err(Overflow)` when a component leaves the range (far-from-orthonormal
/// input).
pub open spec fn matrix_to_quaternion_res(m: Matrix4) -> Result<Quaternion, AnimationError> {
    let one = FX_ONE as int;
    let trace = m.m00 as int + m.m11 as int + m.m22 as int;
    if trace > 0 {
        let s4 = 2 * isqrt_spec(((trace + one) * one) as nat) as int;
        let w = div_trunc(s4, 4);
        let x = div_trunc((m.m21 - m.m12) * one, s4);
        let y = div_trunc((m.m02 - m.m20) * one, s4);
        let z = div_trunc((m.m10 - m.m01) * one, s4);
        quat_checked(w, x, y, z)
    } else if m.m00 >= m.m11 && m.m00 >= m.m22 {
        let arg = one + m.m00 as int - m.m11 as int - m.m22 as int;
        if arg <= 0 {
            Err(AnimationError::DegenerateQuaternion)
        } else {
            let s4 = 2 * isqrt_spec((arg * one) as nat) as int;
            let x = div_trunc(s4, 4);
            let w = div_trunc((m.m21 - m.m12) * one, s4);
            let y = div_trunc((m.m01 + m.m10) * one, s4);
            let z = div_trunc((m.m02 + m.m20) * one, s4);
            quat_checked(w, x, y, z)
        }
    } else if m.m11 >= m.m22 {
        let arg = one + m.m11 as int - m.m00 as int - m.m22 as int;
        if arg <= 0 {
            Err(AnimationError::DegenerateQuaternion)
        } else {
            let s4 = 2 * isqrt_spec((arg * one) as nat) as int;
            let y = div_trunc(s4, 4);
            let w = div_trunc((m.m02 - m.m20) * one, s4);
            let x = div_trunc((m.m01 + m.m10) * one, s4);
            let z = div_trunc((m.m12 + m.m21) * one, s4);
            quat_checked(w, x, y, z)
        }
    } else {
        let arg = one + m.m22 as int - m.m00 as int - m.m11 as int;
        if arg <= 0 {
            Err(AnimationError::DegenerateQuaternion)
        } else {
            let s4 = 2 * isqrt_spec((arg * one) as nat) as int;
            let z = div_trunc(s4, 4);
            let w = div_trunc((m.m10 - m.m01) * one, s4);
            let x = div_trunc((m.m02 + m.m20) * one, s4);
            let y = div_trunc((m.m12 + m.m21) * one, s4);
            quat_checked(w, x, y, z)
        }
    }
}

/// A quaternion from components, if each is in range.
pub open spec fn quat_checked(w: int, x: int, y: int, z: int) -> Result<
    Quaternion,
    AnimationError,
> {
    if fx_in_range(w) && fx_in_range(x) && fx_in_range(y) && fx_in_range(z) {
        Ok(Quaternion { w: w as i64, x: x as i64, y: y as i64, z: z as i64 })
    } else {
        Err(AnimationError::Overflow)
    }
}

/// `2 * isqrt(arg * FX_ONE)` on `i128`, with its range facts.
fn scaled_sqrt4(arg: i128) -> (r: i128)
    requires
        1 <= arg <= 4 * (FX_LIMIT as i128) + (FX_ONE as i128),
    ensures
        r == 2 * isqrt_spec((arg * (FX_ONE as int)) as nat) as int,
        2 <= r < 8796093022208,  // 2^43
{
    proof {
        lemma_mul_range(arg as int, FX_ONE as int, 8 * FX_LIMIT as int, FX_ONE as int);
        assert((arg as int) * (FX_ONE as int) >= 65536) by (nonlinear_arith)
            requires
                arg >= 1,
        ;
        crate::fixed::lemma_isqrt_pos((arg * (FX_ONE as i128)) as nat);
    }
    let n: u128 = (arg as u128) * (FX_ONE as u128);
    let s: u128 = isqrt(n);
    2 * (s as i128)
}

/// One component of the quaternion decomposition: `num * FX_ONE / s4`,
/// truncated, on `i128`.
fn decomp_div(num: i128, s4: i128) -> (r: i128)
    requires
        2 <= s4,
        -(4 * (FX_LIMIT as i128)) <= num <= 4 * (FX_LIMIT as i128),
    ensures
        r == div_trunc(num * (FX_ONE as int), s4 as int),
{
    proof {
        lemma_mul_range(num as int, FX_ONE as int, 8 * FX_LIMIT as int, FX_ONE as int);
    }
    div_trunc_i128(num * (FX_ONE as i128), s4)
}

/// Recovers a rotation quaternion from the rotation block of a row-major
/// matrix, choosing the numerically largest of the four decompositions.
pub fn matrix_to_quaternion(m: &Matrix4) -> (r: Result<Quaternion, AnimationError>)
    requires
        mat4_in_range(*m),
    ensures
        r == matrix_to_quaternion_res(*m),
{
    let one: i128 = FX_ONE as i128;
    let trace: i128 = (m.m00 as i128) + (m.m11 as i128) + (m.m22 as i128);
    if trace > 0 {
        let s4 = scaled_sqrt4(trace + one);
        let w: i128 = (s4 as u128 / 4) as i128;
        proof {
            assert(w == div_trunc(s4 as int, 4));
        }
        let x = decomp_div((m.m21 as i128) - (m.m12 as i128), s4);
        let y = decomp_div((m.m02 as i128) - (m.m20 as i128), s4);
        let z = decomp_div((m.m10 as i128) - (m.m01 as i128), s4);
        quat_from_parts(w, x, y, z)
    } else if m.m00 >= m.m11 && m.m00 >= m.m22 {
        let arg: i128 = one + (m.m00 as i128) - (m.m11 as i128) - (m.m22 as i128);
        if arg <= 0 {
            return Err(AnimationError::DegenerateQuaternion);
        }
        let s4 = scaled_sqrt4(arg);
        let x: i128 = (s4 as u128 / 4) as i128;
        proof {
            assert(x == div_trunc(s4 as int, 4));
        }
        let w = decomp_div((m.m21 as i128) - (m.m12 as i128), s4);
        let y = decomp_div((m.m01 as i128) + (m.m10 as i128), s4);
        let z = decomp_div((m.m02 as i128) + (m.m20 as i128), s4);
        quat_from_parts(w, x, y, z)
    } else if m.m11 >= m.m22 {
        let arg: i128 = one + (m.m11 as i128) - (m.m00 as i128) - (m.m22 as i128);
        if arg <= 0 {
            return Err(AnimationError::DegenerateQuaternion);
        }
        let s4 = scaled_sqrt4(arg);
        let y: i128 = (s4 as u128 / 4) as i128;
        proof {
            assert(y == div_trunc(s4 as int, 4));
        }
        let w = decomp_div((m.m02 as i128) - (m.m20 as i128), s4);
        let x = decomp_div((m.m01 as i128) + (m.m10 as i128), s4);
        let z = decomp_div((m.m12 as i128) + (m.m21 as i128), s4);
        quat_from_parts(w, x, y, z)
    } else {
        let arg: i128 = one + (m.m22 as i128) - (m.m00 as i128) - (m.m11 as i128);
        if arg <= 0 {
            return Err(AnimationError::DegenerateQuaternion);
        }
        let s4 = scaled_sqrt4(arg);
        let z: i128 = (s4 as u128 / 4) as i128;
        proof {
            assert(z == div_trunc(s4 as int, 4));
        }
        let w = decomp_div((m.m10 as i128) - (m.m01 as i128), s4);
        let x = decomp_div((m.m02 as i128) + (m.m20 as i128), s4);
        let y = decomp_div((m.m12 as i128) + (m.m21 as i128), s4);
        quat_from_parts(w, x, y, z)
    }
}

/// Bundles checked components into a quaternion.
fn quat_from_parts(w: i128, x: i128, y: i128, z: i128) -> (r: Result<Quaternion, AnimationError>)
    ensures
        r == quat_checked(w as int, x as int, y as int, z as int),
{
    let lim: i128 = FX_LIMIT as i128;
    if -lim <= w && w <= lim && -lim <= x && x <= lim && -lim <= y && y <= lim && -lim <= z && z
        <= lim {
        Ok(Quaternion { w: w as i64, x: x as i64, y: y as i64, z: z as i64 })
    } else {
        Err(AnimationError::Overflow)
    }
}

/// Checks every entry of a matrix against the fixed-point range.
pub fn mat4_in_range_check(m: &Matrix4) -> (r: bool)
    ensures
        r == mat4_in_range(*m),
{
    -FX_LIMIT <= m.m00 && m.m00 <= FX_LIMIT && -FX_LIMIT <= m.m01 && m.m01 <= FX_LIMIT
        && -FX_LIMIT <= m.m02 && m.m02 <= FX_LIMIT && -FX_LIMIT <= m.m03 && m.m03 <= FX_LIMIT
        && -FX_LIMIT <= m.m10 && m.m10 <= FX_LIMIT && -FX_LIMIT <= m.m11 && m.m11 <= FX_LIMIT
        && -FX_LIMIT <= m.m12 && m.m12 <= FX_LIMIT && -FX_LIMIT <= m.m13 && m.m13 <= FX_LIMIT
        && -FX_LIMIT <= m.m20 && m.m20 <= FX_LIMIT && -FX_LIMIT <= m.m21 && m.m21 <= FX_LIMIT
        && -FX_LIMIT <= m.m22 && m.m22 <= FX_LIMIT && -FX_LIMIT <= m.m23 && m.m23 <= FX_LIMIT
        && -FX_LIMIT <= m.m30 && m.m30 <= FX_LIMIT && -FX_LIMIT <= m.m31 && m.m31 <= FX_LIMIT
        && -FX_LIMIT <= m.m32 && m.m32 <= FX_LIMIT && -FX_LIMIT <= m.m33 && m.m33 <= FX_LIMIT
}

/// Truncated division leaves a remainder smaller than the divisor.
proof fn lemma_trunc_div_err(d: int, len: int)
    requires
        len >= 1,
    ensures
        -len < len * div_trunc(d, len) - d < len,
{
    if d >= 0 {
        assert(-len < len * (d / len) - d <= 0) by (nonlinear_arith)
            requires
                len >= 1,
                d >= 0,
        ;
    } else {
        assert(0 <= len * (-((-d) / len)) - d < len) by (nonlinear_arith)
            requires
                len >= 1,
                d < 0,
        ;
    }
}

/// The squared error of one renormalized component, scaled by the squared
/// magnitude.
proof fn lemma_sq_err(a: int, b: int, len: int)
    requires
        len >= 1,
        -len < a - b < len,
        -(len * (FX_ONE as int)) <= a <= len * (FX_ONE as int),
        -(len * (FX_ONE as int)) <= b <= len * (FX_ONE as int),
    ensures
        -(2 * (FX_ONE as int) * len * len) <= a * a - b * b <= 2 * (FX_ONE as int) * len * len,
{
    assert(-(2 * 65536 * len * len) <= a * a - b * b <= 2 * 65536 * len * len)
        by (nonlinear_arith)
        requires
            len >= 1,
            -len < a - b < len,
            -(len * 65536) <= a <= len * 65536,
            -(len * 65536) <= b <= len * 65536,
    ;
}

/// Unit-norm law, general case: as long as the raw componentwise blend is
/// not close to degenerate (magnitude at least a quarter of unit length,
/// which unit inputs guarantee except near antipodal pairs),
/// renormalization brings the result's squared magnitude within
/// `16 * FX_ONE` of exactly one — a relative error of at most `2^-12`.
#[verifier::rlimit(100)]
pub proof fn lemma_nlerp_norm_bound(q1: Quaternion, q2: Quaternion, t: int)
    requires
        quat_in_range(q1),
        quat_in_range(q2),
        0 < t < FX_ONE as int,
        lerp_quaternion_res(q1, q2, t) is Ok,
        nlerp_sum_sq(q1, q2, t) >= 268435456,  // (FX_ONE / 4)^2
    ensures
        ({
            let q = lerp_quaternion_res(q1, q2, t)->Ok_0;
            (FX_ONE as int) * (FX_ONE as int) - 16 * (FX_ONE as int) <= quat_norm_sq_scaled(q)
                <= (FX_ONE as int) * (FX_ONE as int) + 16 * (FX_ONE as int)
        }),
{
    let one = FX_ONE as int;
    let w = fx_lerp_spec(q1.w as int, q2.w as int, t);
    let x = fx_lerp_spec(q1.x as int, q2.x as int, t);
    let y = fx_lerp_spec(q1.y as int, q2.y as int, t);
    let z = fx_lerp_spec(q1.z as int, q2.z as int, t);
    let sum = w * w + x * x + y * y + z * z;
    assert(sum == nlerp_sum_sq(q1, q2, t));
    lemma_isqrt_bounds(sum as nat);
    crate::fixed::lemma_isqrt_pos(sum as nat);
    let len = isqrt_spec(sum as nat) as int;
    assert(len >= 16384) by (nonlinear_arith)
        requires
            sum >= 268435456,
            (sum as nat) < ((len + 1) * (len + 1)) as nat,
            len >= 1,
    ;
    // Each component is within the magnitude, so the quotients are within
    // one unit.
    assert(w * w >= 0 && x * x >= 0 && y * y >= 0 && z * z >= 0) by (nonlinear_arith);
    assert(w * w <= sum && x * x <= sum && y * y <= sum && z * z <= sum) by (nonlinear_arith)
        requires
            w * w >= 0 && x * x >= 0 && y * y >= 0 && z * z >= 0,
            sum == w * w + x * x + y * y + z * z,
    ;
    lemma_sq_le(w, len);
    lemma_sq_le(x, len);
    lemma_sq_le(y, len);
    lemma_sq_le(z, len);
    let nw = div_trunc(w * one, len);
    let nx = div_trunc(x * one, len);
    let ny = div_trunc(y * one, len);
    let nz = div_trunc(z * one, len);
    lemma_trunc_div_err(w * one, len);
    lemma_trunc_div_err(x * one, len);
    lemma_trunc_div_err(y * one, len);
    lemma_trunc_div_err(z * one, len);
    assert(-(len * one) <= w * one <= len * one && -(len * one) <= x * one <= len * one && -(
    len * one) <= y * one <= len * one && -(len * one) <= z * one <= len * one)
        by (nonlinear_arith)
        requires
            -len <= w <= len,
            -len <= x <= len,
            -len <= y <= len,
            -len <= z <= len,
            one == 65536,
    ;
    lemma_div_trunc_bound(w * one, len, one);
    lemma_div_trunc_bound(x * one, len, one);
    lemma_div_trunc_bound(y * one, len, one);
    lemma_div_trunc_bound(z * one, len, one);
    assert(-(len * one) <= len * nw <= len * one && -(len * one) <= len * nx <= len * one && -(
    len * one) <= len * ny <= len * one && -(len * one) <= len * nz <= len * one)
        by (nonlinear_arith)
        requires
            -one <= nw <= one,
            -one <= nx <= one,
            -one <= ny <= one,
            -one <= nz <= one,
            len >= 1,
    ;
    lemma_sq_err(len * nw, w * one, len);
    lemma_sq_err(len * nx, x * one, len);
    lemma_sq_err(len * ny, y * one, len);
    lemma_sq_err(len * nz, z * one, len);
    let nsum = nw * nw + nx * nx + ny * ny + nz * nz;
    // Sum the per-component errors: the scaled squared magnitudes differ
    // by at most 8 * FX_ONE * len^2.
    assert((len * nw) * (len * nw) == len * len * (nw * nw)) by (nonlinear_arith);
    assert((len * nx) * (len * nx) == len * len * (nx * nx)) by (nonlinear_arith);
    assert((len * ny) * (len * ny) == len * len * (ny * ny)) by (nonlinear_arith);
    assert((len * nz) * (len * nz) == len * len * (nz * nz)) by (nonlinear_arith);
    assert((w * one) * (w * one) == one * one * (w * w)) by (nonlinear_arith);
    assert((x * one) * (x * one) == one * one * (x * x)) by (nonlinear_arith);
    assert((y * one) * (y * one) == one * one * (y * y)) by (nonlinear_arith);
    assert((z * one) * (z * one) == one * one * (z * z)) by (nonlinear_arith);
    assert(len * len * nsum == len * len * (nw * nw) + len * len * (nx * nx) + len * len * (ny
        * ny) + len * len * (nz * nz)) by (nonlinear_arith)
        requires
            nsum == nw * nw + nx * nx + ny * ny + nz * nz,
    ;
    assert(one * one * sum == one * one * (w * w) + one * one * (x * x) + one * one * (y * y)
        + one * one * (z * z)) by (nonlinear_arith)
        requires
            sum == w * w + x * x + y * y + z * z,
    ;
    assert(-(8 * one * len * len) <= len * len * nsum - one * one * sum <= 8 * one * len * len)
        by (nonlinear_arith)
        requires
            len * len * nsum == len * len * (nw * nw) + len * len * (nx * nx) + len * len * (
            ny * ny) + len * len * (nz * nz),
            one * one * sum == one * one * (w * w) + one * one * (x * x) + one * one * (y * y)
                + one * one * (z * z),
            (len * nw) * (len * nw) == len * len * (nw * nw),
            (len * nx) * (len * nx) == len * len * (nx * nx),
            (len * ny) * (len * ny) == len * len * (ny * ny),
            (len * nz) * (len * nz) == len * len * (nz * nz),
            (w * one) * (w * one) == one * one * (w * w),
            (x * one) * (x * one) == one * one * (x * x),
            (y * one) * (y * one) == one * one * (y * y),
            (z * one) * (z * one) == one * one * (z * z),
            -(2 * (FX_ONE as int) * len * len) <= (len * nw) * (len * nw) - (w * one) * (w
                * one) <= 2 * (FX_ONE as int) * len * len,
            -(2 * (FX_ONE as int) * len * len) <= (len * nx) * (len * nx) - (x * one) * (x
                * one) <= 2 * (FX_ONE as int) * len * len,
            -(2 * (FX_ONE as int) * len * len) <= (len * ny) * (len * ny) - (y * one) * (y
                * one) <= 2 * (FX_ONE as int) * len * len,
            -(2 * (FX_ONE as int) * len * len) <= (len * nz) * (len * nz) - (z * one) * (z
                * one) <= 2 * (FX_ONE as int) * len * len,
            one == FX_ONE as int,
    ;
    // The squared magnitude is pinched between len^2 and (len + 1)^2.
    assert(one * one * (len * len) <= one * one * sum) by (nonlinear_arith)
        requires
            len * len <= sum,
            one == 65536,
    ;
    assert(one * one * sum <= one * one * (len * len) + 2 * one * one * len)
        by (nonlinear_arith)
        requires
            sum < (len + 1) * (len + 1),
            one == 65536,
    ;
    assert(2 * one * one * len <= 8 * one * len * len) by (nonlinear_arith)
        requires
            len >= 16384,
            one == 65536,
    ;
    assert(one * one - 8 * one <= nsum <= one * one + 16 * one) by (nonlinear_arith)
        requires
            len >= 1,
            one * one * (len * len) - 8 * one * len * len <= len * len * nsum,
            len * len * nsum <= one * one * (len * len) + 2 * one * one * len + 8 * one * len
                * len,
            2 * one * one * len <= 8 * one * len * len,
            one == 65536,
    ;
    let q = lerp_quaternion_res(q1, q2, t)->Ok_0;
    assert(q.w as int == nw && q.x as int == nx && q.y as int == ny && q.z as int == nz);
}

/// Identity blend law: blending with weight zero returns the first
/// quaternion exactly, and with weight one the second, with no drift.
pub proof fn lemma_lerp_quaternion_identity(q1: Quaternion, q2: Quaternion)
    ensures
        lerp_quaternion_res(q1, q2, 0) == Ok::<Quaternion, AnimationError>(q1),
        lerp_quaternion_res(q1, q2, FX_ONE as int) == Ok::<Quaternion, AnimationError>(q2),
{
}

/// Unit-norm law, exact case: when the componentwise blend happens to have
/// exactly unit magnitude, renormalization is the identity and the result
/// is exactly unit length.
pub proof fn lemma_nlerp_exact_unit(q1: Quaternion, q2: Quaternion, t: int)
    requires
        quat_in_range(q1),
        quat_in_range(q2),
        0 < t < FX_ONE as int,
        nlerp_sum_sq(q1, q2, t) == (FX_ONE as int) * (FX_ONE as int),
    ensures
        lerp_quaternion_res(q1, q2, t) matches Ok(q) && quat_norm_sq_scaled(q) == (
        FX_ONE as int) * (FX_ONE as int),
{
    let w = fx_lerp_spec(q1.w as int, q2.w as int, t);
    let x = fx_lerp_spec(q1.x as int, q2.x as int, t);
    let y = fx_lerp_spec(q1.y as int, q2.y as int, t);
    let z = fx_lerp_spec(q1.z as int, q2.z as int, t);
    let one = FX_ONE as int;
    let sum = w * w + x * x + y * y + z * z;
    assert(w * w >= 0 && x * x >= 0 && y * y >= 0 && z * z >= 0) by (nonlinear_arith);
    assert(w * w < (one + 1) * (one + 1) && x * x < (one + 1) * (one + 1) && y * y < (one + 1)
        * (one + 1) && z * z < (one + 1) * (one + 1)) by (nonlinear_arith)
        requires
            w * w >= 0,
            x * x >= 0,
            y * y >= 0,
            z * z >= 0,
            w * w + x * x + y * y + z * z == one * one,
            one == 65536,
    ;
    lemma_sq_le(w, one);
    lemma_sq_le(x, one);
    lemma_sq_le(y, one);
    lemma_sq_le(z, one);
    let s16: nat = 65536;
    assert(s16 * s16 <= sum as nat && (sum as nat) < (s16 + 1) * (s16 + 1)) by (nonlinear_arith)
        requires
            sum as nat == 4294967296nat,
            s16 == 65536nat,
    ;
    crate::fixed::lemma_isqrt_unique(sum as nat, s16);
    crate::fixed::lemma_div_trunc_cancel(w, one);
    crate::fixed::lemma_div_trunc_cancel(x, one);
    crate::fixed::lemma_div_trunc_cancel(y, one);
    crate::fixed::lemma_div_trunc_cancel(z, one);
    assert(w * one == w * (FX_ONE as int));
    let q = lerp_quaternion_res(q1, q2, t)->Ok_0;
    assert(q.w as int == w && q.x as int == x && q.y as int == y && q.z as int == z);
}

} // verus!
