//! Fixed-point quaternions and rotation vectors.
//!
//! A quaternion holds four fixed-point components `(x, y, z, w)`; a rotation
//! is a unit quaternion, and the logarithm/exponential maps move between a
//! rotation and its rotation vector (axis times half the angle). The
//! component-wise sum and difference are deliberate 4-vector operations, not
//! group operations: the warp curves use them as additive correction terms.

use vstd::prelude::*;
use crate::fx::{
    fx_atan2, fx_atan2_spec, fx_cos, fx_cos_spec, fx_ok, fx_sin, fx_sin_spec, fx_sqrt,
    fx_sqrt_spec, fxadd, fxadd_spec, fxdiv, fxdiv_spec, fxmul, fxmul_spec, fxsub, fxsub_spec,
    iabs, SCALE,
};

verus! {

/// A fixed-point 3-vector.
#[derive(Clone, Copy, PartialEq, Eq, Structural, Debug)]
pub struct Vec3 {
    pub x: i128,
    pub y: i128,
    pub z: i128,
}

/// A fixed-point quaternion, `(x, y, z, w)` with `w` the scalar part.
#[derive(Clone, Copy, PartialEq, Eq, Structural, Debug)]
pub struct Quat {
    pub x: i128,
    pub y: i128,
    pub z: i128,
    pub w: i128,
}

/// Mathematical image of a `Vec3`.
pub ghost struct V3 {
    pub x: int,
    pub y: int,
    pub z: int,
}

/// Mathematical image of a `Quat`.
pub ghost struct Q4 {
    pub x: int,
    pub y: int,
    pub z: int,
    pub w: int,
}

impl View for Vec3 {
    type V = V3;

    open spec fn view(&self) -> V3 {
        V3 { x: self.x as int, y: self.y as int, z: self.z as int }
    }
}

impl View for Quat {
    type V = Q4;

    open spec fn view(&self) -> Q4 {
        Q4 { x: self.x as int, y: self.y as int, z: self.z as int, w: self.w as int }
    }
}

pub open spec fn v3_ok(v: V3) -> bool {
    fx_ok(v.x) && fx_ok(v.y) && fx_ok(v.z)
}

pub open spec fn quat_ok(q: Q4) -> bool {
    fx_ok(q.x) && fx_ok(q.y) && fx_ok(q.z) && fx_ok(q.w)
}

pub open spec fn identity_spec() -> Q4 {
    Q4 { x: 0, y: 0, z: 0, w: SCALE as int }
}

/// The identity rotation.
pub fn identity() -> (r: Quat)
    ensures
        r@ == identity_spec(),
        quat_ok(r@),
{
    Quat { x: 0, y: 0, z: 0, w: SCALE }
}

pub open spec fn zero_v3_spec() -> V3 {
    V3 { x: 0, y: 0, z: 0 }
}

/// Hamilton product.
pub open spec fn qmul_spec(a: Q4, b: Q4) -> Q4 {
    Q4 {
        x: fxsub_spec(
            fxadd_spec(fxadd_spec(fxmul_spec(a.w, b.x), fxmul_spec(a.x, b.w)), fxmul_spec(a.y, b.z)),
            fxmul_spec(a.z, b.y),
        ),
        y: fxadd_spec(
            fxadd_spec(fxsub_spec(fxmul_spec(a.w, b.y), fxmul_spec(a.x, b.z)), fxmul_spec(a.y, b.w)),
            fxmul_spec(a.z, b.x),
        ),
        z: fxadd_spec(
            fxsub_spec(fxadd_spec(fxmul_spec(a.w, b.z), fxmul_spec(a.x, b.y)), fxmul_spec(a.y, b.x)),
            fxmul_spec(a.z, b.w),
        ),
        w: fxsub_spec(
            fxsub_spec(fxsub_spec(fxmul_spec(a.w, b.w), fxmul_spec(a.x, b.x)), fxmul_spec(a.y, b.y)),
            fxmul_spec(a.z, b.z),
        ),
    }
}

/// Hamilton product of two quaternions.
pub fn qmul(a: Quat, b: Quat) -> (r: Quat)
    requires
        quat_ok(a@),
        quat_ok(b@),
    ensures
        r@ == qmul_spec(a@, b@),
        quat_ok(r@),
{
    Quat {
        x: fxsub(fxadd(fxadd(fxmul(a.w, b.x), fxmul(a.x, b.w)), fxmul(a.y, b.z)), fxmul(a.z, b.y)),
        y: fxadd(fxadd(fxsub(fxmul(a.w, b.y), fxmul(a.x, b.z)), fxmul(a.y, b.w)), fxmul(a.z, b.x)),
        z: fxadd(fxsub(fxadd(fxmul(a.w, b.z), fxmul(a.x, b.y)), fxmul(a.y, b.x)), fxmul(a.z, b.w)),
        w: fxsub(fxsub(fxsub(fxmul(a.w, b.w), fxmul(a.x, b.x)), fxmul(a.y, b.y)), fxmul(a.z, b.z)),
    }
}

/// Component-wise 4-vector sum (not a rotation composition).
pub open spec fn qadd_spec(a: Q4, b: Q4) -> Q4 {
    Q4 {
        x: fxadd_spec(a.x, b.x),
        y: fxadd_spec(a.y, b.y),
        z: fxadd_spec(a.z, b.z),
        w: fxadd_spec(a.w, b.w),
    }
}

/// Component-wise 4-vector sum of two quaternions.
pub fn qadd(a: Quat, b: Quat) -> (r: Quat)
    requires
        quat_ok(a@),
        quat_ok(b@),
    ensures
        r@ == qadd_spec(a@, b@),
        quat_ok(r@),
{
    Quat {
        x: fxadd(a.x, b.x),
        y: fxadd(a.y, b.y),
        z: fxadd(a.z, b.z),
        w: fxadd(a.w, b.w),
    }
}

/// Component-wise 4-vector difference (not a rotation composition).
pub open spec fn qsub_spec(a: Q4, b: Q4) -> Q4 {
    Q4 {
        x: fxsub_spec(a.x, b.x),
        y: fxsub_spec(a.y, b.y),
        z: fxsub_spec(a.z, b.z),
        w: fxsub_spec(a.w, b.w),
    }
}

/// Component-wise 4-vector difference of two quaternions.
pub fn qsub(a: Quat, b: Quat) -> (r: Quat)
    requires
        quat_ok(a@),
        quat_ok(b@),
    ensures
        r@ == qsub_spec(a@, b@),
        quat_ok(r@),
{
    Quat {
        x: fxsub(a.x, b.x),
        y: fxsub(a.y, b.y),
        z: fxsub(a.z, b.z),
        w: fxsub(a.w, b.w),
    }
}

pub open spec fn qneg_spec(a: Q4) -> Q4 {
    Q4 { x: -a.x, y: -a.y, z: -a.z, w: -a.w }
}

/// Component-wise negation; represents the same rotation.
pub fn qneg(a: Quat) -> (r: Quat)
    requires
        quat_ok(a@),
    ensures
        r@ == qneg_spec(a@),
        quat_ok(r@),
{
    Quat { x: -a.x, y: -a.y, z: -a.z, w: -a.w }
}

pub open spec fn qconj_spec(a: Q4) -> Q4 {
    Q4 { x: -a.x, y: -a.y, z: -a.z, w: a.w }
}

/// Conjugate: the inverse of a unit quaternion, which is what the host math
/// library's `inverse` computes as well.
pub fn qconj(a: Quat) -> (r: Quat)
    requires
        quat_ok(a@),
    ensures
        r@ == qconj_spec(a@),
        quat_ok(r@),
{
    Quat { x: -a.x, y: -a.y, z: -a.z, w: a.w }
}

/// 4-vector dot product.
pub open spec fn qdot_spec(a: Q4, b: Q4) -> int {
    fxadd_spec(
        fxadd_spec(fxadd_spec(fxmul_spec(a.x, b.x), fxmul_spec(a.y, b.y)), fxmul_spec(a.z, b.z)),
        fxmul_spec(a.w, b.w),
    )
}

/// 4-vector dot product of two quaternions.
pub fn qdot(a: Quat, b: Quat) -> (r: i128)
    requires
        quat_ok(a@),
        quat_ok(b@),
    ensures
        r == qdot_spec(a@, b@),
        fx_ok(r as int),
{
    fxadd(fxadd(fxadd(fxmul(a.x, b.x), fxmul(a.y, b.y)), fxmul(a.z, b.z)), fxmul(a.w, b.w))
}

pub open spec fn v3scale_spec(v: V3, s: int) -> V3 {
    V3 { x: fxmul_spec(v.x, s), y: fxmul_spec(v.y, s), z: fxmul_spec(v.z, s) }
}

/// Scale a rotation vector by a fixed-point factor.
pub fn v3scale(v: Vec3, s: i128) -> (r: Vec3)
    requires
        v3_ok(v@),
        fx_ok(s as int),
    ensures
        r@ == v3scale_spec(v@, s as int),
        v3_ok(r@),
{
    Vec3 { x: fxmul(v.x, s), y: fxmul(v.y, s), z: fxmul(v.z, s) }
}

pub open spec fn v3add_spec(a: V3, b: V3) -> V3 {
    V3 { x: fxadd_spec(a.x, b.x), y: fxadd_spec(a.y, b.y), z: fxadd_spec(a.z, b.z) }
}

/// Component-wise sum of two rotation vectors.
pub fn v3add(a: Vec3, b: Vec3) -> (r: Vec3)
    requires
        v3_ok(a@),
        v3_ok(b@),
    ensures
        r@ == v3add_spec(a@, b@),
        v3_ok(r@),
{
    Vec3 { x: fxadd(a.x, b.x), y: fxadd(a.y, b.y), z: fxadd(a.z, b.z) }
}

pub open spec fn v3neg_spec(v: V3) -> V3 {
    V3 { x: -v.x, y: -v.y, z: -v.z }
}

/// Component-wise negation of a rotation vector.
pub fn v3neg(v: Vec3) -> (r: Vec3)
    requires
        v3_ok(v@),
    ensures
        r@ == v3neg_spec(v@),
        v3_ok(r@),
{
    Vec3 { x: -v.x, y: -v.y, z: -v.z }
}

pub open spec fn v3div_spec(v: V3, s: int) -> V3 {
    V3 { x: fxdiv_spec(v.x, s), y: fxdiv_spec(v.y, s), z: fxdiv_spec(v.z, s) }
}

/// Divide a rotation vector by a fixed-point scalar.
pub fn v3div(v: Vec3, s: i128) -> (r: Vec3)
    requires
        v3_ok(v@),
        fx_ok(s as int),
    ensures
        r@ == v3div_spec(v@, s as int),
        v3_ok(r@),
{
    Vec3 { x: fxdiv(v.x, s), y: fxdiv(v.y, s), z: fxdiv(v.z, s) }
}

/// Squared Euclidean norm of a rotation vector.
pub open spec fn v3_norm2_spec(v: V3) -> int {
    fxadd_spec(fxadd_spec(fxmul_spec(v.x, v.x), fxmul_spec(v.y, v.y)), fxmul_spec(v.z, v.z))
}

/// What `normalize` returns: each component divided by the 4-vector norm;
/// the zero 4-vector normalizes to the identity.
pub open spec fn normalize_spec(q: Q4) -> Q4 {
    let n = fx_sqrt_spec(qdot_spec(q, q));
    if n == 0 {
        identity_spec()
    } else {
        Q4 {
            x: fxdiv_spec(q.x, n),
            y: fxdiv_spec(q.y, n),
            z: fxdiv_spec(q.z, n),
            w: fxdiv_spec(q.w, n),
        }
    }
}

/// Scale a 4-vector back onto the unit sphere, so that a blended correction
/// can again be used as a rotation.
pub fn normalize(q: Quat) -> (r: Quat)
    requires
        quat_ok(q@),
    ensures
        r@ == normalize_spec(q@),
        quat_ok(r@),
{
    let n2 = qdot(q, q);
    let n = fx_sqrt(n2);
    if n == 0 {
        identity()
    } else {
        Quat { x: fxdiv(q.x, n), y: fxdiv(q.y, n), z: fxdiv(q.z, n), w: fxdiv(q.w, n) }
    }
}

/// Magnitude below which the exponential map returns the identity exactly
/// rather than dividing by a vanishing norm (10^-6 in fixed point).
pub const EXP_EPS: i128 = 1099512;

/// What `log_map` returns: the rotation vector of a rotation, the zero
/// vector exactly when the scalar part reaches one.
pub open spec fn log_map_spec(q: Q4) -> V3 {
    if q.w >= SCALE {
        zero_v3_spec()
    } else {
        let n = fx_sqrt_spec(v3_norm2_spec(V3 { x: q.x, y: q.y, z: q.z }));
        let angle = fx_atan2_spec(n, q.w);
        V3 {
            x: fxmul_spec(fxdiv_spec(q.x, n), angle),
            y: fxmul_spec(fxdiv_spec(q.y, n), angle),
            z: fxmul_spec(fxdiv_spec(q.z, n), angle),
        }
    }
}

/// Quaternion logarithm: the rotation vector (axis times half the rotation
/// angle). The identity rotation maps to the zero vector exactly.
pub fn log_map(q: Quat) -> (r: Vec3)
    requires
        quat_ok(q@),
    ensures
        r@ == log_map_spec(q@),
        v3_ok(r@),
{
    if q.w >= SCALE {
        Vec3 { x: 0, y: 0, z: 0 }
    } else {
        let n2 = fxadd(fxadd(fxmul(q.x, q.x), fxmul(q.y, q.y)), fxmul(q.z, q.z));
        let n = fx_sqrt(n2);
        let angle = fx_atan2(n, q.w);
        Vec3 {
            x: fxmul(fxdiv(q.x, n), angle),
            y: fxmul(fxdiv(q.y, n), angle),
            z: fxmul(fxdiv(q.z, n), angle),
        }
    }
}

/// What `exp_map` returns: a vector of near-zero magnitude maps to the
/// identity exactly.
pub open spec fn exp_map_spec(e: V3) -> Q4 {
    let n = fx_sqrt_spec(v3_norm2_spec(e));
    if n <= EXP_EPS {
        identity_spec()
    } else {
        let s = fxdiv_spec(fx_sin_spec(n), n);
        Q4 {
            x: fxmul_spec(e.x, s),
            y: fxmul_spec(e.y, s),
            z: fxmul_spec(e.z, s),
            w: fx_cos_spec(n),
        }
    }
}

/// Quaternion exponential: maps a rotation vector back to a rotation.
/// A near-zero vector maps to the identity exactly, avoiding the unstable
/// `sin(x)/x` form near zero.
pub fn exp_map(e: Vec3) -> (r: Quat)
    requires
        v3_ok(e@),
    ensures
        r@ == exp_map_spec(e@),
        quat_ok(r@),
{
    let n2 = fxadd(fxadd(fxmul(e.x, e.x), fxmul(e.y, e.y)), fxmul(e.z, e.z));
    let n = fx_sqrt(n2);
    if n <= EXP_EPS {
        identity()
    } else {
        let s = fxdiv(fx_sin(n), n);
        Quat { x: fxmul(e.x, s), y: fxmul(e.y, s), z: fxmul(e.z, s), w: fx_cos(n) }
    }
}

/// What `quat_pow_f` returns.
pub open spec fn quat_pow_f_spec(q: Q4, f: int) -> Q4 {
    exp_map_spec(v3scale_spec(log_map_spec(q), f))
}

/// Raise a rotation to a fixed-point power: same axis, angle scaled by `f`.
pub fn quat_pow_f(q: Quat, f: i128) -> (r: Quat)
    requires
        quat_ok(q@),
        fx_ok(f as int),
    ensures
        r@ == quat_pow_f_spec(q@, f as int),
        quat_ok(r@),
{
    exp_map(v3scale(log_map(q), f))
}

/// What `slerp` returns.
pub open spec fn slerp_spec(a: Q4, b: Q4, t: int) -> Q4 {
    let bs = if qdot_spec(a, b) < 0 {
        qneg_spec(b)
    } else {
        b
    };
    qmul_spec(quat_pow_f_spec(qmul_spec(bs, qconj_spec(a)), t), a)
}

/// Spherical linear interpolation along the shorter arc: the relative
/// rotation is raised to the power `t` and recomposed with the start.
pub fn slerp(a: Quat, b: Quat, t: i128) -> (r: Quat)
    requires
        quat_ok(a@),
        quat_ok(b@),
        fx_ok(t as int),
    ensures
        r@ == slerp_spec(a@, b@, t as int),
        quat_ok(r@),
{
    let d = qdot(a, b);
    let bs = if d < 0 {
        qneg(b)
    } else {
        b
    };
    qmul(quat_pow_f(qmul(bs, qconj(a)), t), a)
}

proof fn lemma_fxmul_neg(x: int, y: int)
    ensures
        fxmul_spec(x, -y) == -fxmul_spec(x, y),
{
    assert(x * (-y) == -(x * y)) by (nonlinear_arith);
    assert(iabs(x * (-y)) == iabs(x * y));
    crate::fx::lemma_tdiv_zero(SCALE as int);
}

/// Negating one side of the dot product negates it exactly.
pub proof fn lemma_qdot_neg(a: Q4, b: Q4)
    ensures
        qdot_spec(a, qneg_spec(b)) == -qdot_spec(a, b),
{
    lemma_fxmul_neg(a.x, b.x);
    lemma_fxmul_neg(a.y, b.y);
    lemma_fxmul_neg(a.z, b.z);
    lemma_fxmul_neg(a.w, b.w);
}

/// Composing with the identity on the left is exact.
pub proof fn lemma_qmul_identity_left(q: Q4)
    requires
        quat_ok(q),
    ensures
        qmul_spec(identity_spec(), q) == q,
{
    crate::fx::lemma_fxmul_one(q.x);
    crate::fx::lemma_fxmul_one(q.y);
    crate::fx::lemma_fxmul_one(q.z);
    crate::fx::lemma_fxmul_one(q.w);
    crate::fx::lemma_fxmul_zero(q.x);
    crate::fx::lemma_fxmul_zero(q.y);
    crate::fx::lemma_fxmul_zero(q.z);
    crate::fx::lemma_fxmul_zero(q.w);
}

/// Scaling any rotation vector by zero gives the zero vector exactly.
pub proof fn lemma_v3scale_zero(v: V3)
    ensures
        v3scale_spec(v, 0) == zero_v3_spec(),
{
    crate::fx::lemma_fxmul_zero(v.x);
    crate::fx::lemma_fxmul_zero(v.y);
    crate::fx::lemma_fxmul_zero(v.z);
}

/// The exponential map sends the zero vector to the identity exactly.
pub proof fn lemma_exp_zero()
    ensures
        exp_map_spec(zero_v3_spec()) == identity_spec(),
{
    crate::fx::lemma_fxmul_zero(0);
}

/// The zeroth power of any quaternion is the identity exactly.
pub proof fn lemma_quat_pow_zero(q: Q4)
    ensures
        quat_pow_f_spec(q, 0) == identity_spec(),
{
    lemma_v3scale_zero(log_map_spec(q));
    lemma_exp_zero();
}

/// Interpolation at parameter zero returns the start exactly: the law
/// behind the curve passing through its knots.
pub proof fn lemma_slerp_zero(a: Q4, b: Q4)
    requires
        quat_ok(a),
    ensures
        slerp_spec(a, b, 0) == a,
{
    let bs = if qdot_spec(a, b) < 0 {
        qneg_spec(b)
    } else {
        b
    };
    lemma_quat_pow_zero(qmul_spec(bs, qconj_spec(a)));
    lemma_qmul_identity_left(a);
}

} // verus!
