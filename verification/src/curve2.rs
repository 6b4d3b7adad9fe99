//! The 2D Cardinal curve behind the time-remap `g`: the plane-valued
//! analogue of the quaternion curve engine, with ordinary linear
//! interpolation in place of spherical linear interpolation. A control
//! point's first coordinate is both its knot time and the value that
//! `g_inverse` searches for.

use vstd::prelude::*;
use crate::fx::{fx_ok, fxadd, fxadd_spec, fxdiv, fxdiv_spec, fxmul, fxmul_spec, fxsub, fxsub_spec, SCALE};
use crate::quat_splines::{
    knots_increasing, lemma_seg_choice_unique, local_param_spec, seg_choice_ok, THIRD_FX, THREE_FX,
};

verus! {

/// A fixed-point point in the plane.
#[derive(Clone, Copy, PartialEq, Eq, Structural, Debug)]
pub struct Vec2 {
    pub x: i128,
    pub y: i128,
}

/// Mathematical image of a `Vec2`.
pub ghost struct V2 {
    pub x: int,
    pub y: int,
}

impl View for Vec2 {
    type V = V2;

    open spec fn view(&self) -> V2 {
        V2 { x: self.x as int, y: self.y as int }
    }
}

pub open spec fn v2_ok(v: V2) -> bool {
    fx_ok(v.x) && fx_ok(v.y)
}

pub open spec fn v2add_spec(a: V2, b: V2) -> V2 {
    V2 { x: fxadd_spec(a.x, b.x), y: fxadd_spec(a.y, b.y) }
}

/// Component-wise sum of two plane points.
pub fn v2add(a: Vec2, b: Vec2) -> (r: Vec2)
    requires
        v2_ok(a@),
        v2_ok(b@),
    ensures
        r@ == v2add_spec(a@, b@),
        v2_ok(r@),
{
    Vec2 { x: fxadd(a.x, b.x), y: fxadd(a.y, b.y) }
}

pub open spec fn v2sub_spec(a: V2, b: V2) -> V2 {
    V2 { x: fxsub_spec(a.x, b.x), y: fxsub_spec(a.y, b.y) }
}

/// Component-wise difference of two plane points.
pub fn v2sub(a: Vec2, b: Vec2) -> (r: Vec2)
    requires
        v2_ok(a@),
        v2_ok(b@),
    ensures
        r@ == v2sub_spec(a@, b@),
        v2_ok(r@),
{
    Vec2 { x: fxsub(a.x, b.x), y: fxsub(a.y, b.y) }
}

pub open spec fn v2scale_spec(v: V2, s: int) -> V2 {
    V2 { x: fxmul_spec(v.x, s), y: fxmul_spec(v.y, s) }
}

/// Scale a plane point by a fixed-point factor.
pub fn v2scale(v: Vec2, s: i128) -> (r: Vec2)
    requires
        v2_ok(v@),
        fx_ok(s as int),
    ensures
        r@ == v2scale_spec(v@, s as int),
        v2_ok(r@),
{
    Vec2 { x: fxmul(v.x, s), y: fxmul(v.y, s) }
}

pub open spec fn v2div_spec(v: V2, s: int) -> V2 {
    V2 { x: fxdiv_spec(v.x, s), y: fxdiv_spec(v.y, s) }
}

/// Divide a plane point by a fixed-point scalar.
pub fn v2div(v: Vec2, s: i128) -> (r: Vec2)
    requires
        v2_ok(v@),
        fx_ok(s as int),
    ensures
        r@ == v2div_spec(v@, s as int),
        v2_ok(r@),
{
    Vec2 { x: fxdiv(v.x, s), y: fxdiv(v.y, s) }
}

/// Linear interpolation `a + (b - a) * t`, component-wise.
pub open spec fn lerp2_spec(a: V2, b: V2, t: int) -> V2 {
    v2add_spec(a, v2scale_spec(v2sub_spec(b, a), t))
}

/// Linear interpolation between two plane points.
pub fn lerp2(a: Vec2, b: Vec2, t: i128) -> (r: Vec2)
    requires
        v2_ok(a@),
        v2_ok(b@),
        fx_ok(t as int),
    ensures
        r@ == lerp2_spec(a@, b@, t as int),
        v2_ok(r@),
{
    v2add(a, v2scale(v2sub(b, a), t))
}

/// All control points hold well-formed scalars.
pub open spec fn pts_ok(s: Seq<Vec2>) -> bool {
    forall|i: int| 0 <= i < s.len() ==> v2_ok((#[trigger] s[i])@)
}

/// First coordinates (the knot times) strictly increase.
pub open spec fn xs_increasing(s: Seq<Vec2>) -> bool {
    forall|i: int| 0 <= i < s.len() - 1 ==> (#[trigger] s[i]).x < s[i + 1].x
}

/// A Cardinal plane curve: a tension in `[-1, 1]` and at least two control
/// points whose first coordinates strictly increase.
#[derive(Clone, Debug)]
pub struct Cardinal2Curve {
    pub tension: i128,
    pub controls: Vec<Vec2>,
}

/// The tension-weighted average velocity at an interior control point.
pub open spec fn omega2_spec(p0: V2, p1: V2, p2: V2, tension: int) -> V2 {
    let h1 = fxsub_spec(p1.x, p0.x);
    let h2 = fxsub_spec(p2.x, p1.x);
    let rho_in = v2div_spec(v2sub_spec(p1, p0), h1);
    let rho_out = v2div_spec(v2sub_spec(p2, p1), h2);
    v2scale_spec(
        v2div_spec(
            v2add_spec(v2scale_spec(rho_in, h2), v2scale_spec(rho_out, h1)),
            fxadd_spec(h1, h2),
        ),
        fxsub_spec(SCALE as int, tension),
    )
}

/// The Bezier handle entering an interior control point.
pub open spec fn in_handle2_spec(p0: V2, p1: V2, p2: V2, tension: int) -> V2 {
    let omega = omega2_spec(p0, p1, p2, tension);
    let h1 = fxsub_spec(p1.x, p0.x);
    v2sub_spec(p1, v2div_spec(v2scale_spec(omega, h1), THREE_FX as int))
}

/// The Bezier handle leaving an interior control point.
pub open spec fn out_handle2_spec(p0: V2, p1: V2, p2: V2, tension: int) -> V2 {
    let omega = omega2_spec(p0, p1, p2, tension);
    let h2 = fxsub_spec(p2.x, p1.x);
    v2add_spec(p1, v2div_spec(v2scale_spec(omega, h2), THREE_FX as int))
}

/// The synthesized handle at a free end: one third of the way from the
/// endpoint toward the point two knots in.
pub open spec fn end_point2_spec(first: V2, third: V2) -> V2 {
    v2add_spec(first, v2scale_spec(v2sub_spec(third, first), THIRD_FX as int))
}

fn end_point2(first: Vec2, third: Vec2) -> (r: Vec2)
    requires
        v2_ok(first@),
        v2_ok(third@),
    ensures
        r@ == end_point2_spec(first@, third@),
        v2_ok(r@),
{
    v2add(first, v2scale(v2sub(third, first), THIRD_FX))
}

fn interior_handles2(p0: Vec2, p1: Vec2, p2: Vec2, tension: i128) -> (r: (Vec2, Vec2))
    requires
        v2_ok(p0@),
        v2_ok(p1@),
        v2_ok(p2@),
        fx_ok(tension as int),
    ensures
        r.0@ == in_handle2_spec(p0@, p1@, p2@, tension as int),
        r.1@ == out_handle2_spec(p0@, p1@, p2@, tension as int),
        v2_ok(r.0@),
        v2_ok(r.1@),
{
    let h1 = fxsub(p1.x, p0.x);
    let h2 = fxsub(p2.x, p1.x);
    let rho_in = v2div(v2sub(p1, p0), h1);
    let rho_out = v2div(v2sub(p2, p1), h2);
    let omega = v2scale(
        v2div(v2add(v2scale(rho_in, h2), v2scale(rho_out, h1)), fxadd(h1, h2)),
        fxsub(SCALE, tension),
    );
    let hin = v2sub(p1, v2div(v2scale(omega, h1), THREE_FX));
    let hout = v2add(p1, v2div(v2scale(omega, h2), THREE_FX));
    (hin, hout)
}

/// One cubic segment of the evaluable plane curve.
#[derive(Clone, Copy, PartialEq, Eq, Structural, Debug)]
pub struct Seg2 {
    pub a: Vec2,
    pub b: Vec2,
    pub c: Vec2,
    pub d: Vec2,
}

/// Mathematical image of a plane segment.
pub ghost struct Seg2V {
    pub a: V2,
    pub b: V2,
    pub c: V2,
    pub d: V2,
}

impl View for Seg2 {
    type V = Seg2V;

    open spec fn view(&self) -> Seg2V {
        Seg2V { a: self.a@, b: self.b@, c: self.c@, d: self.d@ }
    }
}

pub open spec fn seg2_ok(s: Seg2V) -> bool {
    v2_ok(s.a) && v2_ok(s.b) && v2_ok(s.c) && v2_ok(s.d)
}

/// Iterated linear interpolation of the four segment controls.
pub open spec fn seg2_position_spec(s: Seg2V, t: int) -> V2 {
    let ab = lerp2_spec(s.a, s.b, t);
    let bc = lerp2_spec(s.b, s.c, t);
    let cd = lerp2_spec(s.c, s.d, t);
    let abc = lerp2_spec(ab, bc, t);
    let bcd = lerp2_spec(bc, cd, t);
    lerp2_spec(abc, bcd, t)
}

/// The expected coefficients of segment `i` of the evaluable plane curve.
pub open spec fn seg2_expected(c: Seq<Vec2>, tension: int, i: int) -> Seg2V {
    let n = c.len() as int;
    Seg2V {
        a: c[i]@,
        b: (if i == 0 {
            end_point2_spec(c[0]@, c[1]@)
        } else {
            out_handle2_spec(c[i - 1]@, c[i]@, c[i + 1]@, tension)
        }),
        c: (if i == n - 2 {
            end_point2_spec(c[n - 1]@, c[n - 2]@)
        } else {
            in_handle2_spec(c[i]@, c[i + 1]@, c[i + 2]@, tension)
        }),
        d: c[i + 1]@,
    }
}

/// The evaluable plane curve: segments plus knot times.
#[derive(Clone, Debug)]
pub struct Curve2 {
    pub segments: Vec<Seg2>,
    pub times: Vec<i128>,
}

impl Curve2 {
    /// The evaluable-curve invariant.
    pub open spec fn wf(&self) -> bool {
        &&& self.segments@.len() >= 1
        &&& self.times@.len() == self.segments@.len() + 1
        &&& knots_increasing(self.times@)
        &&& forall|i: int| 0 <= i < self.times@.len() ==> fx_ok(#[trigger] self.times@[i] as int)
        &&& forall|i: int| 0 <= i < self.segments@.len() ==> seg2_ok(#[trigger] self.segments@[i]@)
    }
}

impl Cardinal2Curve {
    /// The spline invariant.
    pub open spec fn wf(&self) -> bool {
        &&& -SCALE <= self.tension <= SCALE
        &&& self.controls@.len() >= 2
        &&& xs_increasing(self.controls@)
        &&& pts_ok(self.controls@)
    }

    /// Build a plane spline from control points whose first coordinates
    /// strictly increase.
    pub fn new(tension: i128, control_points: Vec<Vec2>) -> (r: Cardinal2Curve)
        requires
            -SCALE <= tension <= SCALE,
            control_points@.len() >= 2,
            xs_increasing(control_points@),
            pts_ok(control_points@),
        ensures
            r.tension == tension,
            r.controls == control_points,
            r.wf(),
    {
        Cardinal2Curve { tension, controls: control_points }
    }

    /// Convert the spline into its evaluable piecewise cubic form, exactly
    /// as the quaternion engine does, with linear arithmetic in place of
    /// the rotation group operations.
    pub fn to_curve(&self) -> (r: Curve2)
        requires
            self.wf(),
        ensures
            r.wf(),
            r.segments@.len() == self.controls@.len() - 1,
            forall|i: int|
                0 <= i < r.times@.len() ==> #[trigger] r.times@[i] == self.controls@[i].x,
            forall|i: int|
                0 <= i < r.segments@.len() ==> #[trigger] r.segments@[i]@ == seg2_expected(
                    self.controls@,
                    self.tension as int,
                    i,
                ),
    {
        let n = self.controls.len();
        let mut segments: Vec<Seg2> = Vec::new();
        let mut times: Vec<i128> = Vec::new();
        let mut i: usize = 0;
        while i < n - 1
            invariant
                self.wf(),
                n == self.controls@.len(),
                n >= 2,
                i <= n - 1,
                segments@.len() == i,
                times@.len() == i,
                forall|j: int| 0 <= j < i ==> #[trigger] times@[j] == self.controls@[j].x,
                forall|j: int|
                    0 <= j < i ==> #[trigger] segments@[j]@ == seg2_expected(
                        self.controls@,
                        self.tension as int,
                        j,
                    ),
                forall|j: int| 0 <= j < i ==> seg2_ok(#[trigger] segments@[j]@),
            decreases n - 1 - i,
        {
            let p1 = self.controls[i];
            let p2 = self.controls[i + 1];
            let b = if i == 0 {
                end_point2(self.controls[0], self.controls[1])
            } else {
                interior_handles2(self.controls[i - 1], p1, p2, self.tension).1
            };
            let c = if i == n - 2 {
                end_point2(self.controls[n - 1], self.controls[n - 2])
            } else {
                interior_handles2(p1, p2, self.controls[i + 2], self.tension).0
            };
            segments.push(Seg2 { a: p1, b, c, d: p2 });
            times.push(p1.x);
            i += 1;
        }
        times.push(self.controls[n - 1].x);
        Curve2 { segments, times }
    }
}

/// What `Curve2::position` returns.
pub open spec fn position2_spec(c: Curve2, t: int) -> V2 {
    let k = choose|k: int| seg_choice_ok(c.times@, t, k);
    seg2_position_spec(c.segments@[k]@, local_param_spec(c.times@, t, k))
}

impl Curve2 {
    /// Locate the segment whose knot interval contains `t` (clamped at both
    /// ends) and normalize `t` into `[0, 1]` within it.
    pub fn segment(&self, t: i128) -> (r: (Seg2, i128))
        requires
            self.wf(),
            fx_ok(t as int),
        ensures
            exists|k: int|
                #[trigger] seg_choice_ok(self.times@, t as int, k) && r.0 == self.segments@[k]
                    && r.1 == local_param_spec(self.times@, t as int, k),
            seg2_ok(r.0@),
            fx_ok(r.1 as int),
    {
        let n = self.times.len();
        let mut idx: usize = 0;
        while idx < n && self.times[idx] <= t
            invariant
                idx <= n,
                n == self.times@.len(),
                forall|j: int| 0 <= j < idx ==> #[trigger] self.times@[j] <= t,
            decreases n - idx,
        {
            idx += 1;
        }
        let i = if idx < 1 {
            1
        } else if idx > n - 1 {
            n - 1
        } else {
            idx
        };
        let k = i - 1;
        proof {
            if i == n - 1 && idx >= n {
                assert(self.times@[n - 2] <= t);
            }
            if idx == 0 && n > 2 {
                assert(self.times@[0] > t);
                crate::quat_splines::lemma_knots_le(self.times@, 0, 1);
            }
            assert(seg_choice_ok(self.times@, t as int, k as int));
        }
        let t0 = self.times[k];
        let t1 = self.times[k + 1];
        let tt = fxdiv(fxsub(t, t0), fxsub(t1, t0));
        (self.segments[k], tt)
    }

    /// Evaluate the curve at time `t` by iterated linear interpolation.
    pub fn position(&self, t: i128) -> (r: Vec2)
        requires
            self.wf(),
            fx_ok(t as int),
        ensures
            r@ == position2_spec(*self, t as int),
            v2_ok(r@),
    {
        let (seg, tt) = self.segment(t);
        let ab = lerp2(seg.a, seg.b, tt);
        let bc = lerp2(seg.b, seg.c, tt);
        let cd = lerp2(seg.c, seg.d, tt);
        let abc = lerp2(ab, bc, tt);
        let bcd = lerp2(bc, cd, tt);
        let r = lerp2(abc, bcd, tt);
        proof {
            let k0 = choose|k: int|
                seg_choice_ok(self.times@, t as int, k) && seg == self.segments@[k] && tt
                    == local_param_spec(self.times@, t as int, k);
            let k1 = choose|k: int| seg_choice_ok(self.times@, t as int, k);
            lemma_seg_choice_unique(self.times@, t as int, k0, k1);
        }
        r
    }
}

/// Interpolation at parameter zero returns the start exactly.
pub proof fn lemma_lerp2_zero(a: V2, b: V2)
    requires
        v2_ok(a),
    ensures
        lerp2_spec(a, b, 0) == a,
{
    crate::fx::lemma_fxmul_zero(v2sub_spec(b, a).x);
    crate::fx::lemma_fxmul_zero(v2sub_spec(b, a).y);
}

/// The interpolation law at the knots of the time-remap curve: the
/// evaluable plane curve passes through each control point exactly at
/// that point's knot time, for every knot but the last. In particular its
/// first coordinate reproduces the knot time itself, which is what the
/// time-remap inversion searches against.
pub proof fn lemma_curve2_interpolates_knots(c: Cardinal2Curve, r: Curve2, i: int)
    requires
        c.wf(),
        r.wf(),
        r.segments@.len() == c.controls@.len() - 1,
        forall|j: int| 0 <= j < r.times@.len() ==> #[trigger] r.times@[j] == c.controls@[j].x,
        forall|j: int|
            0 <= j < r.segments@.len() ==> #[trigger] r.segments@[j]@ == seg2_expected(
                c.controls@,
                c.tension as int,
                j,
            ),
        0 <= i < r.segments@.len(),
    ensures
        position2_spec(r, r.times@[i] as int) == c.controls@[i]@,
{
    let t = r.times@[i] as int;
    assert(seg_choice_ok(r.times@, t, i));
    let k = choose|k: int| seg_choice_ok(r.times@, t, k);
    lemma_seg_choice_unique(r.times@, t, k, i);
    let t0 = r.times@[i] as int;
    let t1 = r.times@[i + 1] as int;
    assert(fxsub_spec(t, t0) == 0);
    let h = fxsub_spec(t1, t0);
    assert(h > 0);
    crate::fx::lemma_fxdiv_zero(h);
    assert(local_param_spec(r.times@, t, i) == 0);
    let s = r.segments@[i]@;
    lemma_lerp2_zero(s.a, s.b);
    lemma_lerp2_zero(s.b, s.c);
    lemma_lerp2_zero(s.c, s.d);
    lemma_lerp2_zero(lerp2_spec(s.a, s.b, 0), lerp2_spec(s.b, s.c, 0));
    lemma_lerp2_zero(lerp2_spec(s.b, s.c, 0), lerp2_spec(s.c, s.d, 0));
    assert(s.a == c.controls@[i]@);
}

} // verus!
