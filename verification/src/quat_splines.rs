//! Quaternion curve engine: fits a tension-parameterized (Cardinal)
//! interpolating spline through timestamped rotations and converts it into
//! an evaluable piecewise cubic curve evaluated by iterated spherical
//! linear interpolation (geometric De Casteljau construction).

use core::cmp::Ordering;
use vstd::prelude::*;
use crate::fx::{fx_ok, fxadd, fxadd_spec, fxdiv, fxdiv_spec, fxmul, fxmul_spec, fxsub, fxsub_spec, SCALE};
use crate::quat::{
    exp_map, exp_map_spec, log_map, log_map_spec, qconj, qconj_spec, qdot, qdot_spec, qmul,
    qmul_spec, qneg, qneg_spec, quat_ok, quat_pow_f, quat_pow_f_spec, slerp, slerp_spec, v3add,
    v3add_spec, v3div, v3div_spec, v3neg, v3neg_spec, v3scale, v3scale_spec, Q4, Quat, V3,
};

verus! {

/// One third, in fixed point.
pub const THIRD_FX: i128 = 366503875925;

/// Three, in fixed point.
pub const THREE_FX: i128 = 3298534883328;

/// All control points hold well-formed scalars.
pub open spec fn ctrls_ok(s: Seq<(Quat, i128)>) -> bool {
    forall|i: int| 0 <= i < s.len() ==> quat_ok((#[trigger] s[i]).0@) && fx_ok(s[i].1 as int)
}

/// Consecutive control times strictly increase.
pub open spec fn times_increasing(s: Seq<(Quat, i128)>) -> bool {
    forall|i: int| 0 <= i < s.len() - 1 ==> (#[trigger] s[i]).1 < s[i + 1].1
}

/// `r` is `s` with each control point's sign flipped, if needed, so that its
/// dot product with the previous canonicalized point is non-negative.
pub open spec fn is_canon_of(r: Seq<(Quat, i128)>, s: Seq<(Quat, i128)>) -> bool {
    &&& r.len() == s.len()
    &&& (s.len() > 0 ==> r[0] == s[0])
    &&& forall|i: int|
        1 <= i < s.len() ==> (#[trigger] r[i]).1 == s[i].1 && r[i].0@ == (
        if qdot_spec(r[i - 1].0@, s[i].0@) < 0 {
            qneg_spec(s[i].0@)
        } else {
            s[i].0@
        })
}

/// A Cardinal quaternion curve: a tension in `[-1, 1]` and at least two
/// sign-canonicalized control points at strictly increasing times.
#[derive(Clone, Debug)]
pub struct CardinalQuatCurve {
    pub tension: i128,
    pub controls: Vec<(Quat, i128)>,
}

impl CardinalQuatCurve {
    /// The curve invariant: tension in range, at least two controls,
    /// strictly increasing times, bounded scalars.
    pub open spec fn wf(&self) -> bool {
        &&& -SCALE <= self.tension <= SCALE
        &&& self.controls@.len() >= 2
        &&& times_increasing(self.controls@)
        &&& ctrls_ok(self.controls@)
    }

    /// Build a curve from timestamped rotations, canonicalizing signs so the
    /// spline interpolates along the shorter arcs.
    ///
    /// The preconditions are the constructor's contract: a tension outside
    /// `[-1, 1]`, fewer than two points, or non-increasing times are
    /// programmer errors and are excluded rather than clamped.
    pub fn new(tension: i128, control_points: Vec<(Quat, i128)>) -> (r: CardinalQuatCurve)
        requires
            -SCALE <= tension <= SCALE,
            control_points@.len() >= 2,
            times_increasing(control_points@),
            ctrls_ok(control_points@),
        ensures
            r.tension == tension,
            is_canon_of(r.controls@, control_points@),
            r.wf(),
    {
        let ghost orig = control_points@;
        let mut controls = control_points;
        let n = controls.len();
        let mut i: usize = 1;
        while i < n
            invariant
                controls@.len() == orig.len(),
                n == orig.len(),
                1 <= i,
                forall|j: int| 0 <= j < orig.len() ==> #[trigger] controls@[j].1 == orig[j].1,
                forall|j: int| i <= j < orig.len() ==> #[trigger] controls@[j] == orig[j],
                controls@[0] == orig[0],
                forall|j: int|
                    1 <= j < i && j < orig.len() ==> (#[trigger] controls@[j]).0@ == (
                    if qdot_spec(controls@[j - 1].0@, orig[j].0@) < 0 {
                        qneg_spec(orig[j].0@)
                    } else {
                        orig[j].0@
                    }),
                ctrls_ok(controls@),
            decreases n - i,
        {
            let prev = controls[i - 1].0;
            let cur = controls[i];
            let d = qdot(prev, cur.0);
            if d < 0 {
                let flipped = qneg(cur.0);
                controls.set(i, (flipped, cur.1));
            }
            i += 1;
        }
        CardinalQuatCurve { tension, controls }
    }
}

/// The tension-weighted average angular rate at an interior control point.
pub open spec fn omega_pt_spec(
    q0: Q4,
    t0: int,
    q1: Q4,
    t1: int,
    q2: Q4,
    t2: int,
    tension: int,
) -> V3 {
    let h1 = fxsub_spec(t1, t0);
    let h2 = fxsub_spec(t2, t1);
    let rho_in = v3div_spec(log_map_spec(qmul_spec(q1, qconj_spec(q0))), h1);
    let rho_out = v3div_spec(log_map_spec(qmul_spec(q2, qconj_spec(q1))), h2);
    v3scale_spec(
        v3div_spec(
            v3add_spec(v3scale_spec(rho_in, h2), v3scale_spec(rho_out, h1)),
            fxadd_spec(h1, h2),
        ),
        fxsub_spec(SCALE as int, tension),
    )
}

/// The Bezier handle entering an interior control point.
pub open spec fn in_handle_spec(q0: Q4, t0: int, q1: Q4, t1: int, q2: Q4, t2: int, tension: int) -> Q4 {
    let omega = omega_pt_spec(q0, t0, q1, t1, q2, t2, tension);
    let h1 = fxsub_spec(t1, t0);
    qmul_spec(exp_map_spec(v3div_spec(v3scale_spec(v3neg_spec(omega), h1), THREE_FX as int)), q1)
}

/// The Bezier handle leaving an interior control point.
pub open spec fn out_handle_spec(q0: Q4, t0: int, q1: Q4, t1: int, q2: Q4, t2: int, tension: int) -> Q4 {
    let omega = omega_pt_spec(q0, t0, q1, t1, q2, t2, tension);
    let h2 = fxsub_spec(t2, t1);
    qmul_spec(exp_map_spec(v3div_spec(v3scale_spec(omega, h2), THREE_FX as int)), q1)
}

/// The synthesized handle at a free end: the relative rotation between the
/// two points nearest the end, raised to the one-third power, composed with
/// the nearer endpoint.
pub open spec fn end_quaternion_spec(first: Q4, third: Q4) -> Q4 {
    qmul_spec(quat_pow_f_spec(qmul_spec(third, qconj_spec(first)), THIRD_FX as int), first)
}

/// Extrapolated end handle consistent with a natural spline end condition.
pub fn end_quaternion(first: Quat, third: Quat) -> (r: Quat)
    requires
        quat_ok(first@),
        quat_ok(third@),
    ensures
        r@ == end_quaternion_spec(first@, third@),
        quat_ok(r@),
{
    qmul(quat_pow_f(qmul(third, qconj(first)), THIRD_FX), first)
}

fn interior_handles(
    q0: Quat,
    t0: i128,
    q1: Quat,
    t1: i128,
    q2: Quat,
    t2: i128,
    tension: i128,
) -> (r: (Quat, Quat))
    requires
        quat_ok(q0@),
        quat_ok(q1@),
        quat_ok(q2@),
        fx_ok(t0 as int),
        fx_ok(t1 as int),
        fx_ok(t2 as int),
        fx_ok(tension as int),
    ensures
        r.0@ == in_handle_spec(q0@, t0 as int, q1@, t1 as int, q2@, t2 as int, tension as int),
        r.1@ == out_handle_spec(q0@, t0 as int, q1@, t1 as int, q2@, t2 as int, tension as int),
        quat_ok(r.0@),
        quat_ok(r.1@),
{
    let h1 = fxsub(t1, t0);
    let h2 = fxsub(t2, t1);
    let rho_in = v3div(log_map(qmul(q1, qconj(q0))), h1);
    let rho_out = v3div(log_map(qmul(q2, qconj(q1))), h2);
    let omega = v3scale(
        v3div(v3add(v3scale(rho_in, h2), v3scale(rho_out, h1)), fxadd(h1, h2)),
        fxsub(SCALE, tension),
    );
    let hin = qmul(exp_map(v3div(v3scale(v3neg(omega), h1), THREE_FX)), q1);
    let hout = qmul(exp_map(v3div(v3scale(omega, h2), THREE_FX)), q1);
    (hin, hout)
}

/// One cubic geometric segment between two consecutive control times:
/// endpoints `a`, `d` and inner handles `b`, `c`.
#[derive(Clone, Copy, PartialEq, Eq, Structural, Debug)]
pub struct DeCasteljauQuatSegment {
    pub a: Quat,
    pub b: Quat,
    pub c: Quat,
    pub d: Quat,
}

/// Mathematical image of a segment.
pub ghost struct Seg4 {
    pub a: Q4,
    pub b: Q4,
    pub c: Q4,
    pub d: Q4,
}

impl View for DeCasteljauQuatSegment {
    type V = Seg4;

    open spec fn view(&self) -> Seg4 {
        Seg4 { a: self.a@, b: self.b@, c: self.c@, d: self.d@ }
    }
}

pub open spec fn seg_ok(s: Seg4) -> bool {
    quat_ok(s.a) && quat_ok(s.b) && quat_ok(s.c) && quat_ok(s.d)
}

/// Iterated spherical linear interpolation of the four segment controls.
pub open spec fn seg_position_spec(s: Seg4, t: int) -> Q4 {
    let ab = slerp_spec(s.a, s.b, t);
    let bc = slerp_spec(s.b, s.c, t);
    let cd = slerp_spec(s.c, s.d, t);
    let abc = slerp_spec(ab, bc, t);
    let bcd = slerp_spec(bc, cd, t);
    slerp_spec(abc, bcd, t)
}

impl DeCasteljauQuatSegment {
    /// Evaluate the segment at a normalized parameter by three levels of
    /// pairwise spherical linear interpolation.
    pub fn position(&self, t: i128) -> (r: Quat)
        requires
            seg_ok(self@),
            fx_ok(t as int),
        ensures
            r@ == seg_position_spec(self@, t as int),
            quat_ok(r@),
    {
        let ab = slerp(self.a, self.b, t);
        let bc = slerp(self.b, self.c, t);
        let cd = slerp(self.c, self.d, t);
        let abc = slerp(ab, bc, t);
        let bcd = slerp(bc, cd, t);
        slerp(abc, bcd, t)
    }
}

/// The expected coefficients of segment `i` of the evaluable curve built
/// from canonicalized controls `c` (which has `c.len() - 1` segments).
pub open spec fn seg_expected(c: Seq<(Quat, i128)>, tension: int, i: int) -> Seg4 {
    let n = c.len() as int;
    Seg4 {
        a: c[i].0@,
        b: (if i == 0 {
            end_quaternion_spec(c[0].0@, c[1].0@)
        } else {
            out_handle_spec(
                c[i - 1].0@,
                c[i - 1].1 as int,
                c[i].0@,
                c[i].1 as int,
                c[i + 1].0@,
                c[i + 1].1 as int,
                tension,
            )
        }),
        c: (if i == n - 2 {
            end_quaternion_spec(c[n - 1].0@, c[n - 2].0@)
        } else {
            in_handle_spec(
                c[i].0@,
                c[i].1 as int,
                c[i + 1].0@,
                c[i + 1].1 as int,
                c[i + 2].0@,
                c[i + 2].1 as int,
                tension,
            )
        }),
        d: c[i + 1].0@,
    }
}

/// An evaluable curve: one cubic segment per knot interval, plus the knot
/// times (one more than there are segments), strictly increasing.
#[derive(Clone, Debug)]
pub struct DeCasteljauQuatCurve {
    pub segments: Vec<DeCasteljauQuatSegment>,
    pub times: Vec<i128>,
}

impl DeCasteljauQuatCurve {
    /// The evaluable-curve invariant.
    pub open spec fn wf(&self) -> bool {
        &&& self.segments@.len() >= 1
        &&& self.times@.len() == self.segments@.len() + 1
        &&& knots_increasing(self.times@)
        &&& forall|i: int| 0 <= i < self.times@.len() ==> fx_ok(#[trigger] self.times@[i] as int)
        &&& forall|i: int| 0 <= i < self.segments@.len() ==> seg_ok(#[trigger] self.segments@[i]@)
    }
}

impl CardinalQuatCurve {
    /// Convert the fitted spline into its evaluable piecewise cubic form:
    /// each segment runs between two consecutive controls, with handles
    /// derived from the tension-weighted angular rates at interior points
    /// and extrapolated end handles at the boundary.
    pub fn to_curve(&self) -> (r: DeCasteljauQuatCurve)
        requires
            self.wf(),
        ensures
            r.wf(),
            r.segments@.len() == self.controls@.len() - 1,
            forall|i: int|
                0 <= i < r.times@.len() ==> #[trigger] r.times@[i] == self.controls@[i].1,
            forall|i: int|
                0 <= i < r.segments@.len() ==> #[trigger] r.segments@[i]@ == seg_expected(
                    self.controls@,
                    self.tension as int,
                    i,
                ),
    {
        let n = self.controls.len();
        let mut segments: Vec<DeCasteljauQuatSegment> = Vec::new();
        let mut times: Vec<i128> = Vec::new();
        let mut i: usize = 0;
        while i < n - 1
            invariant
                self.wf(),
                n == self.controls@.len(),
                n >= 2,
                i <= n - 1,
                segments@.len() == i,
                times@.len() == i,
                forall|j: int| 0 <= j < i ==> #[trigger] times@[j] == self.controls@[j].1,
                forall|j: int|
                    0 <= j < i ==> #[trigger] segments@[j]@ == seg_expected(
                        self.controls@,
                        self.tension as int,
                        j,
                    ),
                forall|j: int| 0 <= j < i ==> seg_ok(#[trigger] segments@[j]@),
            decreases n - 1 - i,
        {
            let (q0, t0) = self.controls[i];
            let (q1, t1) = self.controls[i + 1];
            let b = if i == 0 {
                end_quaternion(self.controls[0].0, self.controls[1].0)
            } else {
                let (p0, s0) = self.controls[i - 1];
                interior_handles(p0, s0, q0, t0, q1, t1, self.tension).1
            };
            let c = if i == n - 2 {
                end_quaternion(self.controls[n - 1].0, self.controls[n - 2].0)
            } else {
                let (q2, t2) = self.controls[i + 2];
                interior_handles(q0, t0, q1, t1, q2, t2, self.tension).0
            };
            segments.push(DeCasteljauQuatSegment { a: q0, b, c, d: q1 });
            times.push(t0);
            i += 1;
        }
        times.push(self.controls[n - 1].1);
        DeCasteljauQuatCurve { segments, times }
    }
}

/// The result of an exhausted bisection: the search interval around `r` was
/// narrowed to a single fixed-point step, with a comparison witness on each
/// inner boundary (`Less` below, `Greater` above).
pub open spec fn tight_bracket<F: Fn(i128) -> Ordering>(
    cmp: F,
    left: int,
    right: int,
    r: int,
) -> bool {
    exists|lo: i128, hi: i128|
        left <= lo <= r <= hi <= right && #[trigger] (hi - lo) <= 1 && (lo == left
            || call_ensures(cmp, (lo,), Ordering::Less)) && (hi == right || call_ensures(
            cmp,
            (hi,),
            Ordering::Greater,
        ))
}

/// Scalar bisection over a three-way comparison: `cmp(x)` says whether the
/// root lies right of `x` (`Less`: the probed value is still below the
/// target), at `x` (`Equal`), or left of `x` (`Greater`). The interval is
/// halved at its conventional midpoint until `cmp` reports an exact hit or
/// the interval cannot be narrowed further, which bounds the work.
pub fn bisect<F: Fn(i128) -> Ordering>(left: i128, right: i128, cmp: F) -> (r: i128)
    requires
        fx_ok(left as int),
        fx_ok(right as int),
        left <= right,
        forall|x: i128| left <= x <= right ==> call_requires(cmp, (x,)),
    ensures
        left <= r <= right,
        fx_ok(r as int),
        call_ensures(cmp, (r,), Ordering::Equal) || tight_bracket(
            cmp,
            left as int,
            right as int,
            r as int,
        ),
{
    let mut lo = left;
    let mut hi = right;
    while hi - lo > 1
        invariant
            left <= lo <= hi <= right,
            fx_ok(left as int),
            fx_ok(right as int),
            lo == left || call_ensures(cmp, (lo,), Ordering::Less),
            hi == right || call_ensures(cmp, (hi,), Ordering::Greater),
            forall|x: i128| left <= x <= right ==> call_requires(cmp, (x,)),
        decreases hi - lo,
    {
        let w: u128 = ((hi - lo) as u128) / 2;
        let mid: i128 = lo + (w as i128);
        assert(lo < mid < hi);
        match cmp(mid) {
            Ordering::Less => {
                lo = mid;
            },
            Ordering::Greater => {
                hi = mid;
            },
            Ordering::Equal => {
                return mid;
            },
        }
    }
    lo
}

/// `k` is the index of the segment that evaluation time `t` resolves to:
/// the one whose knot interval contains `t`, clamped so that times before
/// the first knot or at/after the last knot resolve to the first/last
/// segment.
pub open spec fn seg_choice_ok(times: Seq<i128>, t: int, k: int) -> bool {
    &&& 0 <= k <= times.len() - 2
    &&& (k == 0 || times[k] <= t)
    &&& (k == times.len() - 2 || t < times[k + 1])
}

/// Knot times strictly increase.
pub open spec fn knots_increasing(times: Seq<i128>) -> bool {
    forall|i: int| 0 <= i < times.len() - 1 ==> #[trigger] times[i] < times[i + 1]
}

pub proof fn lemma_knots_le(times: Seq<i128>, i: int, j: int)
    requires
        knots_increasing(times),
        0 <= i <= j < times.len(),
    ensures
        times[i] <= times[j],
    decreases j - i,
{
    if i < j {
        lemma_knots_le(times, i + 1, j);
    }
}

/// For strictly increasing knots the resolved segment index is unique.
pub proof fn lemma_seg_choice_unique(times: Seq<i128>, t: int, k1: int, k2: int)
    requires
        knots_increasing(times),
        seg_choice_ok(times, t, k1),
        seg_choice_ok(times, t, k2),
    ensures
        k1 == k2,
{
    if k1 < k2 {
        lemma_knots_le(times, k1 + 1, k2);
    }
    if k2 < k1 {
        lemma_knots_le(times, k2 + 1, k1);
    }
}

/// The evaluation time normalized into `[0, 1]` within segment `k`.
pub open spec fn local_param_spec(times: Seq<i128>, t: int, k: int) -> int {
    fxdiv_spec(fxsub_spec(t, times[k] as int), fxsub_spec(times[k + 1] as int, times[k] as int))
}

/// What `position` returns: the resolved segment evaluated at the
/// normalized parameter.
pub open spec fn position_spec(c: DeCasteljauQuatCurve, t: int) -> Q4 {
    let k = choose|k: int| seg_choice_ok(c.times@, t, k);
    seg_position_spec(c.segments@[k]@, local_param_spec(c.times@, t, k))
}

impl DeCasteljauQuatCurve {
    /// Locate the segment whose knot interval contains `t` (clamped at both
    /// ends) and normalize `t` into `[0, 1]` within it.
    pub fn segment(&self, t: i128) -> (r: (DeCasteljauQuatSegment, i128))
        requires
            self.wf(),
            fx_ok(t as int),
        ensures
            exists|k: int|
                #[trigger] seg_choice_ok(self.times@, t as int, k) && r.0 == self.segments@[k]
                    && r.1 == local_param_spec(self.times@, t as int, k),
            seg_ok(r.0@),
            fx_ok(r.1 as int),
    {
        let n = self.times.len();
        let mut idx: usize = 0;
        while idx < n && self.times[idx] <= t
            invariant
                idx <= n,
                n == self.times@.len(),
                forall|j: int| 0 <= j < idx ==> #[trigger] self.times@[j] <= t,
            decreases n - idx,
        {
            idx += 1;
        }
        let i = if idx < 1 {
            1
        } else if idx > n - 1 {
            n - 1
        } else {
            idx
        };
        let k = i - 1;
        proof {
            assert(knots_increasing(self.times@));
            if i == n - 1 && idx >= n {
                assert(self.times@[n - 2] <= t);
            }
            if idx == 0 && n > 2 {
                assert(self.times@[0] > t);
                lemma_knots_le(self.times@, 0, 1);
            }
            assert(seg_choice_ok(self.times@, t as int, k as int));
        }
        let t0 = self.times[k];
        let t1 = self.times[k + 1];
        let tt = fxdiv(fxsub(t, t0), fxsub(t1, t0));
        (self.segments[k], tt)
    }

    /// Evaluate the curve at time `t`.
    pub fn position(&self, t: i128) -> (r: Quat)
        requires
            self.wf(),
            fx_ok(t as int),
        ensures
            r@ == position_spec(*self, t as int),
            quat_ok(r@),
    {
        let (seg, tt) = self.segment(t);
        let r = seg.position(tt);
        proof {
            let k0 = choose|k: int|
                seg_choice_ok(self.times@, t as int, k) && seg == self.segments@[k] && tt
                    == local_param_spec(self.times@, t as int, k);
            let k1 = choose|k: int| seg_choice_ok(self.times@, t as int, k);
            lemma_seg_choice_unique(self.times@, t as int, k0, k1);
        }
        r
    }

    /// The evaluation time of the `i`-th of `subdivisions` even samples of
    /// the whole curve (the parameter runs over one unit per segment).
    pub open spec fn sample_time_spec(nseg: int, subdivisions: int, i: int) -> int {
        fxdiv_spec(nseg * i * SCALE, subdivisions * SCALE)
    }

    /// Sample the whole curve at even parameter spacing, one unit of
    /// parameter per segment, collected into a vector.
    pub fn iter_positions(&self, subdivisions: usize) -> (r: Vec<Quat>)
        requires
            self.wf(),
            subdivisions * self.segments@.len() <= 4194304,
        ensures
            r@.len() == subdivisions,
            forall|i: int|
                0 <= i < subdivisions ==> (#[trigger] r@[i])@ == position_spec(
                    *self,
                    Self::sample_time_spec(
                        self.segments@.len() as int,
                        subdivisions as int,
                        i,
                    ),
                ),
    {
        let nseg = self.segments.len();
        let mut out: Vec<Quat> = Vec::new();
        let mut i: usize = 0;
        while i < subdivisions
            invariant
                self.wf(),
                i <= subdivisions,
                nseg == self.segments@.len(),
                subdivisions * nseg <= 4194304,
                out@.len() == i,
                forall|j: int|
                    0 <= j < i ==> (#[trigger] out@[j])@ == position_spec(
                        *self,
                        Self::sample_time_spec(nseg as int, subdivisions as int, j),
                    ),
            decreases subdivisions - i,
        {
            proof {
                assert(nseg * i <= nseg * subdivisions) by (nonlinear_arith)
                    requires
                        0 <= i <= subdivisions,
                        nseg >= 0,
                ;
                assert(nseg * subdivisions <= 4194304) by (nonlinear_arith)
                    requires
                        subdivisions * nseg <= 4194304,
                ;
                assert(subdivisions <= 4194304) by (nonlinear_arith)
                    requires
                        subdivisions * nseg <= 4194304,
                        nseg >= 1,
                        subdivisions >= 0,
                ;
            }
            let a: i128 = (nseg as i128) * (i as i128) * SCALE;
            let b: i128 = (subdivisions as i128) * SCALE;
            let t = fxdiv(a, b);
            out.push(self.position(t));
            i += 1;
        }
        out
    }
}

/// The shortest-arc law of the canonicalization: after sign
/// canonicalization, each control point's dot product with the previous
/// one is non-negative, so the spline never interpolates the long way
/// around.
pub proof fn lemma_canon_consecutive_dots(r: Seq<(Quat, i128)>, s: Seq<(Quat, i128)>, i: int)
    requires
        is_canon_of(r, s),
        1 <= i < r.len(),
    ensures
        qdot_spec(r[i - 1].0@, r[i].0@) >= 0,
{
    if qdot_spec(r[i - 1].0@, s[i].0@) < 0 {
        crate::quat::lemma_qdot_neg(r[i - 1].0@, s[i].0@);
    }
}

/// Evaluating a segment at parameter zero returns its start point exactly.
pub proof fn lemma_seg_position_zero(s: Seg4)
    requires
        seg_ok(s),
    ensures
        seg_position_spec(s, 0) == s.a,
{
    crate::quat::lemma_slerp_zero(s.a, s.b);
    crate::quat::lemma_slerp_zero(s.b, s.c);
    crate::quat::lemma_slerp_zero(s.c, s.d);
    crate::quat::lemma_slerp_zero(
        slerp_spec(s.a, s.b, 0),
        slerp_spec(s.b, s.c, 0),
    );
    crate::quat::lemma_slerp_zero(
        slerp_spec(s.b, s.c, 0),
        slerp_spec(s.c, s.d, 0),
    );
}

/// The interpolation law at the knots: an evaluable curve built from a
/// fitted spline passes through each control point exactly at that
/// point's knot time, for every knot but the last (the last knot resolves
/// to the end of the final segment, where only the trigonometric
/// approximations bound the error).
pub proof fn lemma_curve_interpolates_knots(
    c: CardinalQuatCurve,
    r: DeCasteljauQuatCurve,
    i: int,
)
    requires
        c.wf(),
        r.wf(),
        r.segments@.len() == c.controls@.len() - 1,
        forall|j: int| 0 <= j < r.times@.len() ==> #[trigger] r.times@[j] == c.controls@[j].1,
        forall|j: int|
            0 <= j < r.segments@.len() ==> #[trigger] r.segments@[j]@ == seg_expected(
                c.controls@,
                c.tension as int,
                j,
            ),
        0 <= i < r.segments@.len(),
    ensures
        position_spec(r, r.times@[i] as int) == c.controls@[i].0@,
{
    let t = r.times@[i] as int;
    assert(seg_choice_ok(r.times@, t, i));
    let k = choose|k: int| seg_choice_ok(r.times@, t, k);
    lemma_seg_choice_unique(r.times@, t, k, i);
    let t0 = r.times@[i] as int;
    let t1 = r.times@[i + 1] as int;
    assert(fxsub_spec(t, t0) == 0);
    let h = fxsub_spec(t1, t0);
    assert(h > 0);
    crate::fx::lemma_fxdiv_zero(h);
    assert(local_param_spec(r.times@, t, i) == 0);
    lemma_seg_position_zero(r.segments@[i]@);
    assert(r.segments@[i]@.a == c.controls@[i].0@);
}

} // verus!
