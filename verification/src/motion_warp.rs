//! Motion-warp clips: keyframed correction of a sampled skeletal animation.
//!
//! A builder owns the mutable keyframe list; `build` sorts it, fits one
//! plane curve that remaps time and one pair of quaternion curves per
//! referenced joint, and assembles an immutable clip. The clip's runtime
//! inverts the time remap by bisection and blends the corrected rotation
//! with a boundary-feathered weight.

use core::cmp::Ordering;
use vstd::prelude::*;
use crate::curve2::{
    position2_spec, seg2_expected, v2add_spec, v2sub_spec, Cardinal2Curve, Curve2, Vec2, V2,
};
use crate::fx::{
    fx_ok, fxadd, fxadd_spec, fxdiv, fxdiv_spec, fxmul, fxmul_spec, fxsub, fxsub_spec, LIM, SCALE,
};
use crate::quat::{
    identity, identity_spec, normalize, normalize_spec, qadd, qadd_spec, qconj, qconj_spec, qmul,
    qmul_spec, qsub, qsub_spec, quat_ok, slerp, slerp_spec, Q4, Quat,
};
use crate::quat_splines::{
    bisect, is_canon_of, position_spec, seg_expected, CardinalQuatCurve,
    DeCasteljauQuatCurve,
};

verus! {

/// An opaque, orderable joint-path identifier. The host assigns one to each
/// tracked entity path (a list of names down the skeleton) and keys all
/// per-joint data with it; this library never looks inside.
#[derive(Clone, Copy, PartialEq, Eq, Structural, Debug, Hash)]
pub struct TrackedEntityPath(pub u64);

/// One authored correction for one joint at one keyframe: the desired
/// rotation and which of the two correction terms it fixes.
#[derive(Clone, Copy, PartialEq, Eq, Structural, Debug)]
pub struct MotionWarpCurveFrame {
    pub rotation: Quat,
    pub fix_a: bool,
}

/// One keyframe: a time, an optional remapped ("warp") time, and the
/// corrections authored for the joints it references.
#[derive(Clone, Debug)]
pub struct MotionWarpClipFrame {
    pub time: i128,
    pub warp_time: Option<i128>,
    pub map: Vec<(TrackedEntityPath, MotionWarpCurveFrame)>,
}

/// Rotation samples of the original animation, one track per joint, each a
/// sequence of timestamped rotations at strictly increasing times. This is
/// the in-process image of the host's animation-sample source.
#[derive(Clone, Debug)]
pub struct AnimationSamples {
    pub duration: i128,
    pub tracks: Vec<(TrackedEntityPath, Vec<(i128, Quat)>)>,
}

/// Sample times strictly increase.
pub open spec fn samples_increasing(s: Seq<(i128, Quat)>) -> bool {
    forall|i: int| 0 <= i < s.len() - 1 ==> (#[trigger] s[i]).0 < s[i + 1].0
}

pub open spec fn samples_ok(s: Seq<(i128, Quat)>) -> bool {
    forall|i: int| 0 <= i < s.len() ==> fx_ok((#[trigger] s[i]).0 as int) && quat_ok(s[i].1@)
}

impl AnimationSamples {
    /// The sample-source invariant: a positive duration and nonempty,
    /// strictly increasing, bounded tracks.
    pub open spec fn wf(&self) -> bool {
        &&& 0 < self.duration
        &&& self.duration <= LIM / 2
        &&& forall|i: int|
            0 <= i < self.tracks@.len() ==> {
                let s = (#[trigger] self.tracks@[i]).1@;
                s.len() >= 1 && samples_increasing(s) && samples_ok(s)
            }
    }
}

/// There is a track for this joint.
pub open spec fn has_track(clip: AnimationSamples, p: TrackedEntityPath) -> bool {
    exists|i: int| 0 <= i < clip.tracks@.len() && (#[trigger] clip.tracks@[i]).0 == p
}

/// `i` is the first track of this joint.
pub open spec fn track_choice_ok(clip: AnimationSamples, p: TrackedEntityPath, i: int) -> bool {
    &&& 0 <= i < clip.tracks@.len()
    &&& clip.tracks@[i].0 == p
    &&& forall|j: int| 0 <= j < i ==> (#[trigger] clip.tracks@[j]).0 != p
}

/// `k` is the sample that time `t` resolves to: the last one at or before
/// `t`, clamped to the track's ends.
pub open spec fn sample_choice_ok(s: Seq<(i128, Quat)>, t: int, k: int) -> bool {
    &&& 0 <= k < s.len()
    &&& (k == 0 || s[k].0 <= t)
    &&& (k == s.len() - 1 || t < s[k + 1].0)
}

proof fn lemma_samples_le(s: Seq<(i128, Quat)>, i: int, j: int)
    requires
        samples_increasing(s),
        0 <= i <= j < s.len(),
    ensures
        s[i].0 <= s[j].0,
    decreases j - i,
{
    if i < j {
        lemma_samples_le(s, i + 1, j);
    }
}

proof fn lemma_sample_choice_unique(s: Seq<(i128, Quat)>, t: int, k1: int, k2: int)
    requires
        samples_increasing(s),
        sample_choice_ok(s, t, k1),
        sample_choice_ok(s, t, k2),
    ensures
        k1 == k2,
{
    if k1 < k2 {
        lemma_samples_le(s, k1 + 1, k2);
    }
    if k2 < k1 {
        lemma_samples_le(s, k2 + 1, k1);
    }
}

proof fn lemma_track_choice_unique(clip: AnimationSamples, p: TrackedEntityPath, i1: int, i2: int)
    requires
        track_choice_ok(clip, p, i1),
        track_choice_ok(clip, p, i2),
    ensures
        i1 == i2,
{
}

/// What `get_joint_rotation_at` returns: the rotation of the joint's first
/// track at the sample that `t` resolves to; the identity for a joint
/// without a track.
pub open spec fn joint_rotation_spec(clip: AnimationSamples, p: TrackedEntityPath, t: int) -> Q4 {
    if !has_track(clip, p) {
        identity_spec()
    } else {
        let i = choose|i: int| track_choice_ok(clip, p, i);
        let s = clip.tracks@[i].1@;
        let k = choose|k: int| sample_choice_ok(s, t, k);
        s[k].1@
    }
}

impl AnimationSamples {
    /// The original rotation of a joint at a time: the track's last sample
    /// at or before `t` (clamped to the track's ends); the identity for a
    /// joint without a track.
    pub fn get_joint_rotation_at(&self, p: TrackedEntityPath, t: i128) -> (r: Quat)
        requires
            self.wf(),
        ensures
            r@ == joint_rotation_spec(*self, p, t as int),
            quat_ok(r@),
    {
        let n = self.tracks.len();
        let mut i: usize = 0;
        while i < n && self.tracks[i].0.0 != p.0
            invariant
                i <= n,
                n == self.tracks@.len(),
                forall|j: int| 0 <= j < i ==> (#[trigger] self.tracks@[j]).0 != p,
            decreases n - i,
        {
            i += 1;
        }
        if i == n {
            assert(!has_track(*self, p));
            return identity();
        }
        assert(self.tracks@[i as int].0 == p);
        proof {
            assert(track_choice_ok(*self, p, i as int));
            let i1 = choose|j: int| track_choice_ok(*self, p, j);
            lemma_track_choice_unique(*self, p, i as int, i1);
        }
        let track = &self.tracks[i].1;
        let m = track.len();
        let mut idx: usize = 0;
        while idx < m && track[idx].0 <= t
            invariant
                idx <= m,
                m == track@.len(),
                forall|j: int| 0 <= j < idx ==> (#[trigger] track@[j]).0 <= t,
            decreases m - idx,
        {
            idx += 1;
        }
        let k = if idx < 1 {
            0
        } else if idx > m - 1 {
            m - 1
        } else {
            idx - 1
        };
        proof {
            let s = self.tracks@[i as int].1@;
            if idx >= m {
                assert(s[m - 1].0 <= t || m == 1);
            }
            assert(sample_choice_ok(s, t as int, k as int));
            let k1 = choose|kk: int| sample_choice_ok(s, t as int, kk);
            lemma_sample_choice_unique(s, t as int, k as int, k1);
        }
        track[k].1
    }
}

/// Absolute tolerance of the time-remap inversion (10^-5 in fixed point).
pub const MAX_ERROR_FX: i128 = 10995116;

/// Three quarters, in fixed point.
pub const THREE_QUARTERS_FX: i128 = 824633720832;

/// Two, in fixed point.
pub const TWO_FX: i128 = 2199023255552;

/// The warp curves of one joint: `theta_prime(t, theta)` is
/// `a(t) * theta + b(t)`, a rotation composition followed by a 4-vector
/// addition, generally not of unit length.
#[derive(Clone, Debug)]
pub struct MotionWarpCurve {
    pub a: DeCasteljauQuatCurve,
    pub b: DeCasteljauQuatCurve,
}

/// What `theta_prime` returns.
pub open spec fn theta_prime_spec(c: MotionWarpCurve, t: int, theta: Q4) -> Q4 {
    qadd_spec(qmul_spec(position_spec(c.a, t), theta), position_spec(c.b, t))
}

impl MotionWarpCurve {
    pub open spec fn wf(&self) -> bool {
        self.a.wf() && self.b.wf()
    }

    /// The corrected rotation before renormalization:
    /// `a(t) * theta + b(t)`. The caller must renormalize before using the
    /// result as a rotation.
    pub fn theta_prime(&self, t: i128, theta: Quat) -> (r: Quat)
        requires
            self.wf(),
            fx_ok(t as int),
            quat_ok(theta@),
        ensures
            r@ == theta_prime_spec(*self, t as int, theta@),
            quat_ok(r@),
    {
        qadd(qmul(self.a.position(t), theta), self.b.position(t))
    }
}

/// A built, immutable warp clip.
#[derive(Clone, Debug)]
pub struct MotionWarpClip {
    pub curves: Vec<MotionWarpCurve>,
    pub paths: Vec<(TrackedEntityPath, usize)>,
    pub g: Curve2,
    pub start_time: i128,
    pub end_time: i128,
    pub blend_margin: i128,
}

/// What `p_blend` returns: the ease curve `0.75 s^2 / (s^2 - s + 1)`,
/// exactly 0 at 0 and 1 at 1.
pub open spec fn p_blend_spec(t: int) -> int {
    let t2 = fxmul_spec(t, t);
    fxdiv_spec(
        fxmul_spec(THREE_QUARTERS_FX as int, t2),
        fxadd_spec(fxsub_spec(t2, t), SCALE as int),
    )
}

fn p_blend(t: i128) -> (r: i128)
    requires
        fx_ok(t as int),
    ensures
        r == p_blend_spec(t as int),
        fx_ok(r as int),
{
    let t_squared = fxmul(t, t);
    fxdiv(fxmul(THREE_QUARTERS_FX, t_squared), fxadd(fxsub(t_squared, t), SCALE))
}

/// What `omega` returns: the normalized time eased in over the leading
/// margin, eased out over the trailing margin, and one strictly inside.
pub open spec fn omega_spec(start: int, end: int, margin: int, t: int) -> int {
    let u = fxdiv_spec(fxsub_spec(t, start), fxsub_spec(end, start));
    if u <= margin {
        p_blend_spec(fxdiv_spec(fxmul_spec(TWO_FX as int, u), margin))
    } else if u >= fxsub_spec(SCALE as int, margin) {
        p_blend_spec(fxdiv_spec(fxmul_spec(TWO_FX as int, fxsub_spec(SCALE as int, u)), margin))
    } else {
        SCALE as int
    }
}

/// The error the time-remap inversion drives toward zero: the remap
/// curve's first coordinate at `t`, minus the searched-for time.
pub open spec fn g_err_spec(c: MotionWarpClip, t_prime: int, t: int) -> int {
    fxsub_spec(position2_spec(c.g, t).x, t_prime)
}

impl MotionWarpClip {
    /// The clip invariant.
    pub open spec fn wf(&self) -> bool {
        &&& fx_ok(self.start_time as int)
        &&& fx_ok(self.end_time as int)
        &&& self.start_time < self.end_time
        &&& 0 <= self.blend_margin <= SCALE / 2
        &&& self.g.wf()
        &&& forall|i: int| 0 <= i < self.curves@.len() ==> (#[trigger] self.curves@[i]).wf()
        &&& forall|k: int|
            0 <= k < self.paths@.len() ==> (#[trigger] self.paths@[k]).1 < self.curves@.len()
    }

    /// Maps a warped time back to the original animation's time: bisects
    /// `[start_time, end_time]` for a `t` whose remap error is within
    /// tolerance. When no exact hit is reported the search ends on an
    /// interval of one fixed-point step whose inner boundaries carry the
    /// bracketing witnesses.
    pub fn g(&self, t_prime: i128) -> (r: i128)
        requires
            self.wf(),
            fx_ok(t_prime as int),
        ensures
            self.start_time <= r <= self.end_time,
            crate::fx::iabs(g_err_spec(*self, t_prime as int, r as int)) <= MAX_ERROR_FX
                || exists|lo: i128, hi: i128|
                self.start_time <= lo <= r <= hi <= self.end_time && #[trigger] (hi - lo) <= 1 && (
                lo == self.start_time || g_err_spec(*self, t_prime as int, lo as int)
                    < -MAX_ERROR_FX) && (hi == self.end_time || g_err_spec(
                    *self,
                    t_prime as int,
                    hi as int,
                ) > MAX_ERROR_FX),
    {
        let cmp = |t: i128| -> (o: Ordering)
            requires
                fx_ok(t as int),
            ensures
                ({
                    let e = g_err_spec(*self, t_prime as int, t as int);
                    (o == Ordering::Greater <==> e > MAX_ERROR_FX) && (o == Ordering::Less <==> e
                        < -MAX_ERROR_FX) && (o == Ordering::Equal <==> -MAX_ERROR_FX <= e
                        <= MAX_ERROR_FX)
                }),
            {
                let pos = self.g.position(t);
                let error = fxsub(pos.x, t_prime);
                if error > MAX_ERROR_FX {
                    Ordering::Greater
                } else if error < -MAX_ERROR_FX {
                    Ordering::Less
                } else {
                    Ordering::Equal
                }
            };
        let r = bisect(self.start_time, self.end_time, cmp);
        proof {
            if !call_ensures(cmp, (r,), Ordering::Equal) {
                let (lo, hi) = choose|lo: i128, hi: i128|
                    self.start_time as int <= lo <= r as int <= hi <= self.end_time as int
                        && #[trigger] (hi - lo) <= 1 && (lo == self.start_time || call_ensures(
                        cmp,
                        (lo,),
                        Ordering::Less,
                    )) && (hi == self.end_time || call_ensures(cmp, (hi,), Ordering::Greater));
                assert(self.start_time <= lo <= r <= hi <= self.end_time && hi - lo <= 1 && (lo
                    == self.start_time || g_err_spec(*self, t_prime as int, lo as int)
                    < -MAX_ERROR_FX) && (hi == self.end_time || g_err_spec(
                    *self,
                    t_prime as int,
                    hi as int,
                ) > MAX_ERROR_FX));
            }
        }
        r
    }

    /// The boundary-feathered blend weight at time `t`.
    pub fn omega(&self, t: i128) -> (r: i128)
        requires
            self.wf(),
            fx_ok(t as int),
        ensures
            r == omega_spec(
                self.start_time as int,
                self.end_time as int,
                self.blend_margin as int,
                t as int,
            ),
            fx_ok(r as int),
    {
        let duration = fxsub(self.end_time, self.start_time);
        let u = fxdiv(fxsub(t, self.start_time), duration);
        if u <= self.blend_margin {
            p_blend(fxdiv(fxmul(TWO_FX, u), self.blend_margin))
        } else if u >= fxsub(SCALE, self.blend_margin) {
            p_blend(fxdiv(fxmul(TWO_FX, fxsub(SCALE, u)), self.blend_margin))
        } else {
            SCALE
        }
    }

    /// The blended rotation of one joint: the corrected rotation,
    /// renormalized, interpolated from the original by the blend weight.
    pub fn theta_blend(&self, curve: &MotionWarpCurve, t: i128, theta: Quat) -> (r: Quat)
        requires
            self.wf(),
            curve.wf(),
            fx_ok(t as int),
            quat_ok(theta@),
        ensures
            r@ == slerp_spec(
                theta@,
                normalize_spec(theta_prime_spec(*curve, t as int, theta@)),
                omega_spec(
                    self.start_time as int,
                    self.end_time as int,
                    self.blend_margin as int,
                    t as int,
                ),
            ),
            quat_ok(r@),
    {
        let theta_prime = curve.theta_prime(t, theta);
        let omega = self.omega(t);
        slerp(theta, normalize(theta_prime), omega)
    }
}

/// The clip records a warp curve pair for this joint.
pub open spec fn has_path(c: MotionWarpClip, p: TrackedEntityPath) -> bool {
    exists|k: int| 0 <= k < c.paths@.len() && (#[trigger] c.paths@[k]).0 == p
}

/// `k` is the first path entry of this joint.
pub open spec fn path_choice_ok(c: MotionWarpClip, p: TrackedEntityPath, k: int) -> bool {
    &&& 0 <= k < c.paths@.len()
    &&& c.paths@[k].0 == p
    &&& forall|j: int| 0 <= j < k ==> (#[trigger] c.paths@[j]).0 != p
}

impl MotionWarpClip {
    /// Blend one joint at one time: looks the joint up and leaves the
    /// rotation unchanged when no warp curve was recorded for it, so the
    /// runtime can be called uniformly over all joints.
    pub fn blend(&self, path: TrackedEntityPath, t: i128, theta: Quat) -> (r: Quat)
        requires
            self.wf(),
            fx_ok(t as int),
            quat_ok(theta@),
        ensures
            !has_path(*self, path) ==> r == theta,
            has_path(*self, path) ==> r@ == slerp_spec(
                theta@,
                normalize_spec(
                    theta_prime_spec(
                        self.curves@[self.paths@[choose|k: int|
                            path_choice_ok(*self, path, k)].1 as int],
                        t as int,
                        theta@,
                    ),
                ),
                omega_spec(
                    self.start_time as int,
                    self.end_time as int,
                    self.blend_margin as int,
                    t as int,
                ),
            ),
            quat_ok(r@),
    {
        let n = self.paths.len();
        let mut k: usize = 0;
        while k < n && self.paths[k].0.0 != path.0
            invariant
                k <= n,
                n == self.paths@.len(),
                forall|j: int| 0 <= j < k ==> (#[trigger] self.paths@[j]).0 != path,
            decreases n - k,
        {
            k += 1;
        }
        if k == n {
            assert(!has_path(*self, path));
            return theta;
        }
        assert(self.paths@[k as int].0 == path);
        proof {
            assert(path_choice_ok(*self, path, k as int));
            let k1 = choose|kk: int| path_choice_ok(*self, path, kk);
            if k1 != k as int {
                if k1 < k as int {
                    assert(self.paths@[k1].0 != path);
                } else {
                    assert(self.paths@[k as int].0 != path);
                }
            }
        }
        let idx = self.paths[k].1;
        let curve = &self.curves[idx];
        self.theta_blend(curve, t, theta)
    }
}

/// Keyframe times strictly increase.
pub open spec fn frames_sorted(s: Seq<MotionWarpClipFrame>) -> bool {
    forall|i: int| 0 <= i < s.len() - 1 ==> (#[trigger] s[i]).time < s[i + 1].time
}

/// No two keyframes share a time.
pub open spec fn frame_times_distinct(s: Seq<MotionWarpClipFrame>) -> bool {
    forall|i: int, j: int|
        0 <= i < s.len() && 0 <= j < s.len() && i != j ==> (#[trigger] s[i]).time != (
        #[trigger] s[j]).time
}

/// Selection sort of the keyframes by time. Times are distinct, so the
/// sorted order is strict and unique.
fn sort_frames(v: Vec<MotionWarpClipFrame>) -> (r: Vec<MotionWarpClipFrame>)
    requires
        frame_times_distinct(v@),
    ensures
        r@.len() == v@.len(),
        frames_sorted(r@),
        r@.to_multiset() == v@.to_multiset(),
        forall|f: MotionWarpClipFrame| r@.contains(f) ==> v@.contains(f),
{
    broadcast use vstd::seq_lib::group_to_multiset_ensures;
    broadcast use vstd::multiset::group_multiset_axioms;

    let ghost orig = v@;
    let mut rest = v;
    let mut out: Vec<MotionWarpClipFrame> = Vec::new();
    while rest.len() > 0
        invariant
            out@.len() + rest@.len() == orig.len(),
            frames_sorted(out@),
            frame_times_distinct(rest@),
            forall|i: int, j: int|
                0 <= i < out@.len() && 0 <= j < rest@.len() ==> (#[trigger] out@[i]).time < (
                #[trigger] rest@[j]).time,
            out@.to_multiset().add(rest@.to_multiset()) =~= orig.to_multiset(),
        decreases rest@.len(),
    {
        let n = rest.len();
        let mut m: usize = 0;
        let mut k: usize = 1;
        while k < n
            invariant
                m < k <= n,
                n == rest@.len(),
                forall|j: int| 0 <= j < k ==> rest@[m as int].time <= (#[trigger] rest@[j]).time,
            decreases n - k,
        {
            if rest[k].time < rest[m].time {
                m = k;
            }
            k += 1;
        }
        let ghost pre = rest@;
        let f = rest.remove(m);
        proof {
            assert(pre[m as int] == f);
            assert(pre.contains(f));
            vstd::seq_lib::to_multiset_remove(pre, m as int);
            vstd::seq_lib::to_multiset_build(out@, f);
            pre.to_multiset_ensures();
            assert(pre.to_multiset().count(f) > 0);
            assert(rest@.to_multiset() =~= pre.to_multiset().remove(f));
            assert(out@.push(f).to_multiset() =~= out@.to_multiset().insert(f));
            assert forall|x: MotionWarpClipFrame|
                #[trigger] out@.push(f).to_multiset().add(rest@.to_multiset()).count(x)
                    == orig.to_multiset().count(x) by {
                assert(out@.to_multiset().insert(f).count(x) == out@.to_multiset().count(x) + (
                if x == f {
                    1int
                } else {
                    0int
                }));
                assert(pre.to_multiset().remove(f).count(x) == pre.to_multiset().count(x) - (
                if x == f {
                    1int
                } else {
                    0int
                }));
            }
            assert(out@.push(f).to_multiset().add(rest@.to_multiset()) =~= orig.to_multiset());
        }
        out.push(f);
    }
    proof {
        assert(out@.to_multiset() =~= orig.to_multiset());
        assert forall|f: MotionWarpClipFrame| out@.contains(f) implies orig.contains(f) by {
            assert(out@.to_multiset().count(f) > 0);
        }
    }
    out
}

/// This keyframe references the joint.
pub open spec fn map_has_path(
    m: Seq<(TrackedEntityPath, MotionWarpCurveFrame)>,
    p: TrackedEntityPath,
) -> bool {
    exists|j: int| 0 <= j < m.len() && (#[trigger] m[j]).0 == p
}

/// No joint appears twice in one keyframe.
pub open spec fn map_paths_distinct(m: Seq<(TrackedEntityPath, MotionWarpCurveFrame)>) -> bool {
    forall|i: int, j: int|
        0 <= i < m.len() && 0 <= j < m.len() && i != j ==> (#[trigger] m[i]).0 != (
        #[trigger] m[j]).0
}

/// The correction this keyframe authored for the joint.
pub open spec fn map_entry_spec(
    m: Seq<(TrackedEntityPath, MotionWarpCurveFrame)>,
    p: TrackedEntityPath,
) -> MotionWarpCurveFrame {
    m[choose|j: int| 0 <= j < m.len() && (#[trigger] m[j]).0 == p].1
}

fn map_get(
    m: &Vec<(TrackedEntityPath, MotionWarpCurveFrame)>,
    p: TrackedEntityPath,
) -> (r: Option<MotionWarpCurveFrame>)
    requires
        map_paths_distinct(m@),
    ensures
        r is Some <==> map_has_path(m@, p),
        r is Some ==> r->Some_0 == map_entry_spec(m@, p),
{
    let n = m.len();
    let mut j: usize = 0;
    while j < n && m[j].0.0 != p.0
        invariant
            j <= n,
            n == m@.len(),
            forall|i: int| 0 <= i < j ==> (#[trigger] m@[i]).0 != p,
        decreases n - j,
    {
        j += 1;
    }
    if j == n {
        assert(!map_has_path(m@, p));
        None
    } else {
        assert(m@[j as int].0 == p);
        proof {
            let j1 = choose|jj: int| 0 <= jj < m@.len() && (#[trigger] m@[jj]).0 == p;
            assert(m@[j1].0 == p);
            if j1 != j as int {
                assert(m@[j1].0 != m@[j as int].0);
            }
        }
        Some(m[j].1)
    }
}

/// A point with both coordinates equal: the periodic shift of the
/// time-remap plane.
pub open spec fn splat2(d: int) -> V2 {
    V2 { x: d, y: d }
}

/// The `(time, warp_time)` points of the keyframes that override the warp
/// time, in keyframe order.
pub open spec fn warp_points_spec(frames: Seq<MotionWarpClipFrame>) -> Seq<Vec2>
    decreases frames.len(),
{
    if frames.len() == 0 {
        Seq::empty()
    } else {
        let rest = warp_points_spec(frames.drop_last());
        match frames.last().warp_time {
            Some(w) => rest.push(Vec2 { x: frames.last().time, y: w }),
            None => rest,
        }
    }
}

/// The warp points, or the single synthesized origin point when no
/// keyframe overrides the warp time.
pub open spec fn g_base_points_spec(frames: Seq<MotionWarpClipFrame>) -> Seq<Vec2> {
    let wp = warp_points_spec(frames);
    if wp.len() == 0 {
        seq![Vec2 { x: 0, y: 0 }]
    } else {
        wp
    }
}

/// `cs` is `pts` extended periodically: the last point shifted back one
/// duration is prepended and the first shifted forward is appended.
pub open spec fn extended2_matches(cs: Seq<Vec2>, pts: Seq<Vec2>, duration: int) -> bool {
    &&& cs.len() == pts.len() + 2
    &&& forall|i: int| 0 <= i < pts.len() ==> cs[i + 1] == #[trigger] pts[i]
    &&& cs[0]@ == v2sub_spec(pts.last()@, splat2(duration))
    &&& cs.last()@ == v2add_spec(pts[0]@, splat2(duration))
}

/// `c` is the evaluable image of the plane spline with controls `cs`.
pub open spec fn curve2_from(c: Curve2, tension: int, cs: Seq<Vec2>) -> bool {
    &&& cs.len() >= 2
    &&& c.segments@.len() == cs.len() - 1
    &&& forall|i: int| 0 <= i < c.times@.len() ==> #[trigger] c.times@[i] == cs[i].x
    &&& forall|i: int|
        0 <= i < c.segments@.len() ==> #[trigger] c.segments@[i]@ == seg2_expected(cs, tension, i)
}

/// `g` was fitted through `pts` extended periodically by `duration`.
pub open spec fn curve2_built(g: Curve2, tension: int, pts: Seq<Vec2>, duration: int) -> bool {
    exists|cs: Seq<Vec2>| #[trigger] extended2_matches(cs, pts, duration) && curve2_from(g, tension, cs)
}

/// The mathematical image of a control-point vector.
pub open spec fn pts_view(s: Seq<(Quat, i128)>) -> Seq<(Q4, int)>
    decreases s.len(),
{
    if s.len() == 0 {
        Seq::empty()
    } else {
        pts_view(s.drop_last()).push((s.last().0@, s.last().1 as int))
    }
}

pub proof fn lemma_pts_view(s: Seq<(Quat, i128)>)
    ensures
        pts_view(s).len() == s.len(),
        forall|i: int|
            0 <= i < s.len() ==> (#[trigger] pts_view(s)[i]).0 == s[i].0@ && pts_view(s)[i].1
                == s[i].1 as int,
    decreases s.len(),
{
    if s.len() > 0 {
        lemma_pts_view(s.drop_last());
    }
}

/// The `a` correction control point one keyframe authors for one joint:
/// the identity when the keyframe fixes the additive term, otherwise
/// `(desired - identity) * original^-1`.
pub open spec fn a_point_spec(clip: AnimationSamples, p: TrackedEntityPath, f: MotionWarpClipFrame) -> Q4 {
    let theta = joint_rotation_spec(clip, p, f.time as int);
    let e = map_entry_spec(f.map@, p);
    if e.fix_a {
        identity_spec()
    } else {
        qmul_spec(qsub_spec(e.rotation@, identity_spec()), qconj_spec(theta))
    }
}

/// The `b` correction control point: `original - desired` (a 4-vector
/// difference) when the keyframe fixes the additive term, otherwise the
/// identity.
pub open spec fn b_point_spec(clip: AnimationSamples, p: TrackedEntityPath, f: MotionWarpClipFrame) -> Q4 {
    let theta = joint_rotation_spec(clip, p, f.time as int);
    let e = map_entry_spec(f.map@, p);
    if e.fix_a {
        qsub_spec(theta, e.rotation@)
    } else {
        identity_spec()
    }
}

/// The timestamped `a` control points of one joint, over the keyframes
/// that reference it, in keyframe order.
pub open spec fn a_points_spec(
    clip: AnimationSamples,
    p: TrackedEntityPath,
    frames: Seq<MotionWarpClipFrame>,
) -> Seq<(Q4, int)>
    decreases frames.len(),
{
    if frames.len() == 0 {
        Seq::empty()
    } else {
        let rest = a_points_spec(clip, p, frames.drop_last());
        if map_has_path(frames.last().map@, p) {
            rest.push((a_point_spec(clip, p, frames.last()), frames.last().time as int))
        } else {
            rest
        }
    }
}

/// The timestamped `b` control points of one joint.
pub open spec fn b_points_spec(
    clip: AnimationSamples,
    p: TrackedEntityPath,
    frames: Seq<MotionWarpClipFrame>,
) -> Seq<(Q4, int)>
    decreases frames.len(),
{
    if frames.len() == 0 {
        Seq::empty()
    } else {
        let rest = b_points_spec(clip, p, frames.drop_last());
        if map_has_path(frames.last().map@, p) {
            rest.push((b_point_spec(clip, p, frames.last()), frames.last().time as int))
        } else {
            rest
        }
    }
}

/// `cs` is `pts` extended periodically by `duration`, at the level of the
/// mathematical images.
pub open spec fn extended_q_matches(cs: Seq<(Quat, i128)>, pts: Seq<(Q4, int)>, duration: int) -> bool {
    &&& cs.len() == pts.len() + 2
    &&& forall|i: int|
        0 <= i < pts.len() ==> (#[trigger] cs[i + 1]).0@ == pts[i].0 && cs[i + 1].1 as int
            == pts[i].1
    &&& cs[0].0@ == pts.last().0
    &&& cs[0].1 as int == pts.last().1 - duration
    &&& cs.last().0@ == pts[0].0
    &&& cs.last().1 as int == pts[0].1 + duration
}

/// `c` is the evaluable image of the quaternion spline fitted through
/// `pts` extended periodically by `duration`: some control vector matches
/// the extended points, and its sign-canonicalized form yields exactly the
/// curve's knots and segments.
pub open spec fn quat_curve_from(
    c: DeCasteljauQuatCurve,
    tension: int,
    pts: Seq<(Q4, int)>,
    duration: int,
) -> bool {
    exists|cs: Seq<(Quat, i128)>, cc: Seq<(Quat, i128)>|
        {
            &&& extended_q_matches(cs, pts, duration)
            &&& #[trigger] is_canon_of(cc, cs)
            &&& c.segments@.len() == cc.len() - 1
            &&& forall|i: int| 0 <= i < c.times@.len() ==> #[trigger] c.times@[i] == cc[i].1
            &&& forall|i: int|
                0 <= i < c.segments@.len() ==> #[trigger] c.segments@[i]@ == seg_expected(
                    cc,
                    tension,
                    i,
                )
        }
}

/// Both warp curves of one joint were fitted from its correction points.
pub open spec fn joint_curves_from(
    c: MotionWarpCurve,
    tension: int,
    clip: AnimationSamples,
    frames: Seq<MotionWarpClipFrame>,
    p: TrackedEntityPath,
    duration: int,
) -> bool {
    &&& quat_curve_from(c.a, tension, a_points_spec(clip, p, frames), duration)
    &&& quat_curve_from(c.b, tension, b_points_spec(clip, p, frames), duration)
}

/// Some keyframe references the joint.
pub open spec fn frames_reference(frames: Seq<MotionWarpClipFrame>, p: TrackedEntityPath) -> bool {
    exists|i: int| 0 <= i < frames.len() && map_has_path((#[trigger] frames[i]).map@, p)
}

/// One keyframe's obligations toward the builder: a time inside the
/// animation, one correction per joint, bounded values.
pub open spec fn frame_ok(f: MotionWarpClipFrame, duration: int) -> bool {
    &&& 0 <= f.time < duration
    &&& map_paths_distinct(f.map@)
    &&& forall|j: int| 0 <= j < f.map@.len() ==> quat_ok((#[trigger] f.map@[j]).1.rotation@)
    &&& match f.warp_time {
        Some(w) => -(LIM / 2) <= w <= LIM / 2,
        None => true,
    }
}

fn contains_path(paths: &Vec<(TrackedEntityPath, usize)>, p: TrackedEntityPath) -> (r: bool)
    ensures
        r <==> exists|k: int| 0 <= k < paths@.len() && (#[trigger] paths@[k]).0 == p,
{
    let n = paths.len();
    let mut k: usize = 0;
    while k < n && paths[k].0.0 != p.0
        invariant
            k <= n,
            n == paths@.len(),
            forall|j: int| 0 <= j < k ==> (#[trigger] paths@[j]).0 != p,
        decreases n - k,
    {
        k += 1;
    }
    if k == n {
        false
    } else {
        assert(paths@[k as int].0 == p);
        true
    }
}

/// Gather one joint's timestamped correction points over all keyframes
/// that reference it, in keyframe order.
#[verifier::rlimit(100)]
fn gather_points(
    frames: &Vec<MotionWarpClipFrame>,
    clip: &AnimationSamples,
    p: TrackedEntityPath,
) -> (r: (Vec<(Quat, i128)>, Vec<(Quat, i128)>))
    requires
        clip.wf(),
        frames_sorted(frames@),
        forall|i: int| 0 <= i < frames@.len() ==> frame_ok(#[trigger] frames@[i], clip.duration as int),
    ensures
        pts_view(r.0@) == a_points_spec(*clip, p, frames@),
        pts_view(r.1@) == b_points_spec(*clip, p, frames@),
        r.0@.len() == r.1@.len(),
        crate::quat_splines::times_increasing(r.0@),
        crate::quat_splines::times_increasing(r.1@),
        crate::quat_splines::ctrls_ok(r.0@),
        crate::quat_splines::ctrls_ok(r.1@),
        forall|k: int| 0 <= k < r.0@.len() ==> 0 <= (#[trigger] r.0@[k]).1 < clip.duration,
        forall|k: int| 0 <= k < r.1@.len() ==> (#[trigger] r.1@[k]).1 == r.0@[k].1,
        frames_reference(frames@, p) ==> r.0@.len() >= 1,
{
    let nf = frames.len();
    let mut apts: Vec<(Quat, i128)> = Vec::new();
    let mut bpts: Vec<(Quat, i128)> = Vec::new();
    let mut j: usize = 0;
    while j < nf
        invariant
            j <= nf,
            nf == frames@.len(),
            clip.wf(),
            frames_sorted(frames@),
            forall|i: int|
                0 <= i < frames@.len() ==> frame_ok(#[trigger] frames@[i], clip.duration as int),
            pts_view(apts@) == a_points_spec(*clip, p, frames@.take(j as int)),
            pts_view(bpts@) == b_points_spec(*clip, p, frames@.take(j as int)),
            apts@.len() == bpts@.len(),
            crate::quat_splines::times_increasing(apts@),
            crate::quat_splines::times_increasing(bpts@),
            crate::quat_splines::ctrls_ok(apts@),
            crate::quat_splines::ctrls_ok(bpts@),
            forall|k: int| 0 <= k < apts@.len() ==> 0 <= (#[trigger] apts@[k]).1 < clip.duration,
            forall|k: int| 0 <= k < bpts@.len() ==> (#[trigger] bpts@[k]).1 == apts@[k].1,
            apts@.len() > 0 && j > 0 ==> apts@.last().1 <= frames@[j - 1].time,
            (exists|ii: int| 0 <= ii < j && map_has_path((#[trigger] frames@[ii]).map@, p))
                ==> apts@.len() >= 1,
        decreases nf - j,
    {
        let fr = &frames[j];
        let got = map_get(&fr.map, p);
        let ghost prea = apts@;
        let ghost preb = bpts@;
        match got {
            Some(e) => {
                let theta = clip.get_joint_rotation_at(p, fr.time);
                let apt: Quat;
                let bpt: Quat;
                if e.fix_a {
                    apt = identity();
                    bpt = qsub(theta, e.rotation);
                } else {
                    bpt = identity();
                    apt = qmul(qsub(e.rotation, identity()), qconj(theta));
                }
                apts.push((apt, fr.time));
                bpts.push((bpt, fr.time));
                proof {
                    assert(apt@ == a_point_spec(*clip, p, frames@[j as int]));
                    assert(bpt@ == b_point_spec(*clip, p, frames@[j as int]));
                    assert(frame_ok(frames@[j as int], clip.duration as int));
                    assert forall|k: int| 0 <= k < apts@.len() implies 0 <= (
                    #[trigger] apts@[k]).1 < clip.duration by {
                        if k == apts@.len() - 1 {
                            assert(apts@[k] == (apt, frames@[j as int].time));
                        } else {
                            assert(apts@[k] == prea[k]);
                        }
                    }
                    assert forall|k: int| 0 <= k < bpts@.len() implies (#[trigger] bpts@[k]).1
                        == apts@[k].1 by {
                        if k == bpts@.len() - 1 {
                            assert(apts@[k] == (apt, frames@[j as int].time));
                            assert(bpts@[k] == (bpt, frames@[j as int].time));
                        } else {
                            assert(apts@[k] == prea[k]);
                            assert(bpts@[k] == preb[k]);
                        }
                    }
                }
            },
            None => {},
        }
        proof {
            assert(frames@.take(j + 1).drop_last() =~= frames@.take(j as int));
            assert(frames@.take(j + 1).last() == frames@[j as int]);
            if map_has_path(frames@[j as int].map@, p) {
                assert(apts@.drop_last() =~= prea);
                assert(bpts@.drop_last() =~= preb);
            }
            assert(pts_view(apts@) == a_points_spec(*clip, p, frames@.take(j + 1)));
            assert(pts_view(bpts@) == b_points_spec(*clip, p, frames@.take(j + 1)));
        }
        j += 1;
    }
    proof {
        assert(frames@.take(nf as int) =~= frames@);
    }
    (apts, bpts)
}

/// Extend a joint's control points periodically: the last point shifted
/// back one duration in front, the first shifted forward at the back.
#[verifier::rlimit(100)]
fn extend_q(pts: &Vec<(Quat, i128)>, duration: i128) -> (r: Vec<(Quat, i128)>)
    requires
        pts@.len() >= 1,
        crate::quat_splines::times_increasing(pts@),
        crate::quat_splines::ctrls_ok(pts@),
        forall|k: int| 0 <= k < pts@.len() ==> 0 <= (#[trigger] pts@[k]).1 < duration,
        0 < duration <= LIM / 2,
    ensures
        extended_q_matches(r@, pts_view(pts@), duration as int),
        crate::quat_splines::times_increasing(r@),
        crate::quat_splines::ctrls_ok(r@),
        r@.len() == pts@.len() + 2,
{
    let n = pts.len();
    let first = pts[0];
    let last = pts[n - 1];
    let mut out: Vec<(Quat, i128)> = Vec::new();
    out.push((last.0, last.1 - duration));
    let mut k: usize = 0;
    while k < n
        invariant
            k <= n,
            n == pts@.len(),
            out@.len() == k + 1,
            out@[0] == (last.0, (last.1 - duration) as i128),
            last == pts@[n - 1],
            forall|i: int| 0 <= i < k ==> #[trigger] out@[i + 1] == pts@[i],
            crate::quat_splines::ctrls_ok(pts@),
        decreases n - k,
    {
        let e = pts[k];
        out.push(e);
        k += 1;
    }
    out.push((first.0, first.1 + duration));
    proof {
        lemma_pts_view(pts@);
        assert forall|i: int| 0 <= i < out@.len() - 1 implies (#[trigger] out@[i]).1 < out@[i
            + 1].1 by {
            if i == 0 {
                assert(out@[1] == pts@[0]);
            } else if i < out@.len() - 2 {
                assert(out@[i] == pts@[i - 1]);
                assert(out@[i + 1] == pts@[i]);
            } else {
                assert(out@[i] == pts@[n - 1]);
            }
        }
        assert forall|i: int| 0 <= i < out@.len() implies quat_ok((#[trigger] out@[i]).0@)
            && fx_ok(out@[i].1 as int) by {
            if 1 <= i < out@.len() - 1 {
                assert(out@[i] == pts@[i - 1]);
            }
        }
        assert(extended_q_matches(out@, pts_view(pts@), duration as int));
    }
    out
}

/// Extend the time-remap points periodically, as `extend_q` does for a
/// joint's control points.
fn extend2(pts: &Vec<Vec2>, duration: i128) -> (r: Vec<Vec2>)
    requires
        pts@.len() >= 1,
        crate::curve2::xs_increasing(pts@),
        crate::curve2::pts_ok(pts@),
        forall|k: int| 0 <= k < pts@.len() ==> 0 <= (#[trigger] pts@[k]).x < duration,
        forall|k: int| 0 <= k < pts@.len() ==> -(LIM / 2) <= (#[trigger] pts@[k]).y <= LIM / 2,
        0 < duration <= LIM / 2,
    ensures
        extended2_matches(r@, pts@, duration as int),
        crate::curve2::xs_increasing(r@),
        crate::curve2::pts_ok(r@),
        r@.len() == pts@.len() + 2,
{
    let n = pts.len();
    let first = pts[0];
    let last = pts[n - 1];
    let mut out: Vec<Vec2> = Vec::new();
    out.push(Vec2 { x: last.x - duration, y: last.y - duration });
    let mut k: usize = 0;
    while k < n
        invariant
            k <= n,
            n == pts@.len(),
            out@.len() == k + 1,
            out@[0] == (Vec2 { x: (last.x - duration) as i128, y: (last.y - duration) as i128 }),
            last == pts@[n - 1],
            forall|i: int| 0 <= i < k ==> #[trigger] out@[i + 1] == pts@[i],
            crate::curve2::pts_ok(pts@),
        decreases n - k,
    {
        let e = pts[k];
        out.push(e);
        k += 1;
    }
    out.push(Vec2 { x: first.x + duration, y: first.y + duration });
    proof {
        assert forall|i: int| 0 <= i < out@.len() - 1 implies (#[trigger] out@[i]).x < out@[i
            + 1].x by {
            if i == 0 {
                assert(out@[1] == pts@[0]);
            } else if i < out@.len() - 2 {
                assert(out@[i] == pts@[i - 1]);
                assert(out@[i + 1] == pts@[i]);
            } else {
                assert(out@[i] == pts@[n - 1]);
            }
        }
        assert forall|i: int| 0 <= i < out@.len() implies crate::curve2::v2_ok(
            (#[trigger] out@[i])@,
        ) by {
            if 1 <= i < out@.len() - 1 {
                assert(out@[i] == pts@[i - 1]);
            }
        }
        assert(extended2_matches(out@, pts@, duration as int));
    }
    out
}

/// Fit the time-remap curve: the keyframes' warp points (or a synthesized
/// origin point), extended periodically, under a Cardinal plane spline.
fn fit_g_curve(frames: &Vec<MotionWarpClipFrame>, tension: i128, duration: i128) -> (g: Curve2)
    requires
        frames_sorted(frames@),
        -SCALE <= tension <= SCALE,
        0 < duration <= LIM / 2,
        forall|i: int| 0 <= i < frames@.len() ==> frame_ok(#[trigger] frames@[i], duration as int),
    ensures
        g.wf(),
        curve2_built(g, tension as int, g_base_points_spec(frames@), duration as int),
{
    let nf = frames.len();
    let mut base: Vec<Vec2> = Vec::new();
    let mut i: usize = 0;
    while i < nf
        invariant
            i <= nf,
            nf == frames@.len(),
            frames_sorted(frames@),
            forall|ii: int|
                0 <= ii < frames@.len() ==> frame_ok(#[trigger] frames@[ii], duration as int),
            base@ == warp_points_spec(frames@.take(i as int)),
            crate::curve2::xs_increasing(base@),
            forall|k: int| 0 <= k < base@.len() ==> 0 <= (#[trigger] base@[k]).x < duration,
            forall|k: int|
                0 <= k < base@.len() ==> -(LIM / 2) <= (#[trigger] base@[k]).y <= LIM / 2,
            base@.len() > 0 && i > 0 ==> base@.last().x <= frames@[i - 1].time,
        decreases nf - i,
    {
        let fr = &frames[i];
        match fr.warp_time {
            Some(w) => {
                base.push(Vec2 { x: fr.time, y: w });
            },
            None => {},
        }
        proof {
            assert(frames@.take(i + 1).drop_last() =~= frames@.take(i as int));
            assert(frames@.take(i + 1).last() == frames@[i as int]);
            assert(frame_ok(frames@[i as int], duration as int));
        }
        i += 1;
    }
    proof {
        assert(frames@.take(nf as int) =~= frames@);
    }
    if base.len() == 0 {
        base.push(Vec2 { x: 0, y: 0 });
    }
    assert(base@ == g_base_points_spec(frames@));
    let cs2 = extend2(&base, duration);
    let g = Cardinal2Curve::new(tension, cs2).to_curve();
    proof {
        assert(curve2_built(g, tension as int, g_base_points_spec(frames@), duration as int));
    }
    g
}

/// Fit one joint's pair of correction curves: gather its timestamped
/// correction points, extend them periodically, and fit two Cardinal
/// quaternion splines.
fn fit_joint_curves(
    frames: &Vec<MotionWarpClipFrame>,
    clip: &AnimationSamples,
    p: TrackedEntityPath,
    tension: i128,
    duration: i128,
) -> (curve: MotionWarpCurve)
    requires
        clip.wf(),
        frames_sorted(frames@),
        -SCALE <= tension <= SCALE,
        duration == clip.duration,
        forall|i: int| 0 <= i < frames@.len() ==> frame_ok(#[trigger] frames@[i], duration as int),
        frames_reference(frames@, p),
    ensures
        curve.wf(),
        joint_curves_from(curve, tension as int, *clip, frames@, p, duration as int),
{
    let (apts, bpts) = gather_points(frames, clip, p);
    let ext_a = extend_q(&apts, duration);
    let ext_b = extend_q(&bpts, duration);
    let ca = CardinalQuatCurve::new(tension, ext_a);
    let cb = CardinalQuatCurve::new(tension, ext_b);
    let curve = MotionWarpCurve { a: ca.to_curve(), b: cb.to_curve() };
    proof {
        assert(is_canon_of(ca.controls@, ext_a@));
        assert(is_canon_of(cb.controls@, ext_b@));
        assert(quat_curve_from(
            curve.a,
            tension as int,
            a_points_spec(*clip, p, frames@),
            duration as int,
        ));
        assert(quat_curve_from(
            curve.b,
            tension as int,
            b_points_spec(*clip, p, frames@),
            duration as int,
        ));
    }
    curve
}

impl MotionWarpClipBuilder {
    /// Build an immutable warp clip from the authored keyframes: sort them,
    /// fit the time-remap curve through the warp-time overrides (or a
    /// single synthesized origin point), and fit one pair of correction
    /// curves per referenced joint, each over its own keyframes extended
    /// periodically by the animation's duration.
    ///
    /// The preconditions are the builder's contract: a clip whose start
    /// does not precede its end is a programmer error, and keyframe times
    /// must be distinct and lie inside the animation.
    #[verifier::rlimit(100)]
    pub fn build(&mut self, clip: &AnimationSamples) -> (r: MotionWarpClip)
        requires
            clip.wf(),
            old(self).start_time < old(self).end_time,
            fx_ok(old(self).start_time as int),
            fx_ok(old(self).end_time as int),
            0 <= old(self).blend_margin <= SCALE / 2,
            -SCALE <= old(self).tension <= SCALE,
            frame_times_distinct(old(self).clips@),
            forall|i: int|
                0 <= i < old(self).clips@.len() ==> frame_ok(
                    #[trigger] old(self).clips@[i],
                    clip.duration as int,
                ),
        ensures
            final(self).start_time == old(self).start_time,
            final(self).end_time == old(self).end_time,
            final(self).blend_margin == old(self).blend_margin,
            final(self).tension == old(self).tension,
            final(self).clips@.len() == old(self).clips@.len(),
            frames_sorted(final(self).clips@),
            final(self).clips@.to_multiset() == old(self).clips@.to_multiset(),
            r.wf(),
            r.start_time == old(self).start_time,
            r.end_time == old(self).end_time,
            r.blend_margin == old(self).blend_margin,
            r.curves@.len() == r.paths@.len(),
            forall|k: int| 0 <= k < r.paths@.len() ==> (#[trigger] r.paths@[k]).1 == k,
            forall|k1: int, k2: int|
                0 <= k1 < r.paths@.len() && 0 <= k2 < r.paths@.len() && k1 != k2 ==> (
                #[trigger] r.paths@[k1]).0 != (#[trigger] r.paths@[k2]).0,
            forall|p: TrackedEntityPath|
                #[trigger] frames_reference(final(self).clips@, p) <==> exists|k: int|
                    0 <= k < r.paths@.len() && (#[trigger] r.paths@[k]).0 == p,
            forall|k: int|
                0 <= k < r.paths@.len() ==> joint_curves_from(
                    #[trigger] r.curves@[k as int],
                    old(self).tension as int,
                    *clip,
                    final(self).clips@,
                    r.paths@[k].0,
                    clip.duration as int,
                ),
            curve2_built(
                r.g,
                old(self).tension as int,
                g_base_points_spec(final(self).clips@),
                clip.duration as int,
            ),
    {
        let mut taken: Vec<MotionWarpClipFrame> = Vec::new();
        core::mem::swap(&mut self.clips, &mut taken);
        let sorted = sort_frames(taken);
        self.clips = sorted;
        proof {
            assert forall|i: int|
                0 <= i < self.clips@.len() implies frame_ok(
                #[trigger] self.clips@[i],
                clip.duration as int,
            ) by {
                assert(self.clips@.contains(self.clips@[i]));
                let jj = choose|jj: int|
                    0 <= jj < old(self).clips@.len() && old(self).clips@[jj] == self.clips@[i];
                assert(frame_ok(old(self).clips@[jj], clip.duration as int));
            }
        }
        let duration = clip.duration;
        let nf = self.clips.len();
        let g_curve = fit_g_curve(&self.clips, self.tension, duration);

        // One curve pair per referenced joint.
        let mut curves: Vec<MotionWarpCurve> = Vec::new();
        let mut paths: Vec<(TrackedEntityPath, usize)> = Vec::new();
        let mut i: usize = 0;
        while i < nf
            invariant
                i <= nf,
                nf == self.clips@.len(),
                clip.wf(),
                duration == clip.duration,
                frames_sorted(self.clips@),
                -SCALE <= self.tension <= SCALE,
                forall|ii: int|
                    0 <= ii < self.clips@.len() ==> frame_ok(
                        #[trigger] self.clips@[ii],
                        clip.duration as int,
                    ),
                curves@.len() == paths@.len(),
                forall|k: int| 0 <= k < paths@.len() ==> (#[trigger] paths@[k]).1 == k,
                forall|k1: int, k2: int|
                    0 <= k1 < paths@.len() && 0 <= k2 < paths@.len() && k1 != k2 ==> (
                    #[trigger] paths@[k1]).0 != (#[trigger] paths@[k2]).0,
                forall|k: int|
                    0 <= k < paths@.len() ==> frames_reference(
                        self.clips@,
                        (#[trigger] paths@[k]).0,
                    ),
                forall|k: int| 0 <= k < curves@.len() ==> (#[trigger] curves@[k]).wf(),
                forall|k: int|
                    0 <= k < paths@.len() ==> joint_curves_from(
                        #[trigger] curves@[k as int],
                        self.tension as int,
                        *clip,
                        self.clips@,
                        paths@[k].0,
                        clip.duration as int,
                    ),
                forall|p: TrackedEntityPath|
                    #[trigger] referenced_before(self.clips@, i as int, 0, p) ==> exists|k: int|
                        0 <= k < paths@.len() && (#[trigger] paths@[k]).0 == p,
            decreases nf - i,
        {
            let nm = self.clips[i].map.len();
            let mut j: usize = 0;
            while j < nm
                invariant
                    j <= nm,
                    i < nf,
                    nm == self.clips@[i as int].map@.len(),
                    nf == self.clips@.len(),
                    clip.wf(),
                    duration == clip.duration,
                    frames_sorted(self.clips@),
                    -SCALE <= self.tension <= SCALE,
                    forall|ii: int|
                        0 <= ii < self.clips@.len() ==> frame_ok(
                            #[trigger] self.clips@[ii],
                            clip.duration as int,
                        ),
                    curves@.len() == paths@.len(),
                    forall|k: int| 0 <= k < paths@.len() ==> (#[trigger] paths@[k]).1 == k,
                    forall|k1: int, k2: int|
                        0 <= k1 < paths@.len() && 0 <= k2 < paths@.len() && k1 != k2 ==> (
                        #[trigger] paths@[k1]).0 != (#[trigger] paths@[k2]).0,
                    forall|k: int|
                        0 <= k < paths@.len() ==> frames_reference(
                            self.clips@,
                            (#[trigger] paths@[k]).0,
                        ),
                    forall|k: int| 0 <= k < curves@.len() ==> (#[trigger] curves@[k]).wf(),
                    forall|k: int|
                        0 <= k < paths@.len() ==> joint_curves_from(
                            #[trigger] curves@[k as int],
                            self.tension as int,
                            *clip,
                            self.clips@,
                            paths@[k].0,
                            clip.duration as int,
                        ),
                    forall|p: TrackedEntityPath|
                        #[trigger] referenced_before(self.clips@, i as int, j as int, p)
                            ==> exists|k: int|
                            0 <= k < paths@.len() && (#[trigger] paths@[k]).0 == p,
                decreases nm - j,
            {
                let ghost paths0 = paths@;
                let p = self.clips[i].map[j].0;
                if !contains_path(&paths, p) {
                    proof {
                        assert(map_has_path(self.clips@[i as int].map@, p));
                        assert(frames_reference(self.clips@, p));
                    }
                    let curve = fit_joint_curves(&self.clips, clip, p, self.tension, duration);
                    paths.push((p, curves.len()));
                    curves.push(curve);
                    assert(paths@[paths@.len() - 1].0 == p);
                }
                assert(exists|k: int| 0 <= k < paths@.len() && (#[trigger] paths@[k]).0 == p);
                j += 1;
                proof {
                    assert forall|q: TrackedEntityPath|
                        #[trigger] referenced_before(self.clips@, i as int, j as int, q)
                            implies exists|k: int|
                        0 <= k < paths@.len() && (#[trigger] paths@[k]).0 == q by {
                        let (ii, jj) = choose|ii: int, jj: int|
                            0 <= ii < self.clips@.len() && 0 <= jj < self.clips@[ii].map@.len()
                                && (ii < i as int || (ii == i as int && jj < j as int)) && (
                            #[trigger] self.clips@[ii].map@[jj]).0 == q;
                        if ii == i as int && jj == j - 1 {
                            assert(q == p);
                        } else {
                            assert(referenced_before(self.clips@, i as int, j - 1, q));
                            let k0 = choose|k: int|
                                0 <= k < paths0.len() && (#[trigger] paths0[k]).0 == q;
                            assert(paths@[k0].0 == q);
                        }
                    }
                }
            }
            i += 1;
            proof {
                assert forall|q: TrackedEntityPath|
                    #[trigger] referenced_before(self.clips@, i as int, 0, q) implies exists|
                    k: int,
                |
                    0 <= k < paths@.len() && (#[trigger] paths@[k]).0 == q by {
                    assert(referenced_before(self.clips@, i - 1, nm as int, q));
                }
            }
        }
        let out = MotionWarpClip {
            curves,
            paths,
            g: g_curve,
            start_time: self.start_time,
            end_time: self.end_time,
            blend_margin: self.blend_margin,
        };
        proof {
            assert forall|p: TrackedEntityPath|
                #[trigger] frames_reference(self.clips@, p) implies exists|k: int|
                0 <= k < out.paths@.len() && (#[trigger] out.paths@[k]).0 == p by {
                let ii = choose|ii: int|
                    0 <= ii < self.clips@.len() && map_has_path(
                        (#[trigger] self.clips@[ii]).map@,
                        p,
                    );
                let jj = choose|jj: int|
                    0 <= jj < self.clips@[ii].map@.len() && (#[trigger] self.clips@[ii].map@[jj]).0
                        == p;
                assert(self.clips@[ii].map@[jj].0 == p);
                assert(referenced_before(self.clips@, nf as int, 0, p));
                let k0 = choose|k: int| 0 <= k < paths@.len() && (#[trigger] paths@[k]).0 == p;
                assert(out.paths@[k0].0 == p);
            }
            assert(out.wf());
        }
        out
    }
}

/// The feathering law at the boundaries: whenever the blend margin is
/// positive, the blend weight is exactly zero at the clip's start and end
/// times, so the correction fades in and out instead of snapping.
pub proof fn lemma_blend_weight_boundaries(start: int, end: int, margin: int)
    requires
        fx_ok(start),
        fx_ok(end),
        start < end,
        end - start <= LIM,
        0 < margin <= SCALE / 2,
    ensures
        omega_spec(start, end, margin, start) == 0,
        omega_spec(start, end, margin, end) == 0,
{
    let dur = end - start;
    crate::fx::lemma_fxdiv_zero(dur);
    crate::fx::lemma_fxmul_zero(TWO_FX as int);
    crate::fx::lemma_fxdiv_zero(margin);
    crate::fx::lemma_fxmul_zero(0);
    crate::fx::lemma_fxmul_zero(THREE_QUARTERS_FX as int);
    crate::fx::lemma_fxdiv_zero(SCALE as int);
    assert(p_blend_spec(0) == 0);
    assert(omega_spec(start, end, margin, start) == 0);
    crate::fx::lemma_fxdiv_self(dur);
    assert(fxdiv_spec(fxsub_spec(end, start), fxsub_spec(end, start)) == SCALE);
    assert(omega_spec(start, end, margin, end) == 0);
}

/// The feathering law strictly inside the margins: when the normalized
/// time lies strictly between the leading and trailing margins, the blend
/// weight is exactly one.
pub proof fn lemma_blend_weight_interior(start: int, end: int, margin: int, t: int)
    requires
        0 <= margin <= SCALE / 2,
        fxdiv_spec(fxsub_spec(t, start), fxsub_spec(end, start)) > margin,
        fxdiv_spec(fxsub_spec(t, start), fxsub_spec(end, start)) < SCALE - margin,
    ensures
        omega_spec(start, end, margin, t) == SCALE,
{
}

/// `p` is referenced by a keyframe before position `(i, j)` of the scan:
/// in a frame before `i`, or in frame `i`'s map before entry `j`.
pub open spec fn referenced_before(
    frames: Seq<MotionWarpClipFrame>,
    i: int,
    j: int,
    p: TrackedEntityPath,
) -> bool {
    exists|ii: int, jj: int|
        0 <= ii < frames.len() && 0 <= jj < frames[ii].map@.len() && (ii < i || (ii == i && jj < j))
            && (#[trigger] frames[ii].map@[jj]).0 == p
}

/// The mutable authoring state: the keyframe list and the clip-wide
/// parameters. `build` consumes the current keyframes into a new clip.
#[derive(Clone, Debug)]
pub struct MotionWarpClipBuilder {
    pub clips: Vec<MotionWarpClipFrame>,
    pub start_time: i128,
    pub end_time: i128,
    pub blend_margin: i128,
    pub tension: i128,
}

} // verus!
