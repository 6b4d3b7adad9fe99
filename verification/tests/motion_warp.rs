//! Tests of the warp clip builder and runtime.

use motion_warp::fx::SCALE;
use motion_warp::motion_warp::{
    AnimationSamples, MotionWarpClipBuilder, MotionWarpClipFrame, MotionWarpCurveFrame,
    TrackedEntityPath,
};
use motion_warp::quat::{qmul, quat_pow_f, Quat};

const SCALE_F: f64 = 1099511627776.0;

fn fx(v: f64) -> i128 {
    (v * SCALE_F).round() as i128
}

fn to_f(v: i128) -> f64 {
    v as f64 / SCALE_F
}

fn identity() -> Quat {
    Quat { x: 0, y: 0, z: 0, w: SCALE }
}

fn quat_axis_angle(x: f64, y: f64, z: f64, angle: f64) -> Quat {
    let n = (x * x + y * y + z * z).sqrt();
    let s = (angle / 2.0).sin();
    Quat {
        x: fx(x / n * s),
        y: fx(y / n * s),
        z: fx(z / n * s),
        w: fx((angle / 2.0).cos()),
    }
}

fn empty_samples() -> AnimationSamples {
    AnimationSamples { duration: fx(1.0), tracks: vec![] }
}

/// Raising a rotation to the power 1/n and composing the result n times
/// recovers the rotation.
#[test]
fn test_quat_pow_roundtrip() {
    let pi = std::f64::consts::PI;
    let q = quat_axis_angle(1.0, 0.0, 0.0, pi / 3.0);
    let root = quat_pow_f(q, fx(1.0 / 8.0));
    let mut acc = root;
    for _ in 0..7 {
        acc = qmul(acc, root);
    }
    assert!(to_f(acc.x - q.x).abs() < 1e-6);
    assert!(to_f(acc.y - q.y).abs() < 1e-6);
    assert!(to_f(acc.z - q.z).abs() < 1e-6);
    assert!(to_f(acc.w - q.w).abs() < 1e-6);
}

/// The blend weight is exactly zero at both clip boundaries and exactly
/// one strictly inside the margins.
#[test]
fn test_blend_weight_boundaries() {
    let mut builder = MotionWarpClipBuilder {
        clips: vec![],
        start_time: 0,
        end_time: fx(1.0),
        blend_margin: fx(0.25),
        tension: 0,
    };
    let clip = builder.build(&empty_samples());
    assert_eq!(clip.omega(0), 0);
    assert_eq!(clip.omega(fx(1.0)), 0);
    assert_eq!(clip.omega(fx(0.5)), SCALE);
    assert_eq!(clip.omega(fx(0.3)), SCALE);
    assert_eq!(clip.omega(fx(0.7)), SCALE);
    // Halfway into the leading margin the ease curve is at p(1) = 0.75,
    // which the fixed-point arithmetic reproduces exactly.
    assert_eq!(clip.omega(fx(0.125)), fx(0.75));
    assert_eq!(clip.omega(fx(0.875)), fx(0.75));
}

/// A near-degenerate clip with a single keyframe and no warp-time override
/// still builds, and inverting the remap at zero lands near zero.
#[test]
fn test_degenerate_clip() {
    let mut builder = MotionWarpClipBuilder {
        clips: vec![MotionWarpClipFrame { time: 0, warp_time: None, map: vec![] }],
        start_time: 0,
        end_time: fx(0.001),
        blend_margin: 0,
        tension: 0,
    };
    let clip = builder.build(&empty_samples());
    let r = clip.g(0);
    assert!(0 <= r && r <= fx(0.001));
    assert!(to_f(r).abs() <= 0.001);
}

/// Inverting the fitted remap curve recovers the time it was evaluated at,
/// within the inversion tolerance.
#[test]
fn test_g_roundtrip() {
    let frame = |t: f64, w: f64| MotionWarpClipFrame {
        time: fx(t),
        warp_time: Some(fx(w)),
        map: vec![],
    };
    let mut builder = MotionWarpClipBuilder {
        clips: vec![frame(0.2, 0.25), frame(0.5, 0.5), frame(0.8, 0.7)],
        start_time: 0,
        end_time: fx(1.0),
        blend_margin: fx(0.1),
        tension: 0,
    };
    let clip = builder.build(&empty_samples());
    for &t in [0.25f64, 0.4, 0.5, 0.65, 0.75].iter() {
        let gx = clip.g.position(fx(t)).x;
        let r = clip.g(gx);
        assert!((to_f(r) - t).abs() < 1.05e-5);
    }
}

/// A multiplicative-mode keyframe steers the blended rotation to the
/// authored desired rotation at its own time, when the blend weight is one.
#[test]
fn test_blend_multiplicative() {
    let p = TrackedEntityPath(7);
    let original = quat_axis_angle(0.0, 1.0, 0.0, 0.4);
    let desired = quat_axis_angle(0.0, 1.0, 0.0, 0.9);
    let samples = AnimationSamples {
        duration: fx(1.0),
        tracks: vec![(p, vec![(0, identity()), (fx(0.5), original)])],
    };
    let mut builder = MotionWarpClipBuilder {
        clips: vec![MotionWarpClipFrame {
            time: fx(0.5),
            warp_time: None,
            map: vec![(p, MotionWarpCurveFrame { rotation: desired, fix_a: false })],
        }],
        start_time: 0,
        end_time: fx(1.0),
        blend_margin: fx(0.1),
        tension: 0,
    };
    let clip = builder.build(&samples);

    let blended = clip.blend(p, fx(0.5), original);
    assert!(to_f(blended.x - desired.x).abs() < 1e-5);
    assert!(to_f(blended.y - desired.y).abs() < 1e-5);
    assert!(to_f(blended.z - desired.z).abs() < 1e-5);
    assert!(to_f(blended.w - desired.w).abs() < 1e-5);

    // A joint without a recorded curve is returned unchanged.
    let other = TrackedEntityPath(8);
    let unchanged = clip.blend(other, fx(0.5), original);
    assert_eq!(unchanged, original);
}
