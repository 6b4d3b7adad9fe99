//! Tests of the quaternion curve engine, checked against floating-point
//! reference arithmetic.

use motion_warp::fx::SCALE;
use motion_warp::quat::{qconj, qmul, quat_pow_f, Quat};
use motion_warp::quat_splines::CardinalQuatCurve;

const SCALE_F: f64 = 1099511627776.0;
const ERROR_BOUND: f64 = 1e-6;
const SOFT_ERROR_BOUND: f64 = 1e-3;

fn fx(v: f64) -> i128 {
    (v * SCALE_F).round() as i128
}

fn to_f(v: i128) -> f64 {
    v as f64 / SCALE_F
}

fn identity() -> Quat {
    Quat { x: 0, y: 0, z: 0, w: SCALE }
}

fn quat_axis_angle(x: f64, y: f64, z: f64, angle: f64) -> Quat {
    let n = (x * x + y * y + z * z).sqrt();
    let s = (angle / 2.0).sin();
    Quat {
        x: fx(x / n * s),
        y: fx(y / n * s),
        z: fx(z / n * s),
        w: fx((angle / 2.0).cos()),
    }
}

fn to_f4(q: Quat) -> [f64; 4] {
    [to_f(q.x), to_f(q.y), to_f(q.z), to_f(q.w)]
}

fn qmul_f(a: [f64; 4], b: [f64; 4]) -> [f64; 4] {
    [
        a[3] * b[0] + a[0] * b[3] + a[1] * b[2] - a[2] * b[1],
        a[3] * b[1] - a[0] * b[2] + a[1] * b[3] + a[2] * b[0],
        a[3] * b[2] + a[0] * b[1] - a[1] * b[0] + a[2] * b[3],
        a[3] * b[3] - a[0] * b[0] - a[1] * b[1] - a[2] * b[2],
    ]
}

fn qconj_f(a: [f64; 4]) -> [f64; 4] {
    [-a[0], -a[1], -a[2], a[3]]
}

fn axis_of(a: [f64; 4]) -> [f64; 3] {
    let n = (a[0] * a[0] + a[1] * a[1] + a[2] * a[2]).sqrt();
    [a[0] / n, a[1] / n, a[2] / n]
}

/// Checks that control points evaluate properly.
#[test]
fn test_control_points() {
    let pi = std::f64::consts::PI;
    let quats = vec![
        (identity(), 0i128),
        (quat_axis_angle(1.0, 0.0, 0.0, pi / 2.0), fx(1.0)),
        (quat_axis_angle(0.0, 1.0, 0.0, pi / 2.0), fx(2.0)),
        (quat_axis_angle(0.0, 0.0, 1.0, pi / 2.0), fx(pi)),
    ];

    let curve = CardinalQuatCurve::new(0, quats.clone()).to_curve();

    for (q, t) in quats {
        let diff = qmul(curve.position(t), qconj(q));
        assert!(to_f(diff.x).abs() < ERROR_BOUND);
        assert!(to_f(diff.y).abs() < ERROR_BOUND);
        assert!(to_f(diff.z).abs() < ERROR_BOUND);
        assert!((to_f(diff.w) - 1.0).abs() < ERROR_BOUND);
    }
}

// Checks that the rotation interpolating quaternions in a straight line doesn't
// deviate from that line between controls
#[test]
fn test_between_controls() {
    let pi = std::f64::consts::PI;
    let curve = CardinalQuatCurve::new(
        0,
        vec![
            (identity(), 0i128),
            (quat_axis_angle(0.0, 1.0, 0.0, pi * 0.1), fx(1.0)),
            (quat_axis_angle(0.0, 1.0, 0.0, pi * 0.2), fx(2.0)),
            (quat_axis_angle(0.0, 1.0, 0.0, pi * 0.3), fx(4.0)),
            (quat_axis_angle(0.0, 1.0, 0.0, pi * 0.4), fx(4.5)),
            (quat_axis_angle(0.0, 1.0, 0.0, pi * 0.5), fx(5.2)),
            (quat_axis_angle(0.0, 1.0, 0.0, pi * 0.6), fx(20.3)),
        ],
    )
    .to_curve();

    for q in curve.iter_positions(500) {
        assert!(to_f(q.x).abs() < ERROR_BOUND);
        assert!(to_f(q.z).abs() < ERROR_BOUND);
    }
}

// Checks that, when tension is 1.0, the spline moves in a straight line
#[test]
fn test_max_tension() {
    const N: u32 = 500;
    let pi = std::f64::consts::PI;

    let quats = [
        identity(),
        quat_axis_angle(1.0, 0.0, 0.0, pi / 2.0),
        quat_axis_angle(0.0, 1.0, 0.0, pi / 2.0),
        quat_axis_angle(0.0, 0.0, 1.0, pi / 2.0),
    ];

    let controls: Vec<(Quat, i128)> =
        quats.iter().enumerate().map(|(i, q)| (*q, fx(i as f64))).collect();
    let curve = CardinalQuatCurve::new(SCALE, controls).to_curve();

    for (i, window) in quats.windows(2).enumerate() {
        let q1 = to_f4(window[0]);
        let q2 = to_f4(window[1]);
        let axis1 = axis_of(qmul_f(q2, qconj_f(q1)));

        for j in (N / 10)..=(9 * N / 10) {
            let t = fx(i as f64 + j as f64 / N as f64);
            let s = to_f4(curve.position(t));
            let diff = qmul_f(s, qconj_f(q1)); // The difference between q and s
            let axis2 = axis_of(diff);

            let error = axis1[0] * axis2[0] + axis1[1] * axis2[1] + axis1[2] * axis2[2] - 1.0;

            assert!(error.abs() < SOFT_ERROR_BOUND);
        }
    }
}

#[test]
fn test_quat_pow_f() {
    const NUM_ITERATIONS: u32 = 30;
    let pi = std::f64::consts::PI;

    let q = quat_pow_f(
        quat_axis_angle(0.0, 1.0, 0.0, pi / 2.0),
        fx(4.0 / NUM_ITERATIONS as f64),
    );
    let qf = to_f4(q);
    let mut r = [1.0f64, 0.0, 0.0];

    for _ in 0..NUM_ITERATIONS {
        let v = [r[0], r[1], r[2], 0.0];
        let rotated = qmul_f(qmul_f(qf, v), qconj_f(qf));
        r = [rotated[0], rotated[1], rotated[2]];
    }

    let error = r[0] - 1.0;

    assert!(error.abs() < ERROR_BOUND)
}
