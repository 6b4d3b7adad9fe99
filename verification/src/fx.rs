//! Fixed-point scalar arithmetic.
//!
//! A scalar is an `i128` holding `value * SCALE`, with `SCALE = 2^40`. Every
//! operation clips its result into `[-LIM, LIM]`, so the operations are total
//! on well-formed inputs and never overflow; the contracts state the exact
//! integer returned, including the clipping. In this library values stay far
//! from `LIM`, so the clipping never changes a result in practice.

use vstd::prelude::*;

verus! {

/// A fixed-point value `v` stands for the real number `v / SCALE`.
pub const SCALE: i128 = 1099511627776; // 2^40

/// Largest magnitude any scalar is allowed to reach; every operation clips to it.
pub const LIM: i128 = 4611686018427387904; // 2^62

/// A scalar is well-formed when it lies in the representable band.
pub open spec fn fx_ok(a: int) -> bool {
    -LIM <= a <= LIM
}

/// Magnitude of a mathematical integer.
pub open spec fn iabs(a: int) -> int {
    if a < 0 {
        -a
    } else {
        a
    }
}

/// Clip an unbounded intermediate result into the representable band.
pub open spec fn clip(a: int) -> int {
    if a > LIM {
        LIM as int
    } else if a < -LIM {
        -(LIM as int)
    } else {
        a
    }
}

/// Division rounding toward zero, as the executable code computes it
/// (magnitude quotient with the sign reattached).
pub open spec fn tdiv(a: int, b: int) -> int {
    if (a < 0) != (b < 0) {
        -(iabs(a) / iabs(b))
    } else {
        iabs(a) / iabs(b)
    }
}

/// What `fxadd` returns.
pub open spec fn fxadd_spec(a: int, b: int) -> int {
    clip(a + b)
}

/// What `fxsub` returns.
pub open spec fn fxsub_spec(a: int, b: int) -> int {
    clip(a - b)
}

/// What `fxmul` returns: the product rescaled, rounded toward zero.
pub open spec fn fxmul_spec(a: int, b: int) -> int {
    clip(tdiv(a * b, SCALE as int))
}

/// What `fxdiv` returns: the quotient rescaled, rounded toward zero.
/// A zero divisor yields zero, which keeps the operation total.
pub open spec fn fxdiv_spec(a: int, b: int) -> int {
    if b == 0 {
        0
    } else {
        clip(tdiv(a * SCALE, b))
    }
}

fn clip_exec(a: i128) -> (r: i128)
    ensures
        r == clip(a as int),
        fx_ok(r as int),
{
    if a > LIM {
        LIM
    } else if a < -LIM {
        -LIM
    } else {
        a
    }
}

/// Saturating fixed-point addition.
pub fn fxadd(a: i128, b: i128) -> (r: i128)
    requires
        fx_ok(a as int),
        fx_ok(b as int),
    ensures
        r == fxadd_spec(a as int, b as int),
        fx_ok(r as int),
{
    clip_exec(a + b)
}

/// Saturating fixed-point subtraction.
pub fn fxsub(a: i128, b: i128) -> (r: i128)
    requires
        fx_ok(a as int),
        fx_ok(b as int),
    ensures
        r == fxsub_spec(a as int, b as int),
        fx_ok(r as int),
{
    clip_exec(a - b)
}

/// Fixed-point negation.
pub fn fxneg(a: i128) -> (r: i128)
    requires
        fx_ok(a as int),
    ensures
        r == -a,
        fx_ok(r as int),
{
    -a
}

proof fn lemma_abs_mul(a: int, b: int)
    ensures
        iabs(a) * iabs(b) == iabs(a * b),
        (a * b < 0) == ((a < 0) != (b < 0) && a * b != 0),
{
    assert(iabs(a) * iabs(b) == iabs(a * b) && (a * b < 0) == ((a < 0) != (b < 0) && a * b
        != 0)) by (nonlinear_arith);
}

/// Saturating fixed-point multiplication, rounded toward zero.
pub fn fxmul(a: i128, b: i128) -> (r: i128)
    requires
        fx_ok(a as int),
        fx_ok(b as int),
    ensures
        r == fxmul_spec(a as int, b as int),
        fx_ok(r as int),
{
    let an: u128 = if a < 0 {
        (-a) as u128
    } else {
        a as u128
    };
    let bn: u128 = if b < 0 {
        (-b) as u128
    } else {
        b as u128
    };
    assert(an == iabs(a as int) && bn == iabs(b as int));
    assert(an * bn <= (LIM as u128) * (LIM as u128)) by (nonlinear_arith)
        requires
            an <= LIM as u128,
            bn <= LIM as u128,
    ;
    let p: u128 = an * bn;
    let q: u128 = p / (SCALE as u128);
    proof {
        lemma_abs_mul(a as int, b as int);
        assert(q == iabs(a as int * b as int) / (SCALE as int));
        assert(q <= p) by (nonlinear_arith)
            requires
                q == p / (SCALE as u128),
                SCALE >= 1,
        ;
    }
    if (a < 0) != (b < 0) {
        assert(tdiv(a as int * b as int, SCALE as int) == -(q as int));
        clip_exec(-(q as i128))
    } else {
        assert(tdiv(a as int * b as int, SCALE as int) == q as int);
        clip_exec(q as i128)
    }
}

/// Saturating fixed-point division, rounded toward zero; zero divisor yields zero.
pub fn fxdiv(a: i128, b: i128) -> (r: i128)
    requires
        fx_ok(a as int),
        fx_ok(b as int),
    ensures
        r == fxdiv_spec(a as int, b as int),
        fx_ok(r as int),
{
    if b == 0 {
        return 0;
    }
    let an: u128 = if a < 0 {
        (-a) as u128
    } else {
        a as u128
    };
    let bn: u128 = if b < 0 {
        (-b) as u128
    } else {
        b as u128
    };
    assert(an == iabs(a as int) && bn == iabs(b as int));
    assert(an * (SCALE as u128) <= (LIM as u128) * (SCALE as u128)) by (nonlinear_arith)
        requires
            an <= LIM as u128,
    ;
    let p: u128 = an * (SCALE as u128);
    let q: u128 = p / bn;
    proof {
        lemma_abs_mul(a as int, SCALE as int);
        assert(iabs(a as int * SCALE as int) == an * (SCALE as u128));
        assert(q == iabs(a as int * SCALE as int) / iabs(b as int));
        assert(q <= p) by (nonlinear_arith)
            requires
                q == p / bn,
                bn >= 1,
        ;
    }
    if (a < 0) != (b < 0) {
        assert(tdiv(a as int * SCALE as int, b as int) == -(q as int));
        clip_exec(-(q as i128))
    } else {
        assert(tdiv(a as int * SCALE as int, b as int) == q as int);
        clip_exec(q as i128)
    }
}

/// Integer square root, defined by counting up; `lemma_sqrt_rec` gives its
/// characterization.
pub open spec fn sqrt_rec(n: int) -> int
    decreases n,
{
    if n <= 0 {
        0
    } else {
        let r = sqrt_rec(n - 1);
        if (r + 1) * (r + 1) <= n {
            r + 1
        } else {
            r
        }
    }
}

pub proof fn lemma_sqrt_rec(n: int)
    requires
        n >= 0,
    ensures
        sqrt_rec(n) >= 0,
        sqrt_rec(n) * sqrt_rec(n) <= n,
        n < (sqrt_rec(n) + 1) * (sqrt_rec(n) + 1),
    decreases n,
{
    if n == 0 {
        assert(sqrt_rec(0) == 0);
    } else {
        lemma_sqrt_rec(n - 1);
        let r = sqrt_rec(n - 1);
        if (r + 1) * (r + 1) <= n {
            assert((r + 1 + 1) * (r + 1 + 1) > n) by (nonlinear_arith)
                requires
                    r >= 0,
                    n - 1 < (r + 1) * (r + 1),
                    (r + 1) * (r + 1) <= n,
            ;
        }
    }
}

/// Two integers that both satisfy the square-root characterization are equal.
proof fn lemma_sqrt_unique(n: int, r1: int, r2: int)
    requires
        r1 >= 0,
        r2 >= 0,
        r1 * r1 <= n,
        n < (r1 + 1) * (r1 + 1),
        r2 * r2 <= n,
        n < (r2 + 1) * (r2 + 1),
    ensures
        r1 == r2,
{
    assert(r1 == r2) by (nonlinear_arith)
        requires
            r1 >= 0,
            r2 >= 0,
            r1 * r1 <= n,
            n < (r1 + 1) * (r1 + 1),
            r2 * r2 <= n,
            n < (r2 + 1) * (r2 + 1),
    ;
}

/// Binary-search integer square root of `n`, for `n < 2^104`.
fn isqrt_u(n: u128) -> (r: u128)
    requires
        n < 20282409603651670423947251286016u128,
    ensures
        r * r <= n,
        n < (r + 1) * (r + 1),
        r < 4503599627370496u128,
{
    let mut lo: u128 = 0;
    let mut hi: u128 = 4503599627370496;  // 2^52
    assert((4503599627370496u128 as int) * (4503599627370496u128 as int)
        == 20282409603651670423947251286016) by (nonlinear_arith);
    while hi - lo > 1
        invariant
            lo < hi,
            hi <= 4503599627370496u128,
            lo * lo <= n,
            n < hi * hi,
        decreases hi - lo,
    {
        let mid: u128 = lo + (hi - lo) / 2;
        assert(lo < mid < hi);
        assert(mid * mid < 20282409603651670423947251286016u128) by (nonlinear_arith)
            requires
                mid < 4503599627370496u128,
        ;
        if mid * mid <= n {
            lo = mid;
        } else {
            hi = mid;
        }
    }
    lo
}

/// What `fx_sqrt` returns: the square root of the value, in fixed point,
/// rounded down; nonpositive inputs yield zero.
pub open spec fn fx_sqrt_spec(a: int) -> int {
    if a <= 0 {
        0
    } else {
        sqrt_rec(a * SCALE)
    }
}

/// Fixed-point square root, rounded down; nonpositive inputs yield zero.
pub fn fx_sqrt(a: i128) -> (r: i128)
    requires
        fx_ok(a as int),
    ensures
        r == fx_sqrt_spec(a as int),
        0 <= r <= LIM,
{
    if a <= 0 {
        return 0;
    }
    let n: u128 = (a as u128) * (SCALE as u128);
    assert((a as u128) * (SCALE as u128) <= (LIM as u128) * (SCALE as u128))
        by (nonlinear_arith)
        requires
            a as u128 <= LIM as u128,
    ;
    let r = isqrt_u(n);
    proof {
        lemma_sqrt_rec(n as int);
        lemma_sqrt_unique(n as int, r as int, sqrt_rec(n as int));
    }
    r as i128
}

/// Division of zero yields zero.
pub proof fn lemma_tdiv_zero(b: int)
    requires
        b != 0,
    ensures
        tdiv(0, b) == 0,
{
    assert(iabs(0) == 0);
    vstd::arithmetic::div_mod::lemma_div_of0(iabs(b));
}

/// Multiplying by zero yields zero.
pub proof fn lemma_fxmul_zero(a: int)
    ensures
        fxmul_spec(0, a) == 0,
        fxmul_spec(a, 0) == 0,
{
    lemma_tdiv_zero(SCALE as int);
}

/// Dividing zero yields zero.
pub proof fn lemma_fxdiv_zero(b: int)
    ensures
        fxdiv_spec(0, b) == 0,
{
    if b != 0 {
        lemma_tdiv_zero(b);
    }
}

/// Multiplying a well-formed scalar by one is exact.
pub proof fn lemma_fxmul_one(a: int)
    requires
        fx_ok(a),
    ensures
        fxmul_spec(SCALE as int, a) == a,
        fxmul_spec(a, SCALE as int) == a,
{
    if a >= 0 {
        assert(iabs(SCALE as int * a) == SCALE as int * a);
        vstd::arithmetic::div_mod::lemma_div_multiples_vanish(a, SCALE as int);
    } else {
        assert(iabs(SCALE as int * a) == SCALE as int * (-a));
        vstd::arithmetic::div_mod::lemma_div_multiples_vanish(-a, SCALE as int);
    }
    assert(a * SCALE == SCALE as int * a);
}

/// A positive scalar divided by itself is exactly one.
pub proof fn lemma_fxdiv_self(a: int)
    requires
        0 < a <= LIM,
    ensures
        fxdiv_spec(a, a) == SCALE,
{
    assert(iabs(a * SCALE) == a * SCALE as int);
    vstd::arithmetic::div_mod::lemma_div_multiples_vanish(SCALE as int, a);
}

pub const PI_FX: i128 = 3454217652358;

pub const TWO_PI_FX: i128 = 6908435304715;

pub const HALF_PI_FX: i128 = 1727108826179;

pub const QUARTER_PI_FX: i128 = 863554413089;

/// tan(pi/8), the threshold of the arctangent argument reduction.
pub const TAN_EIGHTH_PI_FX: i128 = 455432628212;

/// The angle reduced into `[0, TWO_PI_FX)` by whole turns, rounding the
/// quotient toward zero.
pub open spec fn reduce_spec(x: int) -> int {
    let r0 = x - tdiv(x, TWO_PI_FX as int) * TWO_PI_FX;
    if r0 < 0 {
        r0 + TWO_PI_FX
    } else {
        r0
    }
}

fn reduce_angle(x: i128) -> (r: i128)
    requires
        fx_ok(x as int),
    ensures
        r == reduce_spec(x as int),
        0 <= r < TWO_PI_FX,
{
    let xa: u128 = if x < 0 {
        (-x) as u128
    } else {
        x as u128
    };
    let qn: u128 = xa / (TWO_PI_FX as u128);
    assert(qn <= xa) by (nonlinear_arith)
        requires
            qn == xa / (TWO_PI_FX as u128),
            TWO_PI_FX as u128 >= 1,
    ;
    assert(qn * (TWO_PI_FX as u128) <= xa) by (nonlinear_arith)
        requires
            qn == xa / (TWO_PI_FX as u128),
            TWO_PI_FX as u128 >= 1,
    ;
    let m: u128 = qn * (TWO_PI_FX as u128);
    let rem: u128 = xa - m;
    proof {
        vstd::arithmetic::div_mod::lemma_fundamental_div_mod(xa as int, TWO_PI_FX as int);
        assert(0 <= (xa as int) % (TWO_PI_FX as int) < TWO_PI_FX as int);
        assert(rem == (xa as int) % (TWO_PI_FX as int));
    }
    let r0: i128 = if x < 0 {
        -(rem as i128)
    } else {
        rem as i128
    };
    assert(r0 == x - tdiv(x as int, TWO_PI_FX as int) * TWO_PI_FX);
    if r0 < 0 {
        r0 + TWO_PI_FX
    } else {
        r0
    }
}

/// Maclaurin polynomial for the sine on `[0, HALF_PI_FX]`, written with
/// reciprocal-factorial constants through the 15th power.
pub open spec fn sin_poly_spec(s: int) -> int {
    let u = fxmul_spec(s, s);
    let p = fxsub_spec(
        SCALE as int,
        fxmul_spec(
            u,
            fxsub_spec(
                183251937963,
                fxmul_spec(
                    u,
                    fxsub_spec(
                        9162596898,
                        fxmul_spec(
                            u,
                            fxsub_spec(
                                218157069,
                                fxmul_spec(
                                    u,
                                    fxsub_spec(
                                        3029959,
                                        fxmul_spec(u, fxsub_spec(27545, fxmul_spec(u, 177))),
                                    ),
                                ),
                            ),
                        ),
                    ),
                ),
            ),
        ),
    );
    fxmul_spec(s, p)
}

fn sin_poly(s: i128) -> (r: i128)
    requires
        fx_ok(s as int),
    ensures
        r == sin_poly_spec(s as int),
        fx_ok(r as int),
{
    let u = fxmul(s, s);
    let p = fxsub(
        SCALE,
        fxmul(
            u,
            fxsub(
                183251937963,
                fxmul(
                    u,
                    fxsub(
                        9162596898,
                        fxmul(
                            u,
                            fxsub(
                                218157069,
                                fxmul(u, fxsub(3029959, fxmul(u, fxsub(27545, fxmul(u, 177))))),
                            ),
                        ),
                    ),
                ),
            ),
        ),
    );
    fxmul(s, p)
}

/// Maclaurin polynomial for the cosine on `[0, HALF_PI_FX]`, through the
/// 14th power.
pub open spec fn cos_poly_spec(s: int) -> int {
    let u = fxmul_spec(s, s);
    fxsub_spec(
        SCALE as int,
        fxmul_spec(
            u,
            fxsub_spec(
                549755813888,
                fxmul_spec(
                    u,
                    fxsub_spec(
                        45812984491,
                        fxmul_spec(
                            u,
                            fxsub_spec(
                                1527099483,
                                fxmul_spec(
                                    u,
                                    fxsub_spec(
                                        27269634,
                                        fxmul_spec(u, fxsub_spec(302996, fxmul_spec(u, 13))),
                                    ),
                                ),
                            ),
                        ),
                    ),
                ),
            ),
        ),
    )
}

fn cos_poly(s: i128) -> (r: i128)
    requires
        fx_ok(s as int),
    ensures
        r == cos_poly_spec(s as int),
        fx_ok(r as int),
{
    let u = fxmul(s, s);
    fxsub(
        SCALE,
        fxmul(
            u,
            fxsub(
                549755813888,
                fxmul(
                    u,
                    fxsub(
                        45812984491,
                        fxmul(
                            u,
                            fxsub(
                                1527099483,
                                fxmul(u, fxsub(27269634, fxmul(u, fxsub(302996, fxmul(u, 13))))),
                            ),
                        ),
                    ),
                ),
            ),
        ),
    )
}

/// What `fx_sin` returns: the reduced angle folded by quadrant onto the
/// sine and cosine polynomials.
pub open spec fn fx_sin_spec(x: int) -> int {
    let r = reduce_spec(x);
    if r < HALF_PI_FX {
        sin_poly_spec(r)
    } else if r < 2 * HALF_PI_FX {
        cos_poly_spec(r - HALF_PI_FX)
    } else if r < 3 * HALF_PI_FX {
        -sin_poly_spec(r - 2 * HALF_PI_FX)
    } else {
        -cos_poly_spec(r - 3 * HALF_PI_FX)
    }
}

/// Fixed-point sine.
pub fn fx_sin(x: i128) -> (r: i128)
    requires
        fx_ok(x as int),
    ensures
        r == fx_sin_spec(x as int),
        fx_ok(r as int),
{
    let red = reduce_angle(x);
    if red < HALF_PI_FX {
        sin_poly(red)
    } else if red < 2 * HALF_PI_FX {
        cos_poly(red - HALF_PI_FX)
    } else if red < 3 * HALF_PI_FX {
        fxneg(sin_poly(red - 2 * HALF_PI_FX))
    } else {
        fxneg(cos_poly(red - 3 * HALF_PI_FX))
    }
}

/// What `fx_cos` returns.
pub open spec fn fx_cos_spec(x: int) -> int {
    let r = reduce_spec(x);
    if r < HALF_PI_FX {
        cos_poly_spec(r)
    } else if r < 2 * HALF_PI_FX {
        -sin_poly_spec(r - HALF_PI_FX)
    } else if r < 3 * HALF_PI_FX {
        -cos_poly_spec(r - 2 * HALF_PI_FX)
    } else {
        sin_poly_spec(r - 3 * HALF_PI_FX)
    }
}

/// Fixed-point cosine.
pub fn fx_cos(x: i128) -> (r: i128)
    requires
        fx_ok(x as int),
    ensures
        r == fx_cos_spec(x as int),
        fx_ok(r as int),
{
    let red = reduce_angle(x);
    if red < HALF_PI_FX {
        cos_poly(red)
    } else if red < 2 * HALF_PI_FX {
        fxneg(sin_poly(red - HALF_PI_FX))
    } else if red < 3 * HALF_PI_FX {
        fxneg(cos_poly(red - 2 * HALF_PI_FX))
    } else {
        sin_poly(red - 3 * HALF_PI_FX)
    }
}

/// Maclaurin polynomial for the arctangent, accurate on arguments of
/// magnitude at most tan(pi/8) plus rounding.
pub open spec fn atan_poly_spec(t: int) -> int {
    let u = fxmul_spec(t, t);
    let p = fxsub_spec(
        SCALE as int,
        fxmul_spec(
            u,
            fxsub_spec(
                366503875925,
                fxmul_spec(
                    u,
                    fxsub_spec(
                        219902325555,
                        fxmul_spec(
                            u,
                            fxsub_spec(
                                157073089682,
                                fxmul_spec(
                                    u,
                                    fxsub_spec(
                                        122167958642,
                                        fxmul_spec(
                                            u,
                                            fxsub_spec(
                                                99955602525,
                                                fxmul_spec(
                                                    u,
                                                    fxsub_spec(
                                                        84577817521,
                                                        fxmul_spec(
                                                            u,
                                                            fxsub_spec(
                                                                73300775185,
                                                                fxmul_spec(
                                                                    u,
                                                                    fxsub_spec(
                                                                        64677154575,
                                                                        fxmul_spec(
                                                                            u,
                                                                            fxsub_spec(
                                                                                57869033041,
                                                                                fxmul_spec(
                                                                                    u,
                                                                                    52357696561,
                                                                                ),
                                                                            ),
                                                                        ),
                                                                    ),
                                                                ),
                                                            ),
                                                        ),
                                                    ),
                                                ),
                                            ),
                                        ),
                                    ),
                                ),
                            ),
                        ),
                    ),
                ),
            ),
        ),
    );
    fxmul_spec(t, p)
}

fn atan_poly(t: i128) -> (r: i128)
    requires
        fx_ok(t as int),
    ensures
        r == atan_poly_spec(t as int),
        fx_ok(r as int),
{
    let u = fxmul(t, t);
    let p = fxsub(
        SCALE,
        fxmul(
            u,
            fxsub(
                366503875925,
                fxmul(
                    u,
                    fxsub(
                        219902325555,
                        fxmul(
                            u,
                            fxsub(
                                157073089682,
                                fxmul(
                                    u,
                                    fxsub(
                                        122167958642,
                                        fxmul(
                                            u,
                                            fxsub(
                                                99955602525,
                                                fxmul(
                                                    u,
                                                    fxsub(
                                                        84577817521,
                                                        fxmul(
                                                            u,
                                                            fxsub(
                                                                73300775185,
                                                                fxmul(
                                                                    u,
                                                                    fxsub(
                                                                        64677154575,
                                                                        fxmul(
                                                                            u,
                                                                            fxsub(
                                                                                57869033041,
                                                                                fxmul(
                                                                                    u,
                                                                                    52357696561,
                                                                                ),
                                                                            ),
                                                                        ),
                                                                    ),
                                                                ),
                                                            ),
                                                        ),
                                                    ),
                                                ),
                                            ),
                                        ),
                                    ),
                                ),
                            ),
                        ),
                    ),
                ),
            ),
        ),
    );
    fxmul(t, p)
}

/// Arctangent of a ratio in `[0, 1]`, reduced through the half-angle
/// identity when the ratio exceeds tan(pi/8).
pub open spec fn atan_pos_spec(t: int) -> int {
    if t > TAN_EIGHTH_PI_FX {
        fxadd_spec(
            QUARTER_PI_FX as int,
            atan_poly_spec(
                fxdiv_spec(fxsub_spec(t, SCALE as int), fxadd_spec(t, SCALE as int)),
            ),
        )
    } else {
        atan_poly_spec(t)
    }
}

/// The rescaled quotient of `0 < y <= x` lies in `[0, SCALE]`.
proof fn lemma_ratio_in_unit(y: int, x: int)
    requires
        0 < y <= x,
        x <= LIM,
    ensures
        0 <= fxdiv_spec(y, x) <= SCALE,
{
    assert(0 <= y * SCALE <= x * SCALE) by (nonlinear_arith)
        requires
            0 < y <= x,
            SCALE > 0,
    ;
    vstd::arithmetic::div_mod::lemma_div_is_ordered(y * SCALE, x * SCALE, x);
    vstd::arithmetic::div_mod::lemma_div_multiples_vanish(SCALE as int, x);
    vstd::arithmetic::div_mod::lemma_div_pos_is_pos(y * SCALE, x);
}

fn atan_pos(t: i128) -> (r: i128)
    requires
        0 <= t <= SCALE,
    ensures
        r == atan_pos_spec(t as int),
        fx_ok(r as int),
{
    if t > TAN_EIGHTH_PI_FX {
        fxadd(QUARTER_PI_FX, atan_poly(fxdiv(fxsub(t, SCALE), fxadd(t, SCALE))))
    } else {
        atan_poly(t)
    }
}

/// What `fx_atan2` returns: the angle of the point `(x, y)` with `y >= 0`,
/// in `[0, PI_FX]`.
pub open spec fn fx_atan2_spec(y: int, x: int) -> int {
    if y == 0 {
        if x < 0 {
            PI_FX as int
        } else {
            0
        }
    } else if x == 0 {
        HALF_PI_FX as int
    } else if x > 0 {
        if y <= x {
            atan_pos_spec(fxdiv_spec(y, x))
        } else {
            fxsub_spec(HALF_PI_FX as int, atan_pos_spec(fxdiv_spec(x, y)))
        }
    } else {
        if y <= -x {
            fxsub_spec(PI_FX as int, atan_pos_spec(fxdiv_spec(y, -x)))
        } else {
            fxadd_spec(HALF_PI_FX as int, atan_pos_spec(fxdiv_spec(-x, y)))
        }
    }
}

/// Fixed-point two-argument arctangent for the upper half plane.
pub fn fx_atan2(y: i128, x: i128) -> (r: i128)
    requires
        fx_ok(y as int),
        fx_ok(x as int),
        y >= 0,
    ensures
        r == fx_atan2_spec(y as int, x as int),
        fx_ok(r as int),
{
    if y == 0 {
        if x < 0 {
            PI_FX
        } else {
            0
        }
    } else if x == 0 {
        HALF_PI_FX
    } else if x > 0 {
        if y <= x {
            proof {
                lemma_ratio_in_unit(y as int, x as int);
            }
            atan_pos(fxdiv(y, x))
        } else {
            proof {
                lemma_ratio_in_unit(x as int, y as int);
            }
            fxsub(HALF_PI_FX, atan_pos(fxdiv(x, y)))
        }
    } else {
        let xm = -x;
        if y <= xm {
            proof {
                lemma_ratio_in_unit(y as int, xm as int);
            }
            fxsub(PI_FX, atan_pos(fxdiv(y, xm)))
        } else {
            proof {
                lemma_ratio_in_unit(xm as int, y as int);
            }
            fxadd(HALF_PI_FX, atan_pos(fxdiv(xm, y)))
        }
    }
}

} // verus!
