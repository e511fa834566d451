//! The curve function shared by the Attack, Decay and Release phases.
//!
//! `curve_function(x, h, w, k)` follows a monotone arc from `(0, 0)` to
//! `(w, h)`, linear for `k == 0` and exponential otherwise, evaluated in
//! fixed-point arithmetic: levels are in millionths (`SCALE`), and the
//! fractional power `b^(2x/w)` is computed by iterated integer square roots.

use vstd::prelude::*;
use vstd::arithmetic::div_mod::{
    lemma_div_multiples_vanish_fancy,
    lemma_div_is_ordered, lemma_div_multiples_vanish, lemma_div_pos_is_pos,
    lemma_fundamental_div_mod, lemma_mod_multiples_basic, lemma_multiply_divide_le,
    lemma_multiply_divide_lt,
};
use vstd::arithmetic::mul::lemma_mul_inequality;
use crate::SCALE;

verus! {

/// The integer square root: the largest `r` with `r * r <= n`.
pub open spec fn sqrt_floor(n: nat) -> nat
    decreases n,
{
    if n == 0 {
        0
    } else {
        let s = sqrt_floor((n - 1) as nat);
        if (s + 1) * (s + 1) <= n {
            s + 1
        } else {
            s
        }
    }
}

/// `sqrt_floor(n)` is indeed the integer square root of `n`.
pub proof fn lemma_sqrt_floor(n: nat)
    ensures
        sqrt_floor(n) * sqrt_floor(n) <= n,
        n < (sqrt_floor(n) + 1) * (sqrt_floor(n) + 1),
    decreases n,
{
    if n > 0 {
        lemma_sqrt_floor((n - 1) as nat);
        let s = sqrt_floor((n - 1) as nat);
        let r = sqrt_floor(n);
        if (s + 1) * (s + 1) <= n {
            assert(r == s + 1);
            assert(r * r <= n) by (nonlinear_arith)
                requires
                    r == s + 1,
                    (s + 1) * (s + 1) <= n,
            ;
            assert(n < (r + 1) * (r + 1)) by (nonlinear_arith)
                requires
                    r == s + 1,
                    n - 1 < (s + 1) * (s + 1),
            ;
        } else {
            assert(r == s);
            assert(r * r <= n) by (nonlinear_arith)
                requires
                    r == s,
                    s * s <= n - 1,
            ;
            assert(n < (r + 1) * (r + 1));
        }
    } else {
        let r = sqrt_floor(n);
        assert(n == 0 && r == 0);
        assert(n < (r + 1) * (r + 1)) by (nonlinear_arith)
            requires
                n == 0,
                r == 0nat,
        ;
    }
}

/// The integer square root is unique.
pub proof fn lemma_sqrt_unique(n: nat, r: nat)
    requires
        r * r <= n,
        n < (r + 1) * (r + 1),
    ensures
        r == sqrt_floor(n),
{
    lemma_sqrt_floor(n);
    let s = sqrt_floor(n);
    assert(r == s) by (nonlinear_arith)
        requires
            r * r <= n,
            n < (r + 1) * (r + 1),
            s * s <= n,
            n < (s + 1) * (s + 1),
    ;
}

/// Computes the integer square root by bisection.
fn isqrt(n: u64) -> (r: u64)
    requires
        n < 0x1_0000_0000_0000,
    ensures
        r as nat == sqrt_floor(n as nat),
        r * r <= n,
        n < (r + 1) * (r + 1),
{
    let mut lo: u64 = 0;
    let mut hi: u64 = 0x100_0000;
    assert(n < hi * hi) by (nonlinear_arith)
        requires
            n < 0x1_0000_0000_0000,
            hi == 0x100_0000,
    ;
    while lo + 1 < hi
        invariant
            lo < hi,
            hi <= 0x100_0000,
            lo * lo <= n,
            n < hi * hi,
        decreases hi - lo,
    {
        let mid = lo + (hi - lo) / 2;
        assert(mid * mid < 0x1_0000_0000_0000_0000) by (nonlinear_arith)
            requires
                mid < 0x100_0000,
        ;
        if mid * mid <= n {
            lo = mid;
        } else {
            hi = mid;
        }
    }
    proof {
        lemma_sqrt_unique(n as nat, lo as nat);
    }
    lo
}

/// Iterations of the fractional-power loop: enough for the exponent's binary
/// expansion to fall below the fixed-point resolution.
pub const CURVE_ITERS: u64 = 30;

/// Widest curve segment, in millionths of a second times samples per second.
pub const MAX_W: u64 = 2_000_000_000_000_000_000;

/// Largest exponential base `1/r - 1` in millionths, reached at `r = 0.005`.
pub const MAX_BASE: u64 = 199_000_000;

/// Safety ceiling on the accumulated fractional power (above every
/// reachable value of `b^2` in millionths).
pub const ACC_CAP: u64 = 50_000_000_000;

/// One step of the fractional-power iteration on the state
/// `(accumulator, current root of the base, remaining exponent numerator)`:
/// take the square root of the running base and, where the doubled exponent
/// numerator reaches the denominator, multiply the accumulator in.
pub open spec fn pow_step(st: (int, int, int), den: int) -> (int, int, int) {
    let base2 = sqrt_floor((st.1 * SCALE) as nat) as int;
    let num2 = st.2 * 2;
    if num2 >= den {
        let a = st.0 * base2 / (SCALE as int);
        let acc2 = if a > ACC_CAP { ACC_CAP as int } else { a };
        (acc2, base2, num2 - den)
    } else {
        (st.0, base2, num2)
    }
}

/// The state of the fractional-power iteration after `i` steps, starting
/// from accumulator one (`SCALE`), base `b` and exponent `num0 / den`.
pub open spec fn pow_state(b: int, num0: int, den: int, i: nat) -> (int, int, int)
    decreases i,
{
    if i == 0 {
        (SCALE as int, b, num0)
    } else {
        pow_step(pow_state(b, num0, den, (i - 1) as nat), den)
    }
}

/// `b ^ (num0 / den)` in millionths, for `0 <= num0 < den`, computed to
/// `CURVE_ITERS` binary digits of the exponent.
pub open spec fn pow_frac(b: int, num0: int, den: int) -> int {
    pow_state(b, num0, den, CURVE_ITERS as nat).0
}

/// A zero exponent leaves the accumulator at one: `b ^ 0 == 1`.
pub proof fn lemma_pow_state_zero(b: int, den: int, i: nat)
    requires
        den >= 1,
    ensures
        pow_state(b, 0, den, i).0 == SCALE as int,
        pow_state(b, 0, den, i).2 == 0,
    decreases i,
{
    if i > 0 {
        lemma_pow_state_zero(b, den, (i - 1) as nat);
    }
}

/// Computes `b ^ (num0 / den)` in millionths by square-and-multiply over the
/// binary digits of the exponent, using integer square roots.
fn pow_frac_exec(b: u64, num0: u64, den: u64) -> (g: u64)
    requires
        1 <= den <= MAX_W,
        num0 < den,
        1 <= b <= MAX_BASE,
    ensures
        g as int == pow_frac(b as int, num0 as int, den as int),
        g <= ACC_CAP,
{
    let mut acc: u64 = SCALE;
    let mut base: u64 = b;
    let mut num: u64 = num0;
    let mut i: u64 = 0;
    while i < CURVE_ITERS
        invariant
            i <= CURVE_ITERS,
            1 <= den <= MAX_W,
            1 <= b <= MAX_BASE,
            acc as int == pow_state(b as int, num0 as int, den as int, i as nat).0,
            base as int == pow_state(b as int, num0 as int, den as int, i as nat).1,
            num as int == pow_state(b as int, num0 as int, den as int, i as nat).2,
            acc <= ACC_CAP,
            base <= MAX_BASE,
            num < den,
        decreases CURVE_ITERS - i,
    {
        assert(base * SCALE < 0x1_0000_0000_0000) by (nonlinear_arith)
            requires
                base <= MAX_BASE,
        ;
        let base2 = isqrt(base * SCALE);
        assert(base2 <= MAX_BASE) by (nonlinear_arith)
            requires
                base2 * base2 <= base * SCALE,
                base <= MAX_BASE,
        ;
        let num2 = num * 2;
        if num2 >= den {
            num = num2 - den;
            assert(acc * base2 <= ACC_CAP * MAX_BASE) by (nonlinear_arith)
                requires
                    acc <= ACC_CAP,
                    base2 <= MAX_BASE,
            ;
            let mut a2 = (acc * base2) / SCALE;
            if a2 > ACC_CAP {
                a2 = ACC_CAP;
            }
            acc = a2;
        } else {
            num = num2;
        }
        base = base2;
        i = i + 1;
        proof {
            let st = pow_state(b as int, num0 as int, den as int, (i - 1) as nat);
            assert(pow_state(b as int, num0 as int, den as int, i as nat) == pow_step(st, den as int));
        }
    }
    acc
}

/// The curve ratio `r = 0.5 - k * 0.495` in millionths, mapping a curvature
/// factor `k` in `[-1, 1]` into `(0, 1)` with a margin at both ends.
pub open spec fn ratio_fp(k: int) -> int {
    if k >= 0 {
        500_000 - k * 495_000 / (SCALE as int)
    } else {
        500_000 + (-k) * 495_000 / (SCALE as int)
    }
}

/// The exponential base `b = 1/r - 1` in millionths.
pub open spec fn base_fp(k: int) -> int {
    let r = ratio_fp(k);
    (SCALE - r) * SCALE / r
}

/// The curve value at `x` of the arc from `(0, 0)` to `(w, h)`: linear where
/// the ratio degenerates to one half, otherwise the exponential
/// `h * (b^(2x/w) - 1) / (b^2 - 1)`, evaluated in millionths with the
/// fractional power clamped between its exact endpoint values.
pub open spec fn curve_spec(x: int, h: int, w: int, k: int) -> int {
    let r = ratio_fp(k);
    if r == 500_000 {
        h * x / w
    } else {
        let b = base_fp(k);
        let b2 = b * b / (SCALE as int);
        let e = 2 * x / w;
        let rem = 2 * x % w;
        let ipow = if e == 0 { SCALE as int } else if e == 1 { b } else { b2 };
        let g = pow_frac(b, rem, w);
        let p0 = ipow * g / (SCALE as int);
        let lo = if b < SCALE { b2 } else { SCALE as int };
        let hi = if b < SCALE { SCALE as int } else { b2 };
        let p = if p0 < lo { lo } else if p0 > hi { hi } else { p0 };
        if b >= SCALE {
            h * (p - SCALE) / (b2 - SCALE)
        } else {
            h * (SCALE - p) / (SCALE - b2)
        }
    }
}

/// The ratio stays well inside `(0, 1)`: between `0.005` and `0.995`.
pub proof fn lemma_ratio_bounds(k: int)
    requires
        -(SCALE as int) <= k <= SCALE as int,
    ensures
        5_000 <= ratio_fp(k) <= 995_000,
{
    if k >= 0 {
        lemma_div_is_ordered(k * 495_000, 495_000_000_000, SCALE as int);
        lemma_div_pos_is_pos(k * 495_000, SCALE as int);
        assert(k * 495_000 <= 495_000_000_000);
    } else {
        lemma_div_is_ordered((-k) * 495_000, 495_000_000_000, SCALE as int);
        lemma_div_pos_is_pos((-k) * 495_000, SCALE as int);
        assert((-k) * 495_000 <= 495_000_000_000);
    }
}

/// Bounds on the exponential base and its square for every curvature factor
/// whose ratio is not exactly one half.
pub proof fn lemma_base_bounds(k: int)
    requires
        -(SCALE as int) <= k <= SCALE as int,
        ratio_fp(k) != 500_000,
    ensures
        1 <= base_fp(k) <= MAX_BASE,
        base_fp(k) * base_fp(k) / (SCALE as int) <= ACC_CAP as int,
        ratio_fp(k) < 500_000 ==> base_fp(k) >= SCALE + 1,
        ratio_fp(k) < 500_000 ==> base_fp(k) * base_fp(k) / (SCALE as int) >= SCALE + 2,
        ratio_fp(k) > 500_000 ==> base_fp(k) < SCALE,
        ratio_fp(k) > 500_000 ==> base_fp(k) * base_fp(k) / (SCALE as int) <= base_fp(k),
{
    lemma_ratio_bounds(k);
    let r = ratio_fp(k);
    let s = SCALE as int;
    let xn = (s - r) * s;
    let b = base_fp(k);
    let b2 = b * b / s;

    // 1 <= b <= MAX_BASE
    assert(xn >= 5_000 * s) by (nonlinear_arith)
        requires
            r <= 995_000,
            s == 1_000_000,
            xn == (s - r) * s,
    ;
    lemma_div_is_ordered(r, xn, r);
    lemma_div_multiples_vanish(1, r);
    assert(b >= 1);
    assert(xn <= MAX_BASE * r) by (nonlinear_arith)
        requires
            5_000 <= r <= 995_000,
            s == 1_000_000,
            xn == (s - r) * s,
    ;
    lemma_multiply_divide_le(xn, r, MAX_BASE as int);
    assert(r * (MAX_BASE as int) == (MAX_BASE as int) * r) by (nonlinear_arith);
    assert(b <= MAX_BASE);

    // b * b / s <= ACC_CAP
    lemma_mul_inequality(b, MAX_BASE as int, b);
    lemma_mul_inequality(b, MAX_BASE as int, MAX_BASE as int);
    assert(b * b <= (MAX_BASE as int) * (MAX_BASE as int)) by (nonlinear_arith)
        requires
            1 <= b <= MAX_BASE,
    ;
    lemma_div_is_ordered(b * b, (MAX_BASE as int) * (MAX_BASE as int), s);
    assert(b2 <= ACC_CAP);

    if r < 500_000 {
        // b >= s + 1, so the square in millionths clears s + 2.
        assert(xn >= (s + 1) * r) by (nonlinear_arith)
            requires
                5_000 <= r <= 499_999,
                s == 1_000_000,
                xn == (s - r) * s,
        ;
        lemma_div_is_ordered((s + 1) * r, xn, r);
        lemma_div_multiples_vanish(s + 1, r);
        assert(r * (s + 1) == (s + 1) * r) by (nonlinear_arith);
        assert(b >= s + 1);
        assert(b * b >= (s + 2) * s) by (nonlinear_arith)
            requires
                b >= s + 1,
                s == 1_000_000,
        ;
        lemma_div_is_ordered((s + 2) * s, b * b, s);
        lemma_div_multiples_vanish(s + 2, s);
        assert(s * (s + 2) == (s + 2) * s) by (nonlinear_arith);
        assert(b2 >= s + 2);
    }
    if r > 500_000 {
        assert(xn < r * s) by (nonlinear_arith)
            requires
                500_001 <= r <= 995_000,
                s == 1_000_000,
                xn == (s - r) * s,
        ;
        lemma_multiply_divide_lt(xn, r, s);
        assert(b < s);
        assert(b * b <= b * s) by (nonlinear_arith)
            requires
                1 <= b,
                b < s,
        ;
        lemma_div_is_ordered(b * b, b * s, s);
        lemma_div_multiples_vanish(b, s);
        assert(b * s == s * b) by (nonlinear_arith);
        assert(b2 <= b);
    }
}

/// The scaled ratio `h * a / d` lies between `0` and `h`, hitting the ends
/// exactly at `a == 0` and `a == d`.
proof fn lemma_scaled_ratio(h: int, a: int, d: int)
    requires
        0 <= h,
        0 <= a <= d,
        1 <= d,
    ensures
        0 <= h * a / d <= h,
        a == 0 ==> h * a / d == 0,
        a == d ==> h * a / d == h,
{
    assert(h * a >= 0) by (nonlinear_arith)
        requires
            h >= 0,
            a >= 0,
    ;
    lemma_div_pos_is_pos(h * a, d);
    assert(h * a <= d * h) by (nonlinear_arith)
        requires
            0 <= h,
            0 <= a <= d,
    ;
    lemma_div_is_ordered(h * a, d * h, d);
    lemma_div_multiples_vanish(h, d);
    if a == 0 {
        assert(h * a == 0) by (nonlinear_arith)
            requires
                a == 0,
        ;
    }
    if a == d {
        assert(h * a == d * h) by (nonlinear_arith)
            requires
                a == d,
        ;
    }
}

/// The curve runs from `(0, 0)` to `(w, h)` and never leaves `[0, h]`:
/// `curve(0, h, w, k) == 0` and `curve(w, h, w, k) == h` exactly, for every
/// curvature factor, including the extremes `k == -1` and `k == 1` and the
/// linear case `k == 0`.
pub proof fn lemma_curve_bounds(x: int, h: int, w: int, k: int)
    requires
        0 <= x <= w,
        1 <= w,
        0 <= h,
        -(SCALE as int) <= k <= SCALE as int,
    ensures
        0 <= curve_spec(x, h, w, k) <= h,
        x == 0 ==> curve_spec(x, h, w, k) == 0,
        x == w ==> curve_spec(x, h, w, k) == h,
{
    lemma_ratio_bounds(k);
    let s = SCALE as int;
    let r = ratio_fp(k);
    if r == 500_000 {
        lemma_scaled_ratio(h, x, w);
    } else {
        lemma_base_bounds(k);
        let b = base_fp(k);
        let b2 = b * b / s;
        let e = 2 * x / w;
        let rem = 2 * x % w;
        let ipow = if e == 0 { s } else if e == 1 { b } else { b2 };
        let g = pow_frac(b, rem, w);
        let p0 = ipow * g / s;
        let lo = if b < s { b2 } else { s };
        let hi = if b < s { s } else { b2 };
        let p = if p0 < lo { lo } else if p0 > hi { hi } else { p0 };

        lemma_fundamental_div_mod(2 * x, w);
        lemma_div_pos_is_pos(2 * x, w);
        lemma_multiply_divide_le(2 * x, w, 2);
        assert(w * 2 == 2 * w) by (nonlinear_arith);
        assert(0 <= e <= 2);
        assert(0 <= rem < w);

        if x == 0 {
            assert(e == 0 && rem == 0) by (nonlinear_arith)
                requires
                    2 * x == w * e + rem,
                    x == 0,
                    0 <= e,
                    0 <= rem,
                    w >= 1,
            ;
        }
        if x == w {
            lemma_div_multiples_vanish(2, w);
            lemma_mod_multiples_basic(2, w);
            assert(2 * x == w * 2) by (nonlinear_arith)
                requires
                    x == w,
            ;
            assert(e == 2 && rem == 0);
        }
        if e == 2 {
            assert(rem == 0) by (nonlinear_arith)
                requires
                    2 * x == w * e + rem,
                    e == 2,
                    x <= w,
                    0 <= rem,
            ;
        }
        if rem == 0 {
            lemma_pow_state_zero(b, w, CURVE_ITERS as nat);
            assert(g == s);
        }

        // Endpoint values of the clamped power.
        if x == 0 {
            lemma_div_multiples_vanish(s, s);
            assert(s * s == s * s);
            assert(p0 == s);
            assert(p == s);
        }
        if x == w {
            lemma_div_multiples_vanish(b2, s);
            assert(ipow * g == s * b2) by (nonlinear_arith)
                requires
                    ipow == b2,
                    g == s,
            ;
            assert(p0 == b2);
            assert(p == b2);
        }

        if b >= s {
            assert(b2 >= s + 2);
            assert(lo == s && hi == b2);
            assert(s <= p <= b2);
            lemma_scaled_ratio(h, p - s, b2 - s);
            if x == 0 {
                assert(curve_spec(x, h, w, k) == 0);
            }
            if x == w {
                assert(curve_spec(x, h, w, k) == h);
            }
        } else {
            assert(b2 <= b && b < s);
            assert(lo == b2 && hi == s);
            assert(b2 <= p <= s);
            lemma_scaled_ratio(h, s - p, s - b2);
            if x == 0 {
                assert(curve_spec(x, h, w, k) == 0);
            }
            if x == w {
                assert(curve_spec(x, h, w, k) == h);
            }
        }
    }
}

/// Monotonicity of the linear curve: wherever the ratio degenerates to one
/// half — in particular for curvature zero — the curve never decreases
/// along `x`.
pub proof fn lemma_curve_linear_monotone(x1: int, x2: int, h: int, w: int, k: int)
    requires
        0 <= x1 <= x2 <= w,
        1 <= w,
        0 <= h,
        ratio_fp(k) == 500_000,
    ensures
        curve_spec(x1, h, w, k) <= curve_spec(x2, h, w, k),
{
    lemma_mul_inequality(x1, x2, h);
    assert(x1 * h == h * x1 && x2 * h == h * x2) by (nonlinear_arith);
    lemma_div_is_ordered(h * x1, h * x2, w);
}

/// Continuity of the linear curve: one step of `s` along `x` moves the
/// value by the slope `h * s / w`, up to one rounding unit.  With `s` the
/// width of one sample, consecutive samples of a linear segment never jump
/// by more than one sample-step's worth of slope plus rounding.
pub proof fn lemma_curve_linear_step(x: int, s: int, h: int, w: int, k: int)
    requires
        0 <= x,
        0 <= s,
        x + s <= w,
        1 <= w,
        0 <= h,
        ratio_fp(k) == 500_000,
    ensures
        curve_spec(x + s, h, w, k) - curve_spec(x, h, w, k) >= h * s / w,
        curve_spec(x + s, h, w, k) - curve_spec(x, h, w, k) <= h * s / w + 1,
{
    let a = h * x;
    let b = h * s;
    assert(h * (x + s) == a + b) by (nonlinear_arith)
        requires
            a == h * x,
            b == h * s,
    ;
    lemma_fundamental_div_mod(a, w);
    lemma_fundamental_div_mod(b, w);
    let qa = a / w;
    let qb = b / w;
    let ra = a % w;
    let rb = b % w;
    assert(a >= 0 && b >= 0) by (nonlinear_arith)
        requires
            h >= 0,
            x >= 0,
            s >= 0,
            a == h * x,
            b == h * s,
    ;
    assert(0 <= ra < w && 0 <= rb < w);
    lemma_div_pos_is_pos(a, w);
    lemma_div_pos_is_pos(b, w);
    if ra + rb < w {
        assert(a + b == w * (qa + qb) + (ra + rb)) by (nonlinear_arith)
            requires
                a == w * qa + ra,
                b == w * qb + rb,
        ;
        lemma_div_multiples_vanish_fancy(qa + qb, ra + rb, w);
        assert((a + b) / w == qa + qb);
    } else {
        assert(a + b == w * (qa + qb + 1) + (ra + rb - w)) by (nonlinear_arith)
            requires
                a == w * qa + ra,
                b == w * qb + rb,
        ;
        lemma_div_multiples_vanish_fancy(qa + qb + 1, ra + rb - w, w);
        assert((a + b) / w == qa + qb + 1);
    }
}

/// Evaluates the curve from `(0, 0)` to `(w, h)` at `x`, with shape factor
/// `curve_factor` in millionths between minus one and one.
pub fn curve_function(x: u64, h: u64, w: u64, curve_factor: i64) -> (v: u64)
    requires
        x <= w,
        1 <= w <= MAX_W,
        h <= SCALE,
        -crate::CURVE_SCALE <= curve_factor <= crate::CURVE_SCALE,
    ensures
        v as int == curve_spec(x as int, h as int, w as int, curve_factor as int),
        v <= h,
        x == 0 ==> v == 0,
        x == w ==> v == h,
{
    proof {
        lemma_curve_bounds(x as int, h as int, w as int, curve_factor as int);
    }
    let k = curve_factor;
    let r: u64 = if k >= 0 {
        (500_000 - k * 495_000 / 1_000_000) as u64
    } else {
        (500_000 + (-k) * 495_000 / 1_000_000) as u64
    };
    proof {
        lemma_ratio_bounds(k as int);
        assert(r as int == ratio_fp(k as int));
    }
    if r == 500_000 {
        assert((h as int) * (x as int) <= (SCALE as int) * (MAX_W as int)) by (nonlinear_arith)
            requires
                h <= SCALE,
                x <= MAX_W,
        ;
        let num = (h as u128) * (x as u128);
        let v = (num / (w as u128)) as u64;
        proof {
            lemma_scaled_ratio(h as int, x as int, w as int);
        }
        v
    } else {
        proof {
            lemma_base_bounds(k as int);
        }
        let b = (SCALE - r) * SCALE / r;
        assert(b * b <= MAX_BASE * MAX_BASE) by (nonlinear_arith)
            requires
                1 <= b <= MAX_BASE,
        ;
        let b2 = b * b / SCALE;
        let num2 = 2 * x;
        let e = num2 / w;
        let rem = num2 % w;
        let ipow: u64 = if e == 0 { SCALE } else if e == 1 { b } else { b2 };
        let g = pow_frac_exec(b, rem, w);
        assert((ipow as int) * (g as int) <= (ACC_CAP as int) * (ACC_CAP as int)) by (nonlinear_arith)
            requires
                ipow <= ACC_CAP,
                g <= ACC_CAP,
        ;
        let p0 = (ipow as u128) * (g as u128) / (SCALE as u128);
        let lo: u64 = if b < SCALE { b2 } else { SCALE };
        let hi: u64 = if b < SCALE { SCALE } else { b2 };
        let p: u64 = if p0 < lo as u128 {
            lo
        } else if p0 > hi as u128 {
            hi
        } else {
            p0 as u64
        };
        proof {
            assert(p0 == (ipow as int) * (g as int) / (SCALE as int));
            assert(p as int == ({
                let q = (ipow as int) * (g as int) / (SCALE as int);
                let loi = if (b as int) < SCALE as int { b2 as int } else { SCALE as int };
                let hii = if (b as int) < SCALE as int { SCALE as int } else { b2 as int };
                if q < loi { loi } else if q > hii { hii } else { q }
            }));
        }
        if b >= SCALE {
            assert(h * (p - SCALE) <= SCALE * ACC_CAP) by (nonlinear_arith)
                requires
                    h <= SCALE,
                    p >= SCALE,
                    p <= ACC_CAP,
            ;
            let v = h * (p - SCALE) / (b2 - SCALE);
            v
        } else {
            assert(h * (SCALE - p) <= SCALE * SCALE) by (nonlinear_arith)
                requires
                    h <= SCALE,
                    p <= SCALE,
            ;
            let v = h * (SCALE - p) / (SCALE - b2);
            v
        }
    }
}

} // verus!
