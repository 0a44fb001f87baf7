//! Fixed-point sine and exponential kernels.
//!
//! Both are truncated power series after range reduction, computed entirely
//! in saturating fixed-point steps. Each executable kernel returns exactly
//! the value of its spec-level mirror, so callers reason about the series
//! actually computed, not about the ideal real function.

use crate::fixed::{
    add_v, clamp01_v, div_trunc, div_v, mul_v, neg_v, rem_trunc, sat, sub_v, Fx, MAX_RAW, SCALE,
};
use vstd::arithmetic::div_mod::{
    lemma_div_nonincreasing, lemma_div_pos_is_pos, lemma_mod_division_less_than_divisor,
    lemma_mod_pos_bound,
};
use vstd::prelude::*;

verus! {

/// One half turn, in millionths of a radian.
pub const PI_RAW: i64 = 3_141_593;

/// One full turn; exactly twice `PI_RAW` so the quadrant folds are exact.
pub const TWO_PI_RAW: i64 = 6_283_186;

/// A quarter turn, the domain on which the sine series is evaluated.
pub const HALF_PI_RAW: i64 = 1_570_796;

/// Euler's number, in millionths.
pub const E_RAW: i64 = 2_718_282;

/// Its reciprocal `1/e`, in millionths.
pub const E_INV_RAW: i64 = 367_879;

/// Above this argument the exponential exceeds the saturation range.
pub const EXP_POS_CUT: i64 = 31_000_000;

/// Below this argument the exponential truncates to zero millionths.
pub const EXP_NEG_CUT: i64 = -15_000_000;

/// The sine series on a quarter turn:
/// `t (1 - t²/6 (1 - t²/20 (1 - t²/42 (1 - t²/72))))`, clipped into `[0, 1]`.
pub open spec fn sin_poly(t: int) -> int {
    let t2 = mul_v(t, t);
    let u3 = sub_v(SCALE as int, div_trunc(t2, 72));
    let u2 = sub_v(SCALE as int, div_trunc(mul_v(t2, u3), 42));
    let u1 = sub_v(SCALE as int, div_trunc(mul_v(t2, u2), 20));
    let u0 = sub_v(SCALE as int, div_trunc(mul_v(t2, u1), 6));
    clamp01_v(mul_v(t, u0))
}

/// Reduce an angle into `[0, TWO_PI_RAW)`.
pub open spec fn angle_reduce(x: int) -> int {
    let m = rem_trunc(x, TWO_PI_RAW as int);
    if m < 0 {
        m + TWO_PI_RAW as int
    } else {
        m
    }
}

/// Sine on `[0, PI_RAW)`: fold the second quadrant onto the first.
pub open spec fn sin_half(m: int) -> int {
    if m > HALF_PI_RAW as int {
        sin_poly(PI_RAW as int - m)
    } else {
        sin_poly(m)
    }
}

/// The fixed-point sine: reduce to one turn, negate the second half turn.
pub open spec fn sin_v(x: int) -> int {
    let m = angle_reduce(x);
    if m >= PI_RAW as int {
        -sin_half(m - PI_RAW as int)
    } else {
        sin_half(m)
    }
}

/// The exponential series on `[0, 1)` for a negated argument:
/// `1 - t (1 - t/2 (1 - t/3 (... (1 - t/8))))`, clipped into `[0, 1]`.
pub open spec fn exp_frac(t: int) -> int {
    let v8 = sub_v(SCALE as int, div_trunc(t, 8));
    let v7 = sub_v(SCALE as int, div_trunc(mul_v(t, v8), 7));
    let v6 = sub_v(SCALE as int, div_trunc(mul_v(t, v7), 6));
    let v5 = sub_v(SCALE as int, div_trunc(mul_v(t, v6), 5));
    let v4 = sub_v(SCALE as int, div_trunc(mul_v(t, v5), 4));
    let v3 = sub_v(SCALE as int, div_trunc(mul_v(t, v4), 3));
    let v2 = sub_v(SCALE as int, div_trunc(mul_v(t, v3), 2));
    clamp01_v(sub_v(SCALE as int, mul_v(t, v2)))
}

/// `k` successive fixed-point multiplications of `acc` by `base`.
pub open spec fn pow_mul(base: int, k: nat, acc: int) -> int
    decreases k,
{
    if k == 0 {
        acc
    } else {
        pow_mul(base, (k - 1) as nat, mul_v(acc, base))
    }
}

/// The fixed-point exponential: split off the integer part, take the
/// fractional part from the series, and multiply `e` (or `1/e`) back in.
pub open spec fn exp_v(x: int) -> int {
    if x >= EXP_POS_CUT as int {
        MAX_RAW as int
    } else if x <= EXP_NEG_CUT as int {
        0
    } else if x >= 0 {
        let k = x / (SCALE as int);
        let f = x % (SCALE as int);
        pow_mul(E_RAW as int, k as nat, div_v(SCALE as int, exp_frac(f)))
    } else {
        let m = -x;
        let k = m / (SCALE as int);
        let f = m % (SCALE as int);
        pow_mul(E_INV_RAW as int, k as nat, exp_frac(f))
    }
}

/// Repeated products keep a sign: nonnegative stays nonnegative.
pub proof fn lemma_pow_mul_nonneg(base: int, k: nat, acc: int)
    requires
        base >= 0,
        acc >= 0,
    ensures
        pow_mul(base, k, acc) >= 0,
    decreases k,
{
    if k > 0 {
        lemma_pow_mul_nonneg(base, (k - 1) as nat, mul_v(acc, base));
    }
}

/// The power accumulator stays inside the saturation range.
pub proof fn lemma_pow_mul_bounded(base: int, k: nat, acc: int)
    requires
        -(MAX_RAW as int) <= acc <= MAX_RAW as int,
    ensures
        -(MAX_RAW as int) <= pow_mul(base, k, acc) <= MAX_RAW as int,
    decreases k,
{
    if k > 0 {
        lemma_pow_mul_bounded(base, (k - 1) as nat, mul_v(acc, base));
    }
}

/// The sine mirror never leaves `[-1, 1]`.
pub proof fn lemma_sin_v_bounds(x: int)
    ensures
        -(SCALE as int) <= sin_v(x) <= SCALE as int,
{
}

/// The exponential mirror is nonnegative and within the saturation cap.
pub proof fn lemma_exp_v_bounds(x: int)
    ensures
        0 <= exp_v(x) <= MAX_RAW as int,
{
    if x >= EXP_POS_CUT as int || x <= EXP_NEG_CUT as int {
    } else if x >= 0 {
        let k = x / (SCALE as int);
        let f = x % (SCALE as int);
        let start = div_v(SCALE as int, exp_frac(f));
        if exp_frac(f) != 0 {
            lemma_div_trunc_nonneg((SCALE as int) * (SCALE as int), exp_frac(f));
        }
        lemma_pow_mul_nonneg(E_RAW as int, k as nat, start);
        lemma_pow_mul_bounded(E_RAW as int, k as nat, start);
    } else {
        let m = -x;
        let k = m / (SCALE as int);
        let f = m % (SCALE as int);
        lemma_pow_mul_nonneg(E_INV_RAW as int, k as nat, exp_frac(f));
        lemma_pow_mul_bounded(E_INV_RAW as int, k as nat, exp_frac(f));
    }
}

/// Truncating division keeps the sign of a nonnegative dividend.
pub proof fn lemma_div_trunc_nonneg(a: int, b: int)
    requires
        a >= 0,
        b > 0,
    ensures
        div_trunc(a, b) >= 0,
{
    if a > 0 {
        lemma_div_pos_is_pos(a, b);
    }
}

/// Divide a fixed-point value by a small positive integer count.
fn div_small(a: Fx, k: i64) -> (r: Fx)
    requires
        k > 0,
    ensures
        r@ == div_trunc(a@, k as int),
{
    proof {
        crate::fixed::lemma_div_trunc_bound(a.raw as int, k as int);
    }
    Fx { raw: a.raw.checked_div(k).unwrap() }
}

/// The fixed-point sine of `x` millionths of a radian.
pub fn sin_fx(x: Fx) -> (r: Fx)
    ensures
        r@ == sin_v(x@),
        -(SCALE as int) <= r@ <= SCALE as int,
{
    proof {
        if x.raw > 0 {
            lemma_mod_pos_bound(x.raw as int, TWO_PI_RAW as int);
        } else if x.raw < 0 {
            lemma_mod_pos_bound(-(x.raw as int), TWO_PI_RAW as int);
        }
    }
    let m0 = x.raw.checked_rem(TWO_PI_RAW).unwrap();
    let m = if m0 < 0 {
        m0 + TWO_PI_RAW
    } else {
        m0
    };
    let (negate, mh) = if m >= PI_RAW {
        (true, m - PI_RAW)
    } else {
        (false, m)
    };
    let f = if mh > HALF_PI_RAW {
        PI_RAW - mh
    } else {
        mh
    };
    let t = Fx { raw: f };
    let t2 = t.mul(t);
    let one = Fx::one();
    let u3 = one.sub(div_small(t2, 72));
    let u2 = one.sub(div_small(t2.mul(u3), 42));
    let u1 = one.sub(div_small(t2.mul(u2), 20));
    let u0 = one.sub(div_small(t2.mul(u1), 6));
    let r = t.mul(u0).clamp01();
    if negate {
        r.neg()
    } else {
        r
    }
}

/// The exponential series on one fractional step, for `e^(-t/SCALE)`.
fn exp_frac_fx(t: Fx) -> (r: Fx)
    ensures
        r@ == exp_frac(t@),
        0 <= r@ <= SCALE as int,
{
    let one = Fx::one();
    let v8 = one.sub(div_small(t, 8));
    let v7 = one.sub(div_small(t.mul(v8), 7));
    let v6 = one.sub(div_small(t.mul(v7), 6));
    let v5 = one.sub(div_small(t.mul(v6), 5));
    let v4 = one.sub(div_small(t.mul(v5), 4));
    let v3 = one.sub(div_small(t.mul(v4), 3));
    let v2 = one.sub(div_small(t.mul(v3), 2));
    one.sub(t.mul(v2)).clamp01()
}

/// The fixed-point exponential of `x` millionths.
pub fn exp_fx(x: Fx) -> (r: Fx)
    ensures
        r@ == exp_v(x@),
        r@ >= 0,
{
    if x.raw >= EXP_POS_CUT {
        Fx { raw: MAX_RAW }
    } else if x.raw <= EXP_NEG_CUT {
        Fx { raw: 0 }
    } else if x.raw >= 0 {
        let k = x.raw.checked_div(SCALE).unwrap();
        let f = x.raw.checked_rem(SCALE).unwrap();
        proof {
            lemma_div_pos_is_pos(x.raw as int, SCALE as int);
            lemma_div_nonincreasing(x.raw as int, SCALE as int);
            lemma_mod_pos_bound(x.raw as int, SCALE as int);
        }
        let base = Fx { raw: E_RAW };
        let frac = exp_frac_fx(Fx { raw: f });
        let start = Fx::one().div(frac);
        proof {
            if frac@ != 0 {
                lemma_div_trunc_nonneg((SCALE as int) * (SCALE as int), frac@);
            }
            lemma_pow_mul_nonneg(E_RAW as int, k as nat, start@);
        }
        let ghost goal = pow_mul(E_RAW as int, k as nat, start@);
        let mut acc = start;
        let mut i: i64 = 0;
        while i < k
            invariant
                0 <= i <= k,
                base@ == E_RAW as int,
                pow_mul(E_RAW as int, (k - i) as nat, acc@) == goal,
            decreases k - i,
        {
            proof {
                assert(pow_mul(E_RAW as int, (k - i) as nat, acc@) == pow_mul(
                    E_RAW as int,
                    (k - i - 1) as nat,
                    mul_v(acc@, E_RAW as int),
                ));
            }
            acc = acc.mul(base);
            i = i + 1;
        }
        acc
    } else {
        let m = -x.raw;
        let k = m.checked_div(SCALE).unwrap();
        let f = m.checked_rem(SCALE).unwrap();
        proof {
            lemma_div_pos_is_pos(m as int, SCALE as int);
            lemma_div_nonincreasing(m as int, SCALE as int);
            lemma_mod_pos_bound(m as int, SCALE as int);
        }
        let base = Fx { raw: E_INV_RAW };
        let start = exp_frac_fx(Fx { raw: f });
        let ghost goal = pow_mul(E_INV_RAW as int, k as nat, start@);
        let mut acc = start;
        let mut i: i64 = 0;
        proof {
            lemma_pow_mul_nonneg(E_INV_RAW as int, k as nat, start@);
        }
        while i < k
            invariant
                0 <= i <= k,
                base@ == E_INV_RAW as int,
                pow_mul(E_INV_RAW as int, (k - i) as nat, acc@) == goal,
            decreases k - i,
        {
            proof {
                assert(pow_mul(E_INV_RAW as int, (k - i) as nat, acc@) == pow_mul(
                    E_INV_RAW as int,
                    (k - i - 1) as nat,
                    mul_v(acc@, E_INV_RAW as int),
                ));
            }
            acc = acc.mul(base);
            i = i + 1;
        }
        acc
    }
}

} // verus!
