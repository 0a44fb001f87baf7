//! The fixed-point scalar that all height fields evaluate to.
//!
//! A `Fx` stores a real value in millionths (`raw / SCALE`). Arithmetic is
//! total: results are truncated toward zero and saturated into
//! `[-MAX_RAW, MAX_RAW]`, the fixed-point stand-in for an infinite result.
//! Every operation is specified exactly by a spec-level mirror over `int`.

use vstd::arithmetic::div_mod::{lemma_div_nonincreasing, lemma_div_pos_is_pos};
use vstd::prelude::*;

verus! {

/// Number of raw units in 1.0: values are stored in millionths.
pub const SCALE: i64 = 1_000_000;

/// Largest raw magnitude a `Fx` can carry; arithmetic saturates here.
pub const MAX_RAW: i64 = i64::MAX;

/// Saturation of a mathematical result into the representable range.
pub open spec fn sat(v: int) -> int {
    if v > MAX_RAW as int {
        MAX_RAW as int
    } else if v < -(MAX_RAW as int) {
        -(MAX_RAW as int)
    } else {
        v
    }
}

/// Truncating (round-toward-zero) division, the behaviour of `/` on Rust's
/// signed integers, written in the same shape as vstd's `checked_div` spec.
pub open spec fn div_trunc(a: int, b: int) -> int
    recommends
        b != 0,
{
    if a == 0 {
        0
    } else if a > 0 && b > 0 {
        a / b
    } else if a < 0 && b < 0 {
        (a * -1) / (b * -1)
    } else if a < 0 {
        ((a * -1) / b) * -1
    } else {
        (a / (b * -1)) * -1
    }
}

/// Truncating remainder, the behaviour of `%` on Rust's signed integers.
pub open spec fn rem_trunc(a: int, b: int) -> int
    recommends
        b != 0,
{
    if a == 0 {
        0
    } else if a > 0 && b > 0 {
        a % b
    } else if a < 0 && b < 0 {
        ((a * -1) % (b * -1)) * -1
    } else if a < 0 {
        ((a * -1) % b) * -1
    } else {
        a % (b * -1)
    }
}

pub open spec fn add_v(a: int, b: int) -> int {
    sat(a + b)
}

pub open spec fn sub_v(a: int, b: int) -> int {
    sat(a - b)
}

pub open spec fn neg_v(a: int) -> int {
    sat(-a)
}

pub open spec fn abs_v(a: int) -> int {
    sat(if a < 0 { -a } else { a })
}

/// Fixed-point product: truncate `a * b` back down by one scale factor.
pub open spec fn mul_v(a: int, b: int) -> int {
    sat(div_trunc(a * b, SCALE as int))
}

/// Fixed-point quotient; a zero divisor saturates by the dividend's sign,
/// the stand-in for the infinities a real division would produce.
pub open spec fn div_v(a: int, b: int) -> int {
    if b == 0 {
        if a > 0 {
            MAX_RAW as int
        } else if a < 0 {
            -(MAX_RAW as int)
        } else {
            0
        }
    } else {
        sat(div_trunc(a * (SCALE as int), b))
    }
}

pub open spec fn min_v(a: int, b: int) -> int {
    if a <= b {
        a
    } else {
        b
    }
}

pub open spec fn max_v(a: int, b: int) -> int {
    if a >= b {
        a
    } else {
        b
    }
}

/// Clip into the unit interval `[0, 1]`.
pub open spec fn clamp01_v(v: int) -> int {
    if v < 0 {
        0
    } else if v > SCALE as int {
        SCALE as int
    } else {
        v
    }
}

/// The product of two `i64`-sized factors stays within `i128`.
pub proof fn lemma_product_fits_i128(a: int, b: int)
    requires
        i64::MIN as int <= a <= i64::MAX as int,
        i64::MIN as int <= b <= i64::MAX as int,
    ensures
        i128::MIN as int <= a * b <= i128::MAX as int,
{
    assert(i128::MIN as int <= a * b <= i128::MAX as int) by (nonlinear_arith)
        requires
            -9223372036854775808 <= a <= 9223372036854775807,
            -9223372036854775808 <= b <= 9223372036854775807,
    ;
}

/// The quotient's magnitude never exceeds the dividend's.
pub proof fn lemma_div_trunc_bound(a: int, b: int)
    requires
        b != 0,
    ensures
        div_trunc(a, b) <= (if a < 0 { -a } else { a }),
        div_trunc(a, b) >= -(if a < 0 { -a } else { a }),
{
    if a == 0 {
    } else if a > 0 && b > 0 {
        lemma_div_pos_is_pos(a, b);
        lemma_div_nonincreasing(a, b);
    } else if a < 0 && b < 0 {
        lemma_div_pos_is_pos(a * -1, b * -1);
        lemma_div_nonincreasing(a * -1, b * -1);
    } else if a < 0 {
        lemma_div_pos_is_pos(a * -1, b);
        lemma_div_nonincreasing(a * -1, b);
    } else {
        lemma_div_pos_is_pos(a, b * -1);
        lemma_div_nonincreasing(a, b * -1);
    }
}

/// The integer square root: the greatest `r` with `r * r <= n`.
pub open spec fn sqrt_floor(n: int) -> int {
    choose|r: int| r >= 0 && #[trigger] (r * r) <= n && n < (r + 1) * (r + 1)
}

/// Square root of a fixed-point value; a negative radicand clips to zero.
pub open spec fn sqrt_v(v: int) -> int {
    if v <= 0 {
        0
    } else {
        sqrt_floor(v * (SCALE as int))
    }
}

/// A concrete root pins `sqrt_floor` down: the root is unique.
pub proof fn lemma_sqrt_floor_is(n: int, r: int)
    requires
        r >= 0,
        r * r <= n,
        n < (r + 1) * (r + 1),
    ensures
        sqrt_floor(n) == r,
{
    let c = sqrt_floor(n);
    assert(c >= 0 && c * c <= n && n < (c + 1) * (c + 1));
    assert(!(c < r)) by (nonlinear_arith)
        requires
            c >= 0,
            r >= 0,
            r * r <= n,
            n < (c + 1) * (c + 1),
    ;
    assert(!(r < c)) by (nonlinear_arith)
        requires
            c >= 0,
            r >= 0,
            c * c <= n,
            n < (r + 1) * (r + 1),
    ;
}

/// Binary search for the integer square root of a wide operand.
fn isqrt_u128(n: u128) -> (r: u128)
    ensures
        r * r <= n as int,
        (n as int) < (r + 1) * (r + 1),
{
    let mut lo: u128 = 0;
    let mut hi: u128 = 0x1_0000_0000_0000_0000;
    proof {
        assert((0x1_0000_0000_0000_0000 as int) * (0x1_0000_0000_0000_0000 as int) > u128::MAX as int);
    }
    while lo + 1 < hi
        invariant
            lo < hi,
            hi <= 0x1_0000_0000_0000_0000,
            lo * lo <= n as int,
            (n as int) < hi * hi,
        decreases hi - lo,
    {
        let mid = lo + (hi - lo) / 2;
        proof {
            assert(mid * mid < u128::MAX as int) by (nonlinear_arith)
                requires
                    mid < 0x1_0000_0000_0000_0000,
            ;
        }
        if mid * mid <= n {
            lo = mid;
        } else {
            hi = mid;
        }
    }
    lo
}

/// One fixed-point scalar, `raw / SCALE` as a real value.
#[derive(Clone, Copy, PartialEq, Eq, Structural, Debug)]
pub struct Fx {
    pub raw: i64,
}

impl View for Fx {
    type V = int;

    open spec fn view(&self) -> int {
        self.raw as int
    }
}

/// Saturate a wide intermediate back into the `i64` range.
fn sat_i128(v: i128) -> (r: i64)
    ensures
        r as int == sat(v as int),
{
    if v > MAX_RAW as i128 {
        MAX_RAW
    } else if v < -(MAX_RAW as i128) {
        -MAX_RAW
    } else {
        v as i64
    }
}

impl Fx {
    /// The value `raw / SCALE`.
    pub fn from_raw(raw: i64) -> (r: Fx)
        ensures
            r@ == raw as int,
    {
        Fx { raw }
    }

    /// The integer `v` as a fixed-point value.
    pub fn from_int(v: i64) -> (r: Fx)
        ensures
            r@ == sat(v * SCALE),
    {
        proof {
            lemma_product_fits_i128(v as int, SCALE as int);
        }
        let wide: i128 = (v as i128) * (SCALE as i128);
        Fx { raw: sat_i128(wide) }
    }

    pub fn zero() -> (r: Fx)
        ensures
            r@ == 0,
    {
        Fx { raw: 0 }
    }

    pub fn one() -> (r: Fx)
        ensures
            r@ == SCALE as int,
    {
        Fx { raw: SCALE }
    }

    pub fn add(self, o: Fx) -> (r: Fx)
        ensures
            r@ == add_v(self@, o@),
    {
        Fx { raw: sat_i128((self.raw as i128) + (o.raw as i128)) }
    }

    pub fn sub(self, o: Fx) -> (r: Fx)
        ensures
            r@ == sub_v(self@, o@),
    {
        Fx { raw: sat_i128((self.raw as i128) - (o.raw as i128)) }
    }

    pub fn neg(self) -> (r: Fx)
        ensures
            r@ == neg_v(self@),
    {
        Fx { raw: sat_i128(-(self.raw as i128)) }
    }

    pub fn abs(self) -> (r: Fx)
        ensures
            r@ == abs_v(self@),
    {
        if self.raw < 0 {
            Fx { raw: sat_i128(-(self.raw as i128)) }
        } else {
            self
        }
    }

    pub fn mul(self, o: Fx) -> (r: Fx)
        ensures
            r@ == mul_v(self@, o@),
    {
        proof {
            lemma_product_fits_i128(self.raw as int, o.raw as int);
        }
        let p: i128 = (self.raw as i128) * (o.raw as i128);
        proof {
            lemma_div_trunc_bound(p as int, SCALE as int);
        }
        let q: i128 = p.checked_div(SCALE as i128).unwrap();
        Fx { raw: sat_i128(q) }
    }

    pub fn div(self, o: Fx) -> (r: Fx)
        ensures
            r@ == div_v(self@, o@),
    {
        if o.raw == 0 {
            if self.raw > 0 {
                Fx { raw: MAX_RAW }
            } else if self.raw < 0 {
                Fx { raw: -MAX_RAW }
            } else {
                Fx { raw: 0 }
            }
        } else {
            proof {
                lemma_product_fits_i128(self.raw as int, SCALE as int);
            }
            let p: i128 = (self.raw as i128) * (SCALE as i128);
            proof {
                lemma_div_trunc_bound(p as int, o.raw as int);
            }
            let q: i128 = p.checked_div(o.raw as i128).unwrap();
            Fx { raw: sat_i128(q) }
        }
    }

    pub fn min(self, o: Fx) -> (r: Fx)
        ensures
            r@ == min_v(self@, o@),
    {
        if self.raw <= o.raw {
            self
        } else {
            o
        }
    }

    pub fn max(self, o: Fx) -> (r: Fx)
        ensures
            r@ == max_v(self@, o@),
    {
        if self.raw >= o.raw {
            self
        } else {
            o
        }
    }

    pub fn clamp01(self) -> (r: Fx)
        ensures
            r@ == clamp01_v(self@),
    {
        if self.raw < 0 {
            Fx { raw: 0 }
        } else if self.raw > SCALE {
            Fx { raw: SCALE }
        } else {
            self
        }
    }

    /// The square root, rounded down to the representable grid.
    pub fn sqrt(self) -> (r: Fx)
        ensures
            r@ == sqrt_v(self@),
    {
        if self.raw <= 0 {
            Fx { raw: 0 }
        } else {
            let n: u128 = (self.raw as u128) * (SCALE as u128);
            let root = isqrt_u128(n);
            proof {
                assert(root <= 0xFFFF_FFFF_FFFF) by (nonlinear_arith)
                    requires
                        root >= 0,
                        root * root <= n as int,
                        n as int <= 0x7FFFFFFFFFFFFFFF * 1_000_000,
                ;
                lemma_sqrt_floor_is(n as int, root as int);
            }
            Fx { raw: root as i64 }
        }
    }

    pub fn lt(self, o: Fx) -> (r: bool)
        ensures
            r == (self@ < o@),
    {
        self.raw < o.raw
    }

    pub fn le(self, o: Fx) -> (r: bool)
        ensures
            r == (self@ <= o@),
    {
        self.raw <= o.raw
    }
}

/// Clipping is idempotent: a second application never changes anything.
pub proof fn lemma_clamp01_idempotent(v: int)
    ensures
        clamp01_v(clamp01_v(v)) == clamp01_v(v),
{
}

/// Clipping never changes a value already inside the unit interval.
pub proof fn lemma_clamp01_inside(v: int)
    requires
        0 <= v <= SCALE as int,
    ensures
        clamp01_v(v) == v,
{
}

} // verus!
