//! The boundary-value solver: Laplace's equation on the unit square with
//! four prescribed edge curves, solved by a sine series truncated to
//! `terms` harmonics.
//!
//! Each harmonic weighs every boundary by a Fourier coefficient taken from
//! a left-endpoint Riemann sum (`resolution` subintervals: deliberately a
//! low-order quadrature) and decays it into the interior by the hyperbolic
//! ratio `sinh(freq t) / sinh(freq)`, computed from negative-argument
//! exponentials so that no intermediate grows with the harmonic index.

use crate::approx::{exp_v, sin_v, PI_RAW};
use crate::fixed::{add_v, div_v, mul_v, neg_v, sat, sub_v, Fx, MAX_RAW, SCALE};
use crate::heights::{eval1, Height1};
use crate::ConfigError;
use vstd::prelude::*;

verus! {

/// The left-endpoint Riemann sum of `f(x) sin(freq x)` over the first `k`
/// subintervals of width `dx`.
pub open spec fn quad_sum(b: Height1, freq: int, dx: int, k: nat) -> int
    decreases k,
{
    if k == 0 {
        0
    } else {
        let xi = mul_v(sat((k - 1) * SCALE as int), dx);
        add_v(
            quad_sum(b, freq, dx, (k - 1) as nat),
            mul_v(mul_v(eval1(b, xi), sin_v(mul_v(freq, xi))), dx),
        )
    }
}

/// The hyperbolic decay ratio `sinh(freq t) / sinh(freq)`, written as
/// `(e^(freq (t-1)) - e^(-freq (t+1))) / (1 - e^(-2 freq))`.
pub open spec fn decay_ratio(freq: int, t: int) -> int {
    div_v(
        sub_v(
            exp_v(mul_v(freq, sub_v(t, SCALE as int))),
            exp_v(neg_v(mul_v(freq, add_v(t, SCALE as int)))),
        ),
        sub_v(SCALE as int, exp_v(neg_v(mul_v(2 * SCALE as int, freq)))),
    )
}

/// One boundary's contribution to one harmonic: twice its Fourier weight,
/// times the wave along the boundary, times the decay toward it.
pub open spec fn boundary_term(b: Height1, freq: int, dx: int, res: nat, wave: int, t: int) -> int {
    mul_v(mul_v(mul_v(2 * SCALE as int, quad_sum(b, freq, dx, res)), wave), decay_ratio(freq, t))
}

/// The `n`-th harmonic's frequency `n pi`, in raw units.
pub open spec fn harmonic_freq(n: nat) -> int {
    mul_v(sat(n * SCALE as int), PI_RAW as int)
}

/// The running total of the first `n` harmonics of the series at `(x, y)`.
/// A zero resolution never evaluates (construction rejects it); its sum is
/// fixed at zero so that the function stays total.
pub open spec fn solver_sum(s: LaplaceSolver, x: int, y: int, n: nat) -> int
    decreases n,
{
    if n == 0 || s.resolution == 0 {
        0
    } else {
        let freq = harmonic_freq(n);
        let dx = SCALE as int / s.resolution as int;
        let res = s.resolution as nat;
        let xw = sin_v(mul_v(freq, x));
        let yw = sin_v(mul_v(freq, y));
        add_v(
            solver_sum(s, x, y, (n - 1) as nat),
            add_v(
                add_v(
                    add_v(
                        boundary_term(s.bottom, freq, dx, res, xw, sub_v(SCALE as int, y)),
                        boundary_term(s.top, freq, dx, res, xw, y),
                    ),
                    boundary_term(s.left, freq, dx, res, yw, sub_v(SCALE as int, x)),
                ),
                boundary_term(s.right, freq, dx, res, yw, x),
            ),
        )
    }
}

/// Partial series totals stay inside the saturation range.
pub proof fn lemma_solver_sum_bounded(s: LaplaceSolver, x: int, y: int, n: nat)
    ensures
        -(MAX_RAW as int) <= solver_sum(s, x, y, n) <= MAX_RAW as int,
{
}

/// Solves Laplace's equation on the unit square, the four edges prescribed
/// by one-dimensional boundary fields.
#[derive(Debug)]
pub struct LaplaceSolver {
    pub bottom: Height1,
    pub top: Height1,
    pub left: Height1,
    pub right: Height1,
    pub terms: u32,
    pub resolution: u32,
}

impl LaplaceSolver {
    /// Build a solver; a zero quadrature resolution would divide by zero,
    /// so it is rejected here rather than left to evaluation.
    pub fn new(
        bottom: Height1,
        top: Height1,
        left: Height1,
        right: Height1,
        terms: u32,
        resolution: u32,
    ) -> (r: Result<LaplaceSolver, ConfigError>)
        ensures
            resolution == 0 ==> r == Err::<LaplaceSolver, ConfigError>(ConfigError::ZeroResolution),
            resolution != 0 ==> {
                &&& r is Ok
                &&& r->Ok_0.bottom == bottom
                &&& r->Ok_0.top == top
                &&& r->Ok_0.left == left
                &&& r->Ok_0.right == right
                &&& r->Ok_0.terms == terms
                &&& r->Ok_0.resolution == resolution
            },
    {
        if resolution == 0 {
            Err(ConfigError::ZeroResolution)
        } else {
            Ok(LaplaceSolver { bottom, top, left, right, terms, resolution })
        }
    }

    pub fn compute(&self, x: Fx, y: Fx) -> (r: Fx)
        ensures
            r@ == solver_sum(*self, x@, y@, self.terms as nat),
    {
        if self.resolution == 0 {
            return Fx::zero();
        }
        let dx = Fx { raw: (SCALE as u64 / self.resolution as u64) as i64 };
        let one = Fx::one();
        let two = Fx { raw: 2 * SCALE };
        let pi = Fx { raw: PI_RAW };
        let mut total = Fx::zero();
        let mut n: u64 = 1;
        while n <= self.terms as u64
            invariant
                1 <= n <= self.terms as u64 + 1,
                self.resolution != 0,
                dx@ == SCALE as int / self.resolution as int,
                one@ == SCALE as int,
                two@ == 2 * SCALE as int,
                pi@ == PI_RAW as int,
                total@ == solver_sum(*self, x@, y@, (n - 1) as nat),
            decreases self.terms as u64 + 1 - n,
        {
            let freq = Fx::from_int(n as i64).mul(pi);
            let xw = crate::approx::sin_fx(freq.mul(x));
            let yw = crate::approx::sin_fx(freq.mul(y));
            let bottom_coeff = two.mul(coeff_integral(&self.bottom, freq, dx, self.resolution));
            let top_coeff = two.mul(coeff_integral(&self.top, freq, dx, self.resolution));
            let left_coeff = two.mul(coeff_integral(&self.left, freq, dx, self.resolution));
            let right_coeff = two.mul(coeff_integral(&self.right, freq, dx, self.resolution));
            let bt = bottom_coeff.mul(xw).mul(decay(freq, one.sub(y)));
            let tt = top_coeff.mul(xw).mul(decay(freq, y));
            let lt = left_coeff.mul(yw).mul(decay(freq, one.sub(x)));
            let rt = right_coeff.mul(yw).mul(decay(freq, x));
            total = total.add(bt.add(tt).add(lt).add(rt));
            n = n + 1;
        }
        total
    }
}

/// The hyperbolic decay ratio, from negative-argument exponentials.
fn decay(freq: Fx, t: Fx) -> (r: Fx)
    ensures
        r@ == decay_ratio(freq@, t@),
{
    let one = Fx::one();
    let num = crate::approx::exp_fx(freq.mul(t.sub(one))).sub(
        crate::approx::exp_fx(freq.mul(t.add(one)).neg()),
    );
    let den = one.sub(crate::approx::exp_fx(Fx { raw: 2 * SCALE }.mul(freq).neg()));
    num.div(den)
}

/// The Fourier weight of one boundary for one harmonic: the left-endpoint
/// Riemann sum of `f(x) sin(freq x)` over `resolution` subintervals.
fn coeff_integral(f: &Height1, freq: Fx, dx: Fx, resolution: u32) -> (r: Fx)
    requires
        resolution >= 1,
    ensures
        r@ == quad_sum(*f, freq@, dx@, resolution as nat),
{
    let mut total = Fx::zero();
    let mut i: u32 = 0;
    while i < resolution
        invariant
            0 <= i <= resolution,
            total@ == quad_sum(*f, freq@, dx@, i as nat),
        decreases resolution - i,
    {
        let xi = Fx::from_int(i as i64).mul(dx);
        let height = f.compute(xi);
        let wave = crate::approx::sin_fx(freq.mul(xi));
        total = total.add(height.mul(wave).mul(dx));
        i = i + 1;
    }
    total
}

/// With all four boundary curves identically zero, every Fourier weight
/// vanishes, so the solver is zero at every point, whatever `terms`.
pub proof fn lemma_solver_zero_boundaries(s: LaplaceSolver, x: int, y: int, n: nat)
    requires
        forall|t: int| eval1(s.bottom, t) == 0,
        forall|t: int| eval1(s.top, t) == 0,
        forall|t: int| eval1(s.left, t) == 0,
        forall|t: int| eval1(s.right, t) == 0,
    ensures
        solver_sum(s, x, y, n) == 0,
    decreases n,
{
    if n > 0 && s.resolution != 0 {
        lemma_solver_zero_boundaries(s, x, y, (n - 1) as nat);
        let freq = harmonic_freq(n);
        let dx = SCALE as int / s.resolution as int;
        lemma_quad_sum_zero(s.bottom, freq, dx, s.resolution as nat);
        lemma_quad_sum_zero(s.top, freq, dx, s.resolution as nat);
        lemma_quad_sum_zero(s.left, freq, dx, s.resolution as nat);
        lemma_quad_sum_zero(s.right, freq, dx, s.resolution as nat);
        assert(mul_v(2 * SCALE as int, 0) == 0);
        assert forall|wave: int, t: int| mul_v(mul_v(0, wave), decay_ratio(freq, t)) == 0 by {
            assert(mul_v(0, wave) == 0);
            assert(mul_v(0, decay_ratio(freq, t)) == 0);
        }
    }
}

/// A zero integrand sums to zero.
proof fn lemma_quad_sum_zero(b: Height1, freq: int, dx: int, k: nat)
    requires
        forall|t: int| eval1(b, t) == 0,
    ensures
        quad_sum(b, freq, dx, k) == 0,
    decreases k,
{
    if k > 0 {
        lemma_quad_sum_zero(b, freq, dx, (k - 1) as nat);
        let xi = mul_v(sat((k - 1) * SCALE as int), dx);
        assert(eval1(b, xi) == 0);
        assert(mul_v(0, sin_v(mul_v(freq, xi))) == 0);
        assert(mul_v(0, dx) == 0);
    }
}

/// With zero harmonics the series is empty: the solver is identically
/// zero, whatever the boundary curves hold.
pub proof fn lemma_solver_zero_terms(s: LaplaceSolver, x: int, y: int)
    requires
        s.terms == 0,
    ensures
        solver_sum(s, x, y, s.terms as nat) == 0,
{
}

} // verus!
