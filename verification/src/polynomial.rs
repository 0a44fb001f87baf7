//! Polynomial cross-sections and Lagrange interpolation.

use crate::fixed::{add_v, div_v, mul_v, sub_v, Fx, MAX_RAW, SCALE};
use vstd::prelude::*;

verus! {

/// `x` raised to the `k`-th power the way the evaluator accumulates it:
/// one truncating multiplication per degree, starting from one.
pub open spec fn xpow_acc(x: int, k: nat) -> int
    decreases k,
{
    if k == 0 {
        SCALE as int
    } else {
        mul_v(xpow_acc(x, (k - 1) as nat), x)
    }
}

/// The running sum of `coeff_i * x^i` over the first `cs.len()` terms,
/// added in ascending degree exactly as the evaluator does.
pub open spec fn eval_poly(cs: Seq<Fx>, x: int) -> int
    decreases cs.len(),
{
    if cs.len() == 0 {
        0
    } else {
        add_v(
            eval_poly(cs.subrange(0, cs.len() - 1), x),
            mul_v(cs[cs.len() - 1]@, xpow_acc(x, (cs.len() - 1) as nat)),
        )
    }
}

/// Partial sums stay inside the saturation range.
pub proof fn lemma_eval_poly_bounded(cs: Seq<Fx>, x: int)
    ensures
        -(MAX_RAW as int) <= eval_poly(cs, x) <= MAX_RAW as int,
    decreases cs.len(),
{
    if cs.len() > 0 {
        lemma_eval_poly_bounded(cs.subrange(0, cs.len() - 1), x);
    }
}

/// A polynomial in ascending-degree coefficient order.
#[derive(Debug)]
pub struct Polynomial {
    pub coefficients: Vec<Fx>,
}

impl Polynomial {
    pub fn new(coefficients: Vec<Fx>) -> (r: Polynomial)
        ensures
            r.coefficients@ == coefficients@,
    {
        Polynomial { coefficients }
    }

    /// Evaluate by accumulating powers of `x`, ascending degree.
    pub fn compute(&self, x: Fx) -> (r: Fx)
        ensures
            r@ == eval_poly(self.coefficients@, x@),
    {
        let mut result = Fx::zero();
        let mut x_power = Fx::one();
        let mut i: usize = 0;
        while i < self.coefficients.len()
            invariant
                0 <= i <= self.coefficients@.len(),
                result@ == eval_poly(self.coefficients@.take(i as int), x@),
                x_power@ == xpow_acc(x@, i as nat),
            decreases self.coefficients@.len() - i,
        {
            proof {
                let t = self.coefficients@.take(i + 1);
                assert(t.subrange(0, t.len() - 1) =~= self.coefficients@.take(i as int));
                assert(t[t.len() - 1] == self.coefficients@[i as int]);
            }
            result = result.add(self.coefficients[i].mul(x_power));
            x_power = x_power.mul(x);
            i = i + 1;
        }
        proof {
            assert(self.coefficients@.take(self.coefficients@.len() as int) =~= self.coefficients@);
        }
        result
    }
}

/// The polynomial with no coefficients is the zero field everywhere: the
/// ready-made constant-zero boundary for the solver.
pub proof fn lemma_empty_poly_is_zero(p: Polynomial)
    requires
        p.coefficients@.len() == 0,
    ensures
        forall|x: int| crate::heights::eval1(crate::heights::Height1::Poly(p), x) == 0,
{
    assert forall|x: int| crate::heights::eval1(crate::heights::Height1::Poly(p), x) == 0 by {
        assert(eval_poly(p.coefficients@, x) == 0);
    }
}

/// The product of ratios `(x - x_j) / (x_i - x_j)` over `j < k`, `j != i`,
/// seeded with the `i`-th control height, accumulated in index order.
pub open spec fn interp_basis(pts: Seq<(Fx, Fx)>, i: int, x: int, k: nat) -> int
    decreases k,
{
    if k == 0 {
        pts[i].1@
    } else if k - 1 == i {
        interp_basis(pts, i, x, (k - 1) as nat)
    } else {
        mul_v(
            interp_basis(pts, i, x, (k - 1) as nat),
            div_v(sub_v(x, pts[k - 1].0@), sub_v(pts[i].0@, pts[k - 1].0@)),
        )
    }
}

/// The running sum of the first `k` weighted basis products.
pub open spec fn eval_interp(pts: Seq<(Fx, Fx)>, x: int, k: nat) -> int
    decreases k,
{
    if k == 0 {
        0
    } else {
        add_v(eval_interp(pts, x, (k - 1) as nat), interp_basis(pts, (k - 1) as int, x, pts.len()))
    }
}

/// Interpolation sums stay inside the saturation range: they are either
/// empty or end in a saturating addition.
pub proof fn lemma_eval_interp_bounded(pts: Seq<(Fx, Fx)>, x: int, k: nat)
    ensures
        -(MAX_RAW as int) <= eval_interp(pts, x, k) <= MAX_RAW as int,
{
}

/// Classical Lagrange interpolation over a list of `(x, height)` control
/// points: each term multiplies the control height by its product of
/// ratios. Control abscissas are expected pairwise distinct; a repeated
/// abscissa saturates the offending ratio instead of failing.
#[derive(Debug)]
pub struct Interpolation {
    pub points: Vec<(Fx, Fx)>,
}

impl Interpolation {
    pub fn new(points: Vec<(Fx, Fx)>) -> (r: Interpolation)
        ensures
            r.points@ == points@,
    {
        Interpolation { points }
    }

    /// Evaluate the interpolant term by term, ratios in index order.
    pub fn compute(&self, x: Fx) -> (r: Fx)
        ensures
            r@ == eval_interp(self.points@, x@, self.points@.len()),
    {
        let n = self.points.len();
        let mut result = Fx::zero();
        let mut i: usize = 0;
        while i < n
            invariant
                0 <= i <= n,
                n == self.points@.len(),
                result@ == eval_interp(self.points@, x@, i as nat),
            decreases n - i,
        {
            let (xi, yi) = self.points[i];
            let mut acc = yi;
            let mut j: usize = 0;
            while j < n
                invariant
                    0 <= j <= n,
                    0 <= i < n,
                    n == self.points@.len(),
                    (xi, yi) == self.points@[i as int],
                    acc@ == interp_basis(self.points@, i as int, x@, j as nat),
                decreases n - j,
            {
                if j != i {
                    let (xj, _) = self.points[j];
                    acc = acc.mul(x.sub(xj).div(xi.sub(xj)));
                }
                j = j + 1;
            }
            result = result.add(acc);
            i = i + 1;
        }
        result
    }
}

} // verus!
