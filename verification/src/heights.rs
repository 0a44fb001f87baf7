//! The closed algebra of height fields.
//!
//! A field is a tree built bottom-up and never mutated: primitives at the
//! leaves, combinators above them. Evaluation is total and side-effect-free;
//! its exact value is the spec-level `eval1` / `eval2`, which every
//! executable `compute` returns verbatim.

use crate::combine::{center_v, radius_v, ProductSurface, SurfaceOfRevolution};
use crate::csg1d::{Intersection1D, Union1D};
use crate::csg2d::Complement2D;
use crate::fixed::{add_v, clamp01_v, max_v, min_v, mul_v, sub_v, Fx, MAX_RAW, SCALE};
use crate::height1d::{eval_primitive, HeightFunction1D};
use crate::laplace::{solver_sum, LaplaceSolver};
use crate::polynomial::{eval_interp, eval_poly, Interpolation, Polynomial};
use crate::surfaces::{sine_hill_v, SineHill};
use crate::xforms1d::Linear1D;
use vstd::prelude::*;

verus! {

/// A one-dimensional height field: a cross-section of the model.
#[derive(Debug)]
pub enum Height1 {
    Function(HeightFunction1D),
    Poly(Polynomial),
    Interp(Interpolation),
    Union(Union1D),
    Intersection(Intersection1D),
    Linear(Box<Linear1D>),
}

/// A two-dimensional height field over the unit square.
#[derive(Debug)]
pub enum Height2 {
    Product(ProductSurface),
    Complement(Complement2D),
    Revolution(SurfaceOfRevolution),
    Solver(LaplaceSolver),
    Hill(SineHill),
}

/// The value of a one-dimensional field at `x` (raw fixed-point units).
pub open spec fn eval1(h: Height1, x: int) -> int
    decreases h,
{
    match h {
        Height1::Function(f) => eval_primitive(f.kind, x),
        Height1::Poly(p) => eval_poly(p.coefficients@, x),
        Height1::Interp(it) => eval_interp(it.points@, x, it.points@.len()),
        Height1::Union(u) => eval_list_max(u.funcs@, x),
        Height1::Intersection(s) => eval_list_min(s.funcs@, x),
        Height1::Linear(l) => add_v(
            mul_v(
                (*l).post_scale@,
                eval1((*l).func, add_v(mul_v((*l).pre_scale@, x), (*l).pre_shift@)),
            ),
            (*l).post_shift@,
        ),
    }
}

/// Running maximum over a list of children; the identity is the most
/// negative representable value, the stand-in for minus infinity.
pub open spec fn eval_list_max(s: Seq<Height1>, x: int) -> int
    decreases s,
{
    if s.len() == 0 {
        -(MAX_RAW as int)
    } else {
        max_v(eval_list_max(s.subrange(0, s.len() - 1), x), eval1(s[s.len() - 1], x))
    }
}

/// Running minimum over a list of children; the identity is the most
/// positive representable value, the stand-in for plus infinity.
pub open spec fn eval_list_min(s: Seq<Height1>, x: int) -> int
    decreases s,
{
    if s.len() == 0 {
        MAX_RAW as int
    } else {
        min_v(eval_list_min(s.subrange(0, s.len() - 1), x), eval1(s[s.len() - 1], x))
    }
}

/// The value of a two-dimensional field at `(x, y)`.
pub open spec fn eval2(h: Height2, x: int, y: int) -> int
    decreases h,
{
    match h {
        Height2::Product(p) => mul_v(eval1(p.x_func, x), eval1(p.y_func, y)),
        Height2::Complement(c) => sub_v(SCALE as int, eval2(*c.func, x, y)),
        Height2::Revolution(r) => eval1(r.cross_section, radius_v(r.metric, center_v(x), center_v(y))),
        Height2::Solver(s) => solver_sum(s, x, y, s.terms as nat),
        Height2::Hill(_) => sine_hill_v(x, y),
    }
}

impl Height1 {
    /// Evaluate the field; total, and exactly `eval1`.
    pub fn compute(&self, x: Fx) -> (r: Fx)
        ensures
            r@ == eval1(*self, x@),
        decreases *self,
    {
        match self {
            Height1::Function(f) => f.compute(x),
            Height1::Poly(p) => p.compute(x),
            Height1::Interp(it) => it.compute(x),
            Height1::Union(u) => u.compute(x),
            Height1::Intersection(s) => s.compute(x),
            Height1::Linear(l) => l.compute(x),
        }
    }
}

impl Height2 {
    /// Evaluate the field; total, and exactly `eval2`.
    pub fn compute(&self, x: Fx, y: Fx) -> (r: Fx)
        ensures
            r@ == eval2(*self, x@, y@),
        decreases *self,
    {
        match self {
            Height2::Product(p) => p.compute(x, y),
            Height2::Complement(c) => c.compute(x, y),
            Height2::Revolution(r) => r.compute(x, y),
            Height2::Solver(s) => s.compute(x, y),
            Height2::Hill(h) => h.compute(x, y),
        }
    }

    /// Evaluate and clip into `[0, 1]`, the form the mesh builder and the
    /// slicer consume. Total, and idempotent in its clipping step.
    pub fn compute_clamped(&self, x: Fx, y: Fx) -> (r: Fx)
        ensures
            r@ == clamp01_v(eval2(*self, x@, y@)),
    {
        self.compute(x, y).clamp01()
    }
}

/// Clipped evaluation is idempotent: clipping `compute_clamped`'s result
/// again never changes it, and a value already inside `[0, 1]` comes back
/// from the clip untouched.
pub proof fn lemma_compute_clamped_idempotent(h: Height2, x: int, y: int)
    ensures
        clamp01_v(clamp01_v(eval2(h, x, y))) == clamp01_v(eval2(h, x, y)),
        0 <= eval2(h, x, y) <= SCALE as int ==> clamp01_v(eval2(h, x, y)) == eval2(h, x, y),
{
    crate::fixed::lemma_clamp01_idempotent(eval2(h, x, y));
    if 0 <= eval2(h, x, y) <= SCALE as int {
        crate::fixed::lemma_clamp01_inside(eval2(h, x, y));
    }
}

/// Every one-dimensional evaluation stays inside the saturation range.
pub proof fn lemma_eval1_bounded(h: Height1, x: int)
    ensures
        -(MAX_RAW as int) <= eval1(h, x) <= MAX_RAW as int,
    decreases h,
{
    match h {
        Height1::Function(f) => {
            crate::height1d::lemma_eval_primitive_bounded(f.kind, x);
        },
        Height1::Poly(p) => {
            crate::polynomial::lemma_eval_poly_bounded(p.coefficients@, x);
        },
        Height1::Interp(it) => {
            crate::polynomial::lemma_eval_interp_bounded(it.points@, x, it.points@.len());
        },
        Height1::Union(u) => {
            lemma_eval_list_max_bounded(u.funcs@, x);
        },
        Height1::Intersection(s) => {
            lemma_eval_list_min_bounded(s.funcs@, x);
        },
        Height1::Linear(_) => {},
    }
}

/// The running maximum stays inside the saturation range.
pub proof fn lemma_eval_list_max_bounded(s: Seq<Height1>, x: int)
    ensures
        -(MAX_RAW as int) <= eval_list_max(s, x) <= MAX_RAW as int,
    decreases s,
{
    if s.len() > 0 {
        lemma_eval_list_max_bounded(s.subrange(0, s.len() - 1), x);
        lemma_eval1_bounded(s[s.len() - 1], x);
    }
}

/// The running minimum stays inside the saturation range.
pub proof fn lemma_eval_list_min_bounded(s: Seq<Height1>, x: int)
    ensures
        -(MAX_RAW as int) <= eval_list_min(s, x) <= MAX_RAW as int,
    decreases s,
{
    if s.len() > 0 {
        lemma_eval_list_min_bounded(s.subrange(0, s.len() - 1), x);
        lemma_eval1_bounded(s[s.len() - 1], x);
    }
}

/// Every two-dimensional evaluation stays inside the saturation range.
pub proof fn lemma_eval2_bounded(h: Height2, x: int, y: int)
    ensures
        -(MAX_RAW as int) <= eval2(h, x, y) <= MAX_RAW as int,
    decreases h,
{
    match h {
        Height2::Product(_) => {},
        Height2::Complement(_) => {},
        Height2::Revolution(r) => {
            lemma_eval1_bounded(r.cross_section, radius_v(r.metric, center_v(x), center_v(y)));
        },
        Height2::Solver(s) => {
            crate::laplace::lemma_solver_sum_bounded(s, x, y, s.terms as nat);
        },
        Height2::Hill(_) => {
            crate::surfaces::lemma_sine_hill_bounded(x, y);
        },
    }
}

} // verus!
