//! Combinators that build a surface from cross-sections: the product of two
//! one-dimensional fields, and surfaces of revolution under three metrics.

use crate::fixed::{abs_v, add_v, max_v, mul_v, sqrt_v, sub_v, Fx, SCALE};
use crate::heights::{eval1, eval2, Height1, Height2};
use vstd::prelude::*;

verus! {

/// `fx(x) * fy(y)`: a separable surface.
#[derive(Debug)]
pub struct ProductSurface {
    pub x_func: Height1,
    pub y_func: Height1,
}

impl ProductSurface {
    pub fn new(x_func: Height1, y_func: Height1) -> (r: ProductSurface)
        ensures
            r.x_func == x_func,
            r.y_func == y_func,
    {
        ProductSurface { x_func, y_func }
    }

    pub fn compute(&self, x: Fx, y: Fx) -> (r: Fx)
        ensures
            r@ == mul_v(eval1(self.x_func, x@), eval1(self.y_func, y@)),
    {
        let vx = self.x_func.compute(x);
        let vy = self.y_func.compute(y);
        vx.mul(vy)
    }
}

/// How the distance from the centre is measured.
#[derive(Clone, Copy, PartialEq, Eq, Structural, Debug)]
pub enum DistanceMetric {
    /// `|x| + |y|`: level sets are diamonds.
    Manhattan,
    /// `sqrt(x^2 + y^2)`: level sets are circles.
    Euclidean,
    /// `max(|x|, |y|)`: level sets are squares.
    Chessboard,
}

/// Map a unit-square coordinate onto `[-1, 1]` about the centre.
pub open spec fn center_v(v: int) -> int {
    sub_v(mul_v(2 * SCALE as int, v), SCALE as int)
}

/// The distance of a centred point from the origin, per metric.
pub open spec fn radius_v(m: DistanceMetric, cx: int, cy: int) -> int {
    match m {
        DistanceMetric::Manhattan => add_v(abs_v(cx), abs_v(cy)),
        DistanceMetric::Euclidean => sqrt_v(add_v(mul_v(cx, cx), mul_v(cy, cy))),
        DistanceMetric::Chessboard => max_v(abs_v(cx), abs_v(cy)),
    }
}

/// `2 v - 1`: the unit square recentred on the origin.
pub fn to_centered(v: Fx) -> (r: Fx)
    ensures
        r@ == center_v(v@),
{
    Fx { raw: 2 * SCALE }.mul(v).sub(Fx::one())
}

/// The metric distance of a centred point from the origin.
pub fn metric_radius(m: &DistanceMetric, cx: Fx, cy: Fx) -> (r: Fx)
    ensures
        r@ == radius_v(*m, cx@, cy@),
{
    match m {
        DistanceMetric::Manhattan => cx.abs().add(cy.abs()),
        DistanceMetric::Euclidean => cx.mul(cx).add(cy.mul(cy)).sqrt(),
        DistanceMetric::Chessboard => cx.abs().max(cy.abs()),
    }
}

/// A cross-section swept around the centre of the unit square; the metric
/// decides the shape of the level sets.
#[derive(Debug)]
pub struct SurfaceOfRevolution {
    pub cross_section: Height1,
    pub metric: DistanceMetric,
}

impl SurfaceOfRevolution {
    pub fn new(cross_section: Height1, metric: DistanceMetric) -> (r: SurfaceOfRevolution)
        ensures
            r.cross_section == cross_section,
            r.metric == metric,
    {
        SurfaceOfRevolution { cross_section, metric }
    }

    pub fn compute(&self, x: Fx, y: Fx) -> (r: Fx)
        ensures
            r@ == eval1(self.cross_section, radius_v(self.metric, center_v(x@), center_v(y@))),
    {
        let cx = to_centered(x);
        let cy = to_centered(y);
        let radius = metric_radius(&self.metric, cx, cy);
        self.cross_section.compute(radius)
    }
}

/// A surface of revolution depends on the query point only through its
/// centred radius: two points at equal radius get equal heights, whatever
/// the angle between them.
pub proof fn lemma_revolution_radial(s: SurfaceOfRevolution, x1: int, y1: int, x2: int, y2: int)
    requires
        radius_v(s.metric, center_v(x1), center_v(y1)) == radius_v(
            s.metric,
            center_v(x2),
            center_v(y2),
        ),
    ensures
        eval2(Height2::Revolution(s), x1, y1) == eval2(Height2::Revolution(s), x2, y2),
{
}

} // verus!
