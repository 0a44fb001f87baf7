//! The two-dimensional complement combinator: `1 - f(x, y)`.

use crate::fixed::{sub_v, Fx, MAX_RAW, SCALE};
use crate::heights::{eval2, lemma_eval2_bounded, Height2};
use vstd::prelude::*;

verus! {

/// Subtracts the child field from one, turning hills into craters.
#[derive(Debug)]
pub struct Complement2D {
    pub func: Box<Height2>,
}

impl Complement2D {
    pub fn new(func: Height2) -> (r: Complement2D)
        ensures
            *r.func == func,
    {
        Complement2D { func: Box::new(func) }
    }

    pub fn compute(&self, x: Fx, y: Fx) -> (r: Fx)
        ensures
            r@ == sub_v(SCALE as int, eval2(*self.func, x@, y@)),
        decreases *self,
    {
        Fx::one().sub(self.func.compute(x, y))
    }
}

/// The complement returns one minus the child's value; the subtraction is
/// exact wherever the child's value lies above `1 - MAX`, which covers
/// everything but the saturated bottom of the range.
pub proof fn lemma_complement_value(c: Complement2D, x: int, y: int)
    ensures
        eval2(Height2::Complement(c), x, y) == sub_v(SCALE as int, eval2(*c.func, x, y)),
        eval2(*c.func, x, y) >= SCALE as int - MAX_RAW as int ==> eval2(
            Height2::Complement(c),
            x,
            y,
        ) == SCALE as int - eval2(*c.func, x, y),
{
    lemma_eval2_bounded(*c.func, x, y);
}

/// Complementing twice gives the child field back, for every child value
/// above `1 - MAX`; at the saturated bottom of the range the inner
/// subtraction clips and the round trip cannot be exact.
pub proof fn lemma_double_complement(outer: Complement2D, inner: Complement2D, x: int, y: int)
    requires
        *outer.func == Height2::Complement(inner),
        eval2(*inner.func, x, y) >= SCALE as int - MAX_RAW as int,
    ensures
        eval2(Height2::Complement(outer), x, y) == eval2(*inner.func, x, y),
{
    lemma_eval2_bounded(*inner.func, x, y);
    assert(eval2(Height2::Complement(inner), x, y) == sub_v(
        SCALE as int,
        eval2(*inner.func, x, y),
    ));
    assert(eval2(Height2::Complement(outer), x, y) == sub_v(
        SCALE as int,
        eval2(Height2::Complement(inner), x, y),
    ));
}

} // verus!
