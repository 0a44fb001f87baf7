//! Affine reparametrisation of a one-dimensional field:
//! `post_scale * f(pre_scale * x + pre_shift) + post_shift`.

use crate::fixed::{add_v, mul_v, Fx};
use crate::heights::{eval1, Height1};
use vstd::prelude::*;

verus! {

/// A child field wrapped in an affine change of input and output.
#[derive(Debug)]
pub struct Linear1D {
    pub pre_scale: Fx,
    pub pre_shift: Fx,
    pub post_scale: Fx,
    pub post_shift: Fx,
    pub func: Height1,
}

impl Linear1D {
    pub fn new(func: Height1, pre_scale: Fx, pre_shift: Fx, post_scale: Fx, post_shift: Fx) -> (r:
        Linear1D)
        ensures
            r.func == func,
            r.pre_scale == pre_scale,
            r.pre_shift == pre_shift,
            r.post_scale == post_scale,
            r.post_shift == post_shift,
    {
        Linear1D { pre_scale, pre_shift, post_scale, post_shift, func }
    }

    /// The identity reparametrisation: scales of one, shifts of zero.
    pub fn identity(func: Height1) -> (r: Linear1D)
        ensures
            r.func == func,
            r.pre_scale@ == crate::fixed::SCALE as int,
            r.pre_shift@ == 0,
            r.post_scale@ == crate::fixed::SCALE as int,
            r.post_shift@ == 0,
    {
        Linear1D {
            pre_scale: Fx::one(),
            pre_shift: Fx::zero(),
            post_scale: Fx::one(),
            post_shift: Fx::zero(),
            func,
        }
    }

    /// Reparametrise the input only.
    pub fn pre(func: Height1, scale: Fx, shift: Fx) -> (r: Linear1D)
        ensures
            r.func == func,
            r.pre_scale == scale,
            r.pre_shift == shift,
            r.post_scale@ == crate::fixed::SCALE as int,
            r.post_shift@ == 0,
    {
        Linear1D {
            pre_scale: scale,
            pre_shift: shift,
            post_scale: Fx::one(),
            post_shift: Fx::zero(),
            func,
        }
    }

    /// Rescale the output only.
    pub fn post(func: Height1, scale: Fx, shift: Fx) -> (r: Linear1D)
        ensures
            r.func == func,
            r.pre_scale@ == crate::fixed::SCALE as int,
            r.pre_shift@ == 0,
            r.post_scale == scale,
            r.post_shift == shift,
    {
        Linear1D {
            pre_scale: Fx::one(),
            pre_shift: Fx::zero(),
            post_scale: scale,
            post_shift: shift,
            func,
        }
    }

    pub fn compute(&self, x: Fx) -> (r: Fx)
        ensures
            r@ == add_v(
                mul_v(
                    self.post_scale@,
                    eval1(self.func, add_v(mul_v(self.pre_scale@, x@), self.pre_shift@)),
                ),
                self.post_shift@,
            ),
        decreases *self,
    {
        let pre = self.pre_scale.mul(x).add(self.pre_shift);
        let val = self.func.compute(pre);
        self.post_scale.mul(val).add(self.post_shift)
    }
}

} // verus!
