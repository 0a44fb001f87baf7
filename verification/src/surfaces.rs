//! A ready-made two-dimensional surface: a sine wave along `x` shaped by a
//! Gaussian hill along `y`.

use crate::approx::{exp_fx, exp_v, sin_fx, sin_v, TWO_PI_RAW};
use crate::fixed::{add_v, mul_v, neg_v, sub_v, Fx, MAX_RAW};
use vstd::prelude::*;

verus! {

/// Wave frequency along `x`, in cycles per unit (1.58).
pub const SINE_FREQ_RAW: i64 = 1_580_000;

/// Phase offset of the wave, in radians (2.0).
pub const SINE_PHASE_RAW: i64 = 2_000_000;

/// Sharpness of the Gaussian hill along `y` (6.0).
pub const SHARPNESS_RAW: i64 = 6_000_000;

/// `(0.5 + 0.25 sin(2 pi freq x - phase)) * exp(-sharpness (y - 0.5)^2)`.
pub open spec fn sine_hill_v(x: int, y: int) -> int {
    let angle = sub_v(
        mul_v(mul_v(TWO_PI_RAW as int, SINE_FREQ_RAW as int), x),
        SINE_PHASE_RAW as int,
    );
    let sine = add_v(500_000, mul_v(250_000, sin_v(angle)));
    let shifted = sub_v(y, 500_000);
    let hill = exp_v(neg_v(mul_v(mul_v(SHARPNESS_RAW as int, shifted), shifted)));
    mul_v(sine, hill)
}

/// The sine hill stays inside the saturation range.
pub proof fn lemma_sine_hill_bounded(x: int, y: int)
    ensures
        -(MAX_RAW as int) <= sine_hill_v(x, y) <= MAX_RAW as int,
{
}

/// A sine wave along `x` under a Gaussian hill along `y`.
#[derive(Debug)]
pub struct SineHill {}

impl SineHill {
    pub fn new() -> (r: SineHill)
        ensures
            r == (SineHill {  }),
    {
        SineHill {  }
    }

    pub fn compute(&self, x: Fx, y: Fx) -> (r: Fx)
        ensures
            r@ == sine_hill_v(x@, y@),
    {
        let angle = Fx { raw: TWO_PI_RAW }.mul(Fx { raw: SINE_FREQ_RAW }).mul(x).sub(
            Fx { raw: SINE_PHASE_RAW },
        );
        let sine = Fx { raw: 500_000 }.add(Fx { raw: 250_000 }.mul(sin_fx(angle)));
        let shifted = y.sub(Fx { raw: 500_000 });
        let hill = exp_fx(Fx { raw: SHARPNESS_RAW }.mul(shifted).mul(shifted).neg());
        sine.mul(hill)
    }
}

} // verus!
