//! Primitive one-dimensional height functions and their name lookup.

use crate::approx::{exp_v, lemma_exp_v_bounds, lemma_sin_v_bounds, sin_v};
use crate::fixed::{abs_v, div_v, mul_v, neg_v, Fx, MAX_RAW, SCALE};
use crate::ConfigError;
use vstd::prelude::*;

verus! {

/// The closed catalogue of primitive cross-section shapes.
#[derive(Clone, Copy, PartialEq, Eq, Structural, Debug)]
pub enum PrimitiveKind {
    /// `exp(-|x|)`: a ridge with a sharp crest.
    Peak,
    /// `sin(x)`.
    Sine,
    /// `exp(-x^2)`: the Gaussian bell.
    Bell,
    /// `sin(x)/x`, with the removable hole at zero filled by one.
    Sinc,
}

/// The value of a primitive at `x`, in raw fixed-point units.
pub open spec fn eval_primitive(k: PrimitiveKind, x: int) -> int {
    match k {
        PrimitiveKind::Peak => exp_v(neg_v(abs_v(x))),
        PrimitiveKind::Sine => sin_v(x),
        PrimitiveKind::Bell => exp_v(neg_v(mul_v(x, x))),
        PrimitiveKind::Sinc => if x == 0 {
            SCALE as int
        } else {
            div_v(sin_v(x), x)
        },
    }
}

/// Primitive values stay inside the saturation range.
pub proof fn lemma_eval_primitive_bounded(k: PrimitiveKind, x: int)
    ensures
        -(MAX_RAW as int) <= eval_primitive(k, x) <= MAX_RAW as int,
{
    match k {
        PrimitiveKind::Peak => {
            lemma_exp_v_bounds(neg_v(abs_v(x)));
        },
        PrimitiveKind::Sine => {
            lemma_sin_v_bounds(x);
        },
        PrimitiveKind::Bell => {
            lemma_exp_v_bounds(neg_v(mul_v(x, x)));
        },
        PrimitiveKind::Sinc => {},
    }
}

/// A leaf field that applies one primitive shape.
#[derive(Debug)]
pub struct HeightFunction1D {
    pub kind: PrimitiveKind,
}

impl HeightFunction1D {
    pub fn new(kind: PrimitiveKind) -> (r: HeightFunction1D)
        ensures
            r.kind == kind,
    {
        HeightFunction1D { kind }
    }

    pub fn compute(&self, x: Fx) -> (r: Fx)
        ensures
            r@ == eval_primitive(self.kind, x@),
    {
        match self.kind {
            PrimitiveKind::Peak => crate::approx::exp_fx(x.abs().neg()),
            PrimitiveKind::Sine => crate::approx::sin_fx(x),
            PrimitiveKind::Bell => crate::approx::exp_fx(x.mul(x).neg()),
            PrimitiveKind::Sinc => {
                if x.raw == 0 {
                    Fx::one()
                } else {
                    crate::approx::sin_fx(x).div(x)
                }
            },
        }
    }
}

/// String equality through owned copies, for the name lookup.
fn str_eq(a: &str, b: &str) -> (r: bool)
    ensures
        r == (a@ == b@),
{
    let x: String = a.to_owned();
    let y: String = b.to_owned();
    x == y
}

/// Look a primitive up by name; an unknown name is a configuration error,
/// reported at construction time rather than during evaluation.
pub fn get_primitive(name: &str) -> (r: Result<HeightFunction1D, ConfigError>)
    ensures
        name@ == "peak"@ ==> r == Ok::<HeightFunction1D, ConfigError>(
            HeightFunction1D { kind: PrimitiveKind::Peak },
        ),
        name@ == "sin"@ ==> r == Ok::<HeightFunction1D, ConfigError>(
            HeightFunction1D { kind: PrimitiveKind::Sine },
        ),
        name@ == "bell"@ ==> r == Ok::<HeightFunction1D, ConfigError>(
            HeightFunction1D { kind: PrimitiveKind::Bell },
        ),
        name@ == "sinc"@ ==> r == Ok::<HeightFunction1D, ConfigError>(
            HeightFunction1D { kind: PrimitiveKind::Sinc },
        ),
        !(name@ == "peak"@ || name@ == "sin"@ || name@ == "bell"@ || name@ == "sinc"@) ==> r
            == Err::<HeightFunction1D, ConfigError>(ConfigError::UnknownPrimitive),
{
    proof {
        reveal_strlit("peak");
        reveal_strlit("sin");
        reveal_strlit("bell");
        reveal_strlit("sinc");
        assert("peak"@.len() == 4 && "sin"@.len() == 3 && "bell"@.len() == 4 && "sinc"@.len() == 4);
        assert("peak"@[0] == 'p' && "bell"@[0] == 'b' && "sinc"@[0] == 's');
    }
    if str_eq(name, "peak") {
        Ok(HeightFunction1D { kind: PrimitiveKind::Peak })
    } else if str_eq(name, "sin") {
        Ok(HeightFunction1D { kind: PrimitiveKind::Sine })
    } else if str_eq(name, "bell") {
        Ok(HeightFunction1D { kind: PrimitiveKind::Bell })
    } else if str_eq(name, "sinc") {
        Ok(HeightFunction1D { kind: PrimitiveKind::Sinc })
    } else {
        Err(ConfigError::UnknownPrimitive)
    }
}

} // verus!
