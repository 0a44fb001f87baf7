use sliceform_surfaces::combine::ProductSurface;
use sliceform_surfaces::csg1d::{Intersection1D, Union1D};
use sliceform_surfaces::csg2d::Complement2D;
use sliceform_surfaces::fixed::{Fx, MAX_RAW, SCALE};
use sliceform_surfaces::height1d::{get_primitive, HeightFunction1D, PrimitiveKind};
use sliceform_surfaces::heights::{Height1, Height2};
use sliceform_surfaces::polynomial::{Interpolation, Polynomial};
use sliceform_surfaces::xforms1d::Linear1D;
use sliceform_surfaces::ConfigError;

fn fx(raw: i64) -> Fx {
    Fx::from_raw(raw)
}

fn poly(coeffs: &[i64]) -> Height1 {
    Height1::Poly(Polynomial::new(coeffs.iter().map(|&c| fx(c)).collect()))
}

#[test]
fn polynomial_exact_values() {
    // 0.5 - 1.4 x + 6.7 x^2 - 5.5 x^3
    let p = Polynomial::new(vec![fx(500_000), fx(-1_400_000), fx(6_700_000), fx(-5_500_000)]);
    assert_eq!(p.compute(fx(0)).raw, 500_000);
    assert_eq!(p.compute(fx(1_000_000)).raw, 300_000);
}

#[test]
fn polynomial_empty_is_zero() {
    let p = Polynomial::new(vec![]);
    assert_eq!(p.compute(fx(123_456)).raw, 0);
}

#[test]
fn union_pair_computes_pointwise_max() {
    let a = poly(&[200_000, 1_000_000]);
    let b = poly(&[800_000, -1_000_000]);
    for raw in [-2_000_000i64, -300_000, 0, 250_000, 300_000, 999_999, 2_500_000] {
        let x = fx(raw);
        let va = a.compute(x).raw;
        let vb = b.compute(x).raw;
        let u = Union1D::new(poly(&[200_000, 1_000_000]), poly(&[800_000, -1_000_000]));
        assert_eq!(u.compute(x).raw, va.max(vb));
    }
}

#[test]
fn intersection_pair_computes_pointwise_min() {
    let a = poly(&[200_000, 1_000_000]);
    let b = poly(&[800_000, -1_000_000]);
    for raw in [-2_000_000i64, 0, 250_000, 300_000, 1_500_000] {
        let x = fx(raw);
        let va = a.compute(x).raw;
        let vb = b.compute(x).raw;
        let s = Intersection1D::new(poly(&[200_000, 1_000_000]), poly(&[800_000, -1_000_000]));
        assert_eq!(s.compute(x).raw, va.min(vb));
    }
}

#[test]
fn union_of_nothing_is_minus_infinity_stand_in() {
    let u = Union1D::many(vec![]);
    assert_eq!(u.compute(fx(0)).raw, -MAX_RAW);
    let s = Intersection1D::many(vec![]);
    assert_eq!(s.compute(fx(0)).raw, MAX_RAW);
}

#[test]
fn union_many_takes_the_largest() {
    let u = Union1D::many(vec![poly(&[100_000]), poly(&[900_000]), poly(&[400_000])]);
    assert_eq!(u.compute(fx(777)).raw, 900_000);
}

fn product(cx: &[i64], cy: &[i64]) -> Height2 {
    Height2::Product(ProductSurface::new(poly(cx), poly(cy)))
}

#[test]
fn complement_subtracts_from_one() {
    let f = product(&[300_000], &[1_000_000]);
    let c = Height2::Complement(Complement2D::new(product(&[300_000], &[1_000_000])));
    for (xr, yr) in [(0i64, 0i64), (500_000, 250_000), (1_000_000, 1_000_000)] {
        let v = f.compute(fx(xr), fx(yr)).raw;
        let w = c.compute(fx(xr), fx(yr)).raw;
        assert_eq!(w, SCALE - v);
    }
}

#[test]
fn double_complement_returns_the_field() {
    let f = product(&[300_000, 400_000], &[1_000_000]);
    let cc = Height2::Complement(Complement2D::new(Height2::Complement(Complement2D::new(
        product(&[300_000, 400_000], &[1_000_000]),
    ))));
    for (xr, yr) in [(0i64, 0i64), (250_000, 750_000), (1_000_000, 500_000), (-400_000, 66_000)] {
        assert_eq!(cc.compute(fx(xr), fx(yr)).raw, f.compute(fx(xr), fx(yr)).raw);
    }
}

#[test]
fn clamped_evaluation_is_idempotent() {
    let f = product(&[-2_000_000, 5_000_000], &[1_000_000]);
    for (xr, yr) in [(0i64, 0i64), (200_000, 900_000), (1_000_000, 0), (750_000, 250_000)] {
        let once = f.compute_clamped(fx(xr), fx(yr));
        assert!(once.raw >= 0 && once.raw <= SCALE);
        let twice = once.clamp01();
        assert_eq!(twice.raw, once.raw);
    }
}

#[test]
fn clamp_leaves_unit_interval_values_alone() {
    for raw in [0i64, 1, 499_999, 999_999, 1_000_000] {
        assert_eq!(fx(raw).clamp01().raw, raw);
    }
    assert_eq!(fx(-5).clamp01().raw, 0);
    assert_eq!(fx(1_000_001).clamp01().raw, SCALE);
}

#[test]
fn primitive_lookup_knows_its_names() {
    assert_eq!(get_primitive("peak").unwrap().kind, PrimitiveKind::Peak);
    assert_eq!(get_primitive("sin").unwrap().kind, PrimitiveKind::Sine);
    assert_eq!(get_primitive("bell").unwrap().kind, PrimitiveKind::Bell);
    assert_eq!(get_primitive("sinc").unwrap().kind, PrimitiveKind::Sinc);
    assert_eq!(get_primitive("ridge").unwrap_err(), ConfigError::UnknownPrimitive);
    assert_eq!(get_primitive("").unwrap_err(), ConfigError::UnknownPrimitive);
}

#[test]
fn primitive_values_at_zero() {
    let peak = HeightFunction1D::new(PrimitiveKind::Peak);
    let bell = HeightFunction1D::new(PrimitiveKind::Bell);
    let sine = HeightFunction1D::new(PrimitiveKind::Sine);
    let sinc = HeightFunction1D::new(PrimitiveKind::Sinc);
    assert_eq!(peak.compute(fx(0)).raw, SCALE);
    assert_eq!(bell.compute(fx(0)).raw, SCALE);
    assert_eq!(sine.compute(fx(0)).raw, 0);
    assert_eq!(sinc.compute(fx(0)).raw, SCALE);
}

#[test]
fn primitive_values_match_the_real_functions_closely() {
    let tol = 50i64;  // 5e-5 in real units
    let peak = HeightFunction1D::new(PrimitiveKind::Peak);
    let got = peak.compute(fx(1_000_000)).raw as f64 / 1e6;
    assert!((got - (-1.0f64).exp()).abs() < tol as f64 / 1e6);
    let bell = HeightFunction1D::new(PrimitiveKind::Bell);
    let got = bell.compute(fx(500_000)).raw as f64 / 1e6;
    assert!((got - (-0.25f64).exp()).abs() < tol as f64 / 1e6);
    let sine = HeightFunction1D::new(PrimitiveKind::Sine);
    let got = sine.compute(fx(1_570_796)).raw as f64 / 1e6;
    assert!((got - 1.0).abs() < tol as f64 / 1e6);
    let got = sine.compute(fx(-1_570_796)).raw as f64 / 1e6;
    assert!((got + 1.0).abs() < tol as f64 / 1e6);
    let sinc = HeightFunction1D::new(PrimitiveKind::Sinc);
    let got = sinc.compute(fx(2_000_000)).raw as f64 / 1e6;
    assert!((got - (2.0f64).sin() / 2.0).abs() < tol as f64 / 1e6);
}

#[test]
fn linear_reparametrisation_exact() {
    // f(x) = x, wrapped as 3 * f(2x + 0.5) + 1
    let lin = Linear1D::new(poly(&[0, 1_000_000]), fx(2_000_000), fx(500_000), fx(3_000_000), fx(
        1_000_000,
    ));
    let h = Height1::Linear(Box::new(lin));
    // x = 0.25: inner 1.0, result 4.0
    assert_eq!(h.compute(fx(250_000)).raw, 4_000_000);
    // x = 0: inner 0.5, result 2.5
    assert_eq!(h.compute(fx(0)).raw, 2_500_000);
}

#[test]
fn linear_identity_changes_nothing() {
    let lin = Linear1D::identity(poly(&[123_000, -456_000]));
    let h = Height1::Linear(Box::new(lin));
    let direct = poly(&[123_000, -456_000]);
    for raw in [-1_000_000i64, 0, 333_333, 1_000_000] {
        assert_eq!(h.compute(fx(raw)).raw, direct.compute(fx(raw)).raw);
    }
}

#[test]
fn interpolation_passes_through_two_points() {
    // the line through (0, 0) and (1, 1)
    let it = Interpolation::new(vec![(fx(0), fx(0)), (fx(1_000_000), fx(1_000_000))]);
    assert_eq!(it.compute(fx(0)).raw, 0);
    assert_eq!(it.compute(fx(1_000_000)).raw, 1_000_000);
    assert_eq!(it.compute(fx(500_000)).raw, 500_000);
}

#[test]
fn interpolation_with_repeated_abscissas_stays_total() {
    let it = Interpolation::new(vec![(fx(0), fx(100_000)), (fx(0), fx(900_000))]);
    // a repeated control x saturates the offending ratio instead of failing
    let _ = it.compute(fx(250_000));
}

#[test]
fn saturation_stands_in_for_infinity() {
    let top = fx(MAX_RAW);
    assert_eq!(top.add(fx(1)).raw, MAX_RAW);
    assert_eq!(top.neg().raw, -MAX_RAW);
    assert_eq!(fx(1_000_000).div(fx(0)).raw, MAX_RAW);
    assert_eq!(fx(-1_000_000).div(fx(0)).raw, -MAX_RAW);
    assert_eq!(fx(0).div(fx(0)).raw, 0);
}

#[test]
fn fixed_point_roots_and_products() {
    assert_eq!(fx(2_250_000).sqrt().raw, 1_500_000);
    assert_eq!(fx(-4).sqrt().raw, 0);
    assert_eq!(fx(500_000).mul(fx(500_000)).raw, 250_000);
    assert_eq!(fx(1_000_000).div(fx(4_000_000)).raw, 250_000);
    assert_eq!(Fx::from_int(3).raw, 3_000_000);
    assert_eq!(Fx::one().raw, SCALE);
    assert_eq!(Fx::zero().raw, 0);
}
