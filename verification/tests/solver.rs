use sliceform_surfaces::combine::{DistanceMetric, SurfaceOfRevolution};
use sliceform_surfaces::fixed::Fx;
use sliceform_surfaces::heights::{Height1, Height2};
use sliceform_surfaces::laplace::LaplaceSolver;
use sliceform_surfaces::polynomial::Polynomial;
use sliceform_surfaces::ConfigError;

fn fx(raw: i64) -> Fx {
    Fx::from_raw(raw)
}

fn poly(coeffs: &[i64]) -> Height1 {
    Height1::Poly(Polynomial::new(coeffs.iter().map(|&c| fx(c)).collect()))
}

fn zero_boundary() -> Height1 {
    poly(&[])
}

#[test]
fn solver_rejects_zero_resolution() {
    let r = LaplaceSolver::new(zero_boundary(), zero_boundary(), zero_boundary(), zero_boundary(), 4, 0);
    assert_eq!(r.unwrap_err(), ConfigError::ZeroResolution);
}

#[test]
fn solver_accepts_positive_resolution() {
    let r = LaplaceSolver::new(zero_boundary(), zero_boundary(), zero_boundary(), zero_boundary(), 4, 8);
    assert!(r.is_ok());
}

#[test]
fn zero_boundaries_give_the_zero_field() {
    let s = LaplaceSolver::new(
        zero_boundary(),
        zero_boundary(),
        zero_boundary(),
        zero_boundary(),
        5,
        16,
    )
    .unwrap();
    for (xr, yr) in [
        (0i64, 0i64),
        (250_000, 250_000),
        (500_000, 500_000),
        (750_000, 125_000),
        (1_000_000, 1_000_000),
    ] {
        assert_eq!(s.compute(fx(xr), fx(yr)).raw, 0);
    }
}

#[test]
fn zero_terms_give_the_zero_field_whatever_the_boundaries() {
    let s = LaplaceSolver::new(
        poly(&[1_000_000]),
        poly(&[500_000, 500_000]),
        poly(&[250_000]),
        poly(&[750_000]),
        0,
        16,
    )
    .unwrap();
    for (xr, yr) in [(0i64, 0i64), (330_000, 670_000), (900_000, 100_000)] {
        assert_eq!(s.compute(fx(xr), fx(yr)).raw, 0);
    }
}

#[test]
fn constant_boundary_lifts_the_interior() {
    // with the bottom edge held at one and the rest at zero, the interior
    // near the bottom must sit clearly above the interior near the top
    let s = LaplaceSolver::new(
        poly(&[1_000_000]),
        zero_boundary(),
        zero_boundary(),
        zero_boundary(),
        7,
        32,
    )
    .unwrap();
    let near_bottom = s.compute(fx(500_000), fx(100_000)).raw;
    let near_top = s.compute(fx(500_000), fx(900_000)).raw;
    assert!(near_bottom > near_top);
    assert!(near_bottom > 500_000);
    assert!(near_top < 500_000);
}

#[test]
fn euclidean_revolution_is_radially_symmetric() {
    // the crater profile swept with the circular metric
    let rev = Height2::Revolution(SurfaceOfRevolution::new(
        poly(&[500_000, -1_400_000, 6_700_000, -5_500_000]),
        DistanceMetric::Euclidean,
    ));
    // five points whose centred coordinates all have radius 0.5
    let at = |xr: i64, yr: i64| rev.compute(fx(xr), fx(yr)).raw;
    let reference = at(1_000_000, 500_000);  // centred (1.0, 0) scaled: radius 1.0? no: centred (1.0, 0): radius 1.0
    let r1 = at(750_000, 500_000);  // centred (0.5, 0)
    let r2 = at(500_000, 750_000);  // centred (0, 0.5)
    let r3 = at(250_000, 500_000);  // centred (-0.5, 0)
    let r4 = at(500_000, 250_000);  // centred (0, -0.5)
    let r5 = at(650_000, 700_000);  // centred (0.3, 0.4): the 3-4-5 radius 0.5
    assert_eq!(r1, r2);
    assert_eq!(r1, r3);
    assert_eq!(r1, r4);
    assert_eq!(r1, r5);
    // a different radius gives a genuinely different height
    assert_ne!(r1, reference);
}

#[test]
fn metric_radii_feed_the_cross_section() {
    // with the identity cross-section the surface reports the radius itself
    let identity = || poly(&[0, 1_000_000]);
    let man = Height2::Revolution(SurfaceOfRevolution::new(identity(), DistanceMetric::Manhattan));
    let euc = Height2::Revolution(SurfaceOfRevolution::new(identity(), DistanceMetric::Euclidean));
    let che = Height2::Revolution(SurfaceOfRevolution::new(identity(), DistanceMetric::Chessboard));
    // the corner (1, 1) has centred coordinates (1, 1)
    assert_eq!(man.compute(fx(1_000_000), fx(1_000_000)).raw, 2_000_000);
    assert_eq!(che.compute(fx(1_000_000), fx(1_000_000)).raw, 1_000_000);
    let diag = euc.compute(fx(1_000_000), fx(1_000_000)).raw;
    assert!((diag as f64 / 1e6 - 2.0f64.sqrt()).abs() < 1e-5);
    // centred (0.3, 0.4)
    assert_eq!(man.compute(fx(650_000), fx(700_000)).raw, 700_000);
    assert_eq!(euc.compute(fx(650_000), fx(700_000)).raw, 500_000);
    assert_eq!(che.compute(fx(650_000), fx(700_000)).raw, 400_000);
}
