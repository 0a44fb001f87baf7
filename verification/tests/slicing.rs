use sliceform_surfaces::combine::ProductSurface;
use sliceform_surfaces::fixed::{Fx, MAX_RAW};
use sliceform_surfaces::geom::Vec2;
use sliceform_surfaces::heights::{Height1, Height2};
use sliceform_surfaces::polylines::{BBox, Polyline, Slice};
use sliceform_surfaces::polynomial::Polynomial;
use sliceform_surfaces::slicer::Slicer;

fn fx(raw: i64) -> Fx {
    Fx::from_raw(raw)
}

fn poly(coeffs: &[i64]) -> Height1 {
    Height1::Poly(Polynomial::new(coeffs.iter().map(|&c| fx(c)).collect()))
}

fn flat_half() -> Height2 {
    // the constant field 0.5
    Height2::Product(ProductSurface::new(poly(&[500_000]), poly(&[1_000_000])))
}

#[test]
fn bbox_grows_to_cover_points() {
    let mut b = BBox::new();
    assert_eq!(b.left.raw, MAX_RAW);
    b.add_point(&Vec2(fx(200_000), fx(-100_000)));
    b.add_point(&Vec2(fx(-300_000), fx(700_000)));
    assert_eq!(b.left.raw, -300_000);
    assert_eq!(b.right.raw, 200_000);
    assert_eq!(b.bottom.raw, -100_000);
    assert_eq!(b.top.raw, 700_000);
    assert_eq!(b.width().raw, 500_000);
    assert_eq!(b.height().raw, 800_000);
}

#[test]
fn bbox_outline_is_a_closed_rectangle() {
    let mut b = BBox::new();
    b.add_point(&Vec2(fx(0), fx(0)));
    b.add_point(&Vec2(fx(1_000_000), fx(2_000_000)));
    let o = b.get_outline();
    assert_eq!(o.vertices.len(), 5);
    assert_eq!((o.vertices[0].0.raw, o.vertices[0].1.raw), (0, 0));
    assert_eq!((o.vertices[2].0.raw, o.vertices[2].1.raw), (1_000_000, 2_000_000));
    assert_eq!((o.vertices[4].0.raw, o.vertices[4].1.raw), (0, 0));
}

#[test]
fn polyline_new_closes_on_request() {
    let pts = vec![Vec2(fx(1), fx(2)), Vec2(fx(3), fx(4))];
    let open = Polyline::new(&pts, false);
    assert_eq!(open.vertices.len(), 2);
    let closed = Polyline::new(&pts, true);
    assert_eq!(closed.vertices.len(), 3);
    assert_eq!(closed.vertices[2].0.raw, 1);
}

#[test]
fn polyline_scale_and_translate_act_pointwise() {
    let pts = vec![Vec2(fx(100_000), fx(200_000)), Vec2(fx(-400_000), fx(0))];
    let line = Polyline::new(&pts, false);
    let scaled = line.scale(fx(2_000_000));
    assert_eq!((scaled.vertices[0].0.raw, scaled.vertices[0].1.raw), (200_000, 400_000));
    assert_eq!((scaled.vertices[1].0.raw, scaled.vertices[1].1.raw), (-800_000, 0));
    let moved = line.translate(Vec2(fx(50_000), fx(-50_000)));
    assert_eq!((moved.vertices[0].0.raw, moved.vertices[0].1.raw), (150_000, 150_000));
    assert_eq!((moved.vertices[1].0.raw, moved.vertices[1].1.raw), (-350_000, -50_000));
}

#[test]
fn polyline_bbox_folds_every_vertex() {
    let pts = vec![
        Vec2(fx(100_000), fx(900_000)),
        Vec2(fx(-200_000), fx(300_000)),
        Vec2(fx(700_000), fx(-100_000)),
    ];
    let line = Polyline::new(&pts, false);
    let b = line.get_bbox();
    assert_eq!(b.left.raw, -200_000);
    assert_eq!(b.right.raw, 700_000);
    assert_eq!(b.bottom.raw, -100_000);
    assert_eq!(b.top.raw, 900_000);
}

#[test]
fn slice_transforms_carry_outline_and_slits() {
    let outline = Polyline::new(&vec![Vec2(fx(0), fx(0)), Vec2(fx(1_000_000), fx(0))], false);
    let slit = Polyline::new(&vec![Vec2(fx(500_000), fx(500_000)), Vec2(fx(500_000), fx(250_000))], false);
    let s = Slice::new(outline, vec![slit]);
    let moved = s.translate(Vec2(fx(10_000), fx(20_000)));
    assert_eq!(moved.outline.vertices[1].0.raw, 1_010_000);
    assert_eq!(moved.slits[0].vertices[0].1.raw, 520_000);
    let scaled = s.scale(fx(500_000));
    assert_eq!(scaled.outline.vertices[1].0.raw, 500_000);
    assert_eq!(scaled.slits[0].vertices[1].1.raw, 125_000);
}

#[test]
fn slicer_produces_the_expected_slice_count() {
    // bisection depth d puts 2^(d+1) - 1 sample lines in the interval
    let s = Slicer::new(2, 3, flat_half());
    let xs = s.make_x_slices();
    assert_eq!(xs.len(), 7);
    let ys = s.make_y_slices();
    assert_eq!(ys.len(), 7);
}

#[test]
fn x_slice_outline_follows_the_clipped_surface() {
    let s = Slicer::new(1, 2, flat_half());
    let xs = s.make_x_slices();
    assert_eq!(xs.len(), 3);
    let slice = &xs[0];
    // curve samples: 7 interior + 2 endpoints; outline adds 2 base corners
    // and the closing repeat
    assert_eq!(slice.outline.vertices.len(), 9 + 3);
    // base corners first
    assert_eq!((slice.outline.vertices[0].0.raw, slice.outline.vertices[0].1.raw), (0, 0));
    assert_eq!(
        (slice.outline.vertices[1].0.raw, slice.outline.vertices[1].1.raw),
        (1_000_000, 0)
    );
    // the curve is walked in descending x, so vertex 2 sits at x = 1
    assert_eq!(slice.outline.vertices[2].0.raw, 1_000_000);
    // the flat field holds 0.5 everywhere
    assert_eq!(slice.outline.vertices[2].1.raw, 500_000);
    // closed
    let last = slice.outline.vertices.last().unwrap();
    assert_eq!((last.0.raw, last.1.raw), (0, 0));
    // one slit per sample line, dropping from the surface to half height
    assert_eq!(slice.slits.len(), 3);
    for slit in &slice.slits {
        assert_eq!(slit.vertices.len(), 2);
        assert_eq!(slit.vertices[0].1.raw, 500_000);
        assert_eq!(slit.vertices[1].1.raw, 250_000);
        assert_eq!(slit.vertices[0].0.raw, slit.vertices[1].0.raw);
    }
}

#[test]
fn y_slice_slits_rise_from_the_base() {
    let s = Slicer::new(1, 1, flat_half());
    let ys = s.make_y_slices();
    let slice = &ys[1];
    // slits start on the base line and rise to half height
    for slit in &slice.slits {
        assert_eq!(slit.vertices[0].1.raw, 0);
        assert_eq!(slit.vertices[1].1.raw, 250_000);
    }
    // the midline slice samples y = 0.5, plotted at x = 1 - y = 0.5
    assert_eq!(slice.slits[1].vertices[0].0.raw, 500_000);
}
