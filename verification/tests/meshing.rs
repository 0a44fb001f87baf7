use sliceform_surfaces::combine::ProductSurface;
use sliceform_surfaces::fixed::Fx;
use sliceform_surfaces::geom::{Triangle, Vec3};
use sliceform_surfaces::heights::{Height1, Height2};
use sliceform_surfaces::mesh::{Face, Mesh};
use sliceform_surfaces::polynomial::Polynomial;
use sliceform_surfaces::preview::SurfacePreview;
use sliceform_surfaces::surfaces::SineHill;
use sliceform_surfaces::ConfigError;

fn fx(raw: i64) -> Fx {
    Fx::from_raw(raw)
}

fn poly(coeffs: &[i64]) -> Height1 {
    Height1::Poly(Polynomial::new(coeffs.iter().map(|&c| fx(c)).collect()))
}

fn zero_field() -> Height2 {
    Height2::Product(ProductSurface::new(poly(&[]), poly(&[])))
}

#[test]
fn degenerate_grids_are_rejected() {
    assert_eq!(
        SurfacePreview::new(1, 4, 4, zero_field()).unwrap_err(),
        ConfigError::DegenerateGrid
    );
    assert_eq!(
        SurfacePreview::new(4, 0, 4, zero_field()).unwrap_err(),
        ConfigError::DegenerateGrid
    );
    assert_eq!(
        SurfacePreview::new(4, 4, 1, zero_field()).unwrap_err(),
        ConfigError::DegenerateGrid
    );
    assert!(SurfacePreview::new(2, 2, 2, zero_field()).is_ok());
}

#[test]
fn zero_field_four_cube_is_a_closed_solid() {
    let mut p = SurfacePreview::new(4, 4, 4, zero_field()).unwrap();
    p.generate_mesh();
    // no face-slot grid contains an unpopulated entry after generation
    assert!(p.slots_populated());
    // every edge is shared by exactly two triangles
    assert!(p.mesh.is_watertight());
    // the exact geometry budget of a 4x4x4 box
    assert_eq!(p.mesh.vertices.len(), 2 * 16 + 2 * (3 * 2) + 2 * (3 * 2));
    assert_eq!(p.mesh.faces.len(), 4 * 9 + 4 * 9 + 4 * 9);
    assert_eq!(p.mesh.normals.len(), 2 * 9 + 5);
}

#[test]
fn smallest_box_is_a_closed_solid() {
    let mut p = SurfacePreview::new(2, 2, 2, zero_field()).unwrap();
    p.generate_mesh();
    assert!(p.slots_populated());
    assert!(p.mesh.is_watertight());
    assert_eq!(p.mesh.vertices.len(), 8);
    assert_eq!(p.mesh.faces.len(), 12);
}

#[test]
fn shaped_field_still_closes_solid() {
    let mut p = SurfacePreview::new(5, 3, 4, Height2::Hill(SineHill::new())).unwrap();
    p.generate_mesh();
    assert!(p.slots_populated());
    assert!(p.mesh.is_watertight());
    assert_eq!(p.mesh.vertices.len(), 2 * 15 + 2 * (4 * 2) + 2 * (2 * 2));
}

#[test]
fn top_and_bottom_vertices_sit_at_the_sample_points() {
    let mut p = SurfacePreview::new(2, 2, 3, Height2::Hill(SineHill::new())).unwrap();
    p.generate_mesh();
    // the first four vertices sample the clipped field over the grid
    let field = Height2::Hill(SineHill::new());
    for (k, (i, j)) in [(0usize, (0i64, 0i64)), (1, (1, 0)), (2, (0, 1)), (3, (1, 1))] {
        let v = p.mesh.vertices[k];
        assert_eq!(v.0.raw, i * 1_000_000);
        assert_eq!(v.1.raw, j * 1_000_000);
        let expected = field.compute_clamped(fx(i * 1_000_000), fx(j * 1_000_000));
        assert_eq!(v.2.raw, expected.raw);
    }
    // the next four lay the flat plate, y mirrored
    for (k, (i, j)) in [(4usize, (0i64, 0i64)), (5, (1, 0)), (6, (0, 1)), (7, (1, 1))] {
        let v = p.mesh.vertices[k];
        assert_eq!(v.0.raw, i * 1_000_000);
        assert_eq!(v.1.raw, (1 - j) * 1_000_000);
        assert_eq!(v.2.raw, 0);
    }
    // and the slot grids point exactly at them
    assert_eq!(p.top[0], Some(0));
    assert_eq!(p.top[3], Some(3));
    assert_eq!(p.bottom[0], Some(4));
    assert_eq!(p.bottom[3], Some(7));
}

#[test]
fn fresh_builder_has_empty_slots() {
    let p = SurfacePreview::new(3, 3, 3, zero_field()).unwrap();
    assert!(!p.slots_populated());
    assert_eq!(p.mesh.vertices.len(), 0);
}

#[test]
fn mesh_appends_report_their_indices() {
    let mut m = Mesh::new();
    assert_eq!(m.add_vertex(Vec3(fx(0), fx(0), fx(0))), 0);
    assert_eq!(m.add_vertex(Vec3(fx(1_000_000), fx(0), fx(0))), 1);
    assert_eq!(m.add_vertex(Vec3(fx(0), fx(1_000_000), fx(0))), 2);
    assert_eq!(m.add_normal(Vec3(fx(0), fx(0), fx(1_000_000))), 0);
    m.add_face(Face::new(0, 1, 2, 0));
    assert_eq!(m.faces.len(), 1);
    assert_eq!(m.faces[0].v2, 1);
    assert_eq!(m.faces[0].normal, 0);
}

#[test]
fn add_triangle_computes_a_unit_normal() {
    let mut m = Mesh::new();
    m.add_vertex(Vec3(fx(0), fx(0), fx(0)));
    m.add_vertex(Vec3(fx(1_000_000), fx(0), fx(0)));
    m.add_vertex(Vec3(fx(0), fx(1_000_000), fx(0)));
    m.add_triangle(0, 1, 2);
    assert_eq!(m.normals.len(), 1);
    let n = m.normals[0];
    assert_eq!((n.0.raw, n.1.raw, n.2.raw), (0, 0, 1_000_000));
    assert_eq!(m.faces.len(), 1);
}

#[test]
fn one_triangle_is_not_watertight() {
    let mut m = Mesh::new();
    m.add_vertex(Vec3(fx(0), fx(0), fx(0)));
    m.add_vertex(Vec3(fx(1_000_000), fx(0), fx(0)));
    m.add_vertex(Vec3(fx(0), fx(1_000_000), fx(0)));
    m.add_triangle(0, 1, 2);
    assert!(!m.is_watertight());
    // an empty mesh is vacuously closed
    assert!(Mesh::new().is_watertight());
}

#[test]
fn cross_product_follows_the_determinant() {
    let a = Vec3(fx(1_000_000), fx(0), fx(0));
    let b = Vec3(fx(0), fx(1_000_000), fx(0));
    let c = a.cross(&b);
    assert_eq!((c.0.raw, c.1.raw, c.2.raw), (0, 0, 1_000_000));
    let d = b.cross(&a);
    assert_eq!((d.0.raw, d.1.raw, d.2.raw), (0, 0, -1_000_000));
}

#[test]
fn triangle_normal_is_the_edge_cross_product() {
    let t = Triangle(
        Vec3(fx(0), fx(0), fx(0)),
        Vec3(fx(2_000_000), fx(0), fx(0)),
        Vec3(fx(0), fx(2_000_000), fx(0)),
    );
    let n = t.compute_normal();
    assert_eq!((n.0.raw, n.1.raw, n.2.raw), (0, 0, 4_000_000));
    let unit = n.normalize();
    assert_eq!((unit.0.raw, unit.1.raw, unit.2.raw), (0, 0, 1_000_000));
}

#[test]
fn normalize_leaves_the_zero_vector_alone() {
    let z = Vec3(fx(0), fx(0), fx(0)).normalize();
    assert_eq!((z.0.raw, z.1.raw, z.2.raw), (0, 0, 0));
}
