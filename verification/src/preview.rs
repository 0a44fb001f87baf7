//! The box-topology mesh builder.
//!
//! A clamped field is extruded into a closed solid with six stitched faces.
//! Each logical face owns a slot grid mapping a grid coordinate to a vertex
//! index once created. Boundary rows and corner columns of the side faces
//! alias vertex indices already created for their neighbours instead of
//! creating duplicates: shared edges share exact vertex identities, which
//! is what keeps the solid watertight. Population runs strictly before
//! triangulation; the contracts prove that triangulation never reads an
//! empty slot.

use crate::fixed::{clamp01_v, div_v, sat, Fx, SCALE};
use crate::geom::Vec3;
use crate::heights::{eval2, Height2};
use crate::mesh::{Face, Mesh};
use crate::ConfigError;
use vstd::arithmetic::div_mod::{
    lemma_fundamental_div_mod, lemma_mod_pos_bound,
};
use vstd::prelude::*;

verus! {

/// The flat index of grid coordinate `(i, j)` in a grid of row width `w`.
pub open spec fn idx2(i: int, j: int, w: int) -> int {
    j * w + i
}

/// Every slot with `i0 <= i < i1` and `j0 <= j < j1` is filled with a
/// valid vertex index.
pub open spec fn region_filled(
    g: Seq<Option<usize>>,
    w: int,
    i0: int,
    i1: int,
    j0: int,
    j1: int,
    nverts: int,
) -> bool {
    forall|i: int, j: int|
        i0 <= i < i1 && j0 <= j < j1 ==> {
            &&& (#[trigger] g[idx2(i, j, w)]) is Some
            &&& g[idx2(i, j, w)]->0 < nverts
        }
}

/// Every slot with flat index in `[lo, hi)` is filled with a valid vertex
/// index; rows of a grid occupy contiguous flat ranges.
pub open spec fn range_filled(g: Seq<Option<usize>>, lo: int, hi: int, nverts: int) -> bool {
    forall|k: int|
        lo <= k < hi ==> {
            &&& (#[trigger] g[k]) is Some
            &&& g[k]->0 < nverts
        }
}

/// Every filled slot holds a valid vertex index.
pub open spec fn grid_ok(g: Seq<Option<usize>>, nverts: int) -> bool {
    forall|k: int| 0 <= k < g.len() ==> ((#[trigger] g[k]) is Some ==> g[k]->0 < nverts)
}

/// Every slot is filled.
pub open spec fn grid_full(g: Seq<Option<usize>>) -> bool {
    forall|k: int| 0 <= k < g.len() ==> (#[trigger] g[k]) is Some
}

/// Every slot is still empty.
pub open spec fn grid_empty(g: Seq<Option<usize>>) -> bool {
    forall|k: int| 0 <= k < g.len() ==> (#[trigger] g[k]) is None
}

/// The new grid differs from the old only by filling slots with valid
/// vertex indices: nothing is erased and nothing invalid is written.
pub open spec fn only_filled(
    old_g: Seq<Option<usize>>,
    new_g: Seq<Option<usize>>,
    nverts: int,
) -> bool {
    &&& new_g.len() == old_g.len()
    &&& forall|k: int|
        0 <= k < new_g.len() ==> ((#[trigger] new_g[k]) == old_g[k] || (new_g[k] is Some
            && new_g[k]->0 < nverts))
}

/// Filling only filled slots keeps a grid's validity, even as the vertex
/// list grows.
pub proof fn lemma_only_filled_ok(
    old_g: Seq<Option<usize>>,
    new_g: Seq<Option<usize>>,
    old_n: int,
    new_n: int,
)
    requires
        only_filled(old_g, new_g, new_n),
        grid_ok(old_g, old_n),
        old_n <= new_n,
    ensures
        grid_ok(new_g, new_n),
{
    assert forall|k: int| 0 <= k < new_g.len() && (#[trigger] new_g[k]) is Some implies new_g[k]->0
        < new_n by {
        if new_g[k] == old_g[k] {
            assert(old_g[k] is Some);
        }
    }
}

/// A grid full in one coordinate region after another pass that only
/// filled slots is still full there.
pub proof fn lemma_region_kept(
    old_g: Seq<Option<usize>>,
    new_g: Seq<Option<usize>>,
    w: int,
    i0: int,
    i1: int,
    j0: int,
    j1: int,
    old_n: int,
    new_n: int,
)
    requires
        only_filled(old_g, new_g, new_n),
        region_filled(old_g, w, i0, i1, j0, j1, old_n),
        old_n <= new_n,
        forall|i: int, j: int|
            i0 <= i < i1 && j0 <= j < j1 ==> 0 <= #[trigger] idx2(i, j, w) < old_g.len(),
    ensures
        region_filled(new_g, w, i0, i1, j0, j1, new_n),
{
    assert forall|i: int, j: int| i0 <= i < i1 && j0 <= j < j1 implies {
        &&& (#[trigger] new_g[idx2(i, j, w)]) is Some
        &&& new_g[idx2(i, j, w)]->0 < new_n
    } by {
        let k = idx2(i, j, w);
        assert(old_g[k] is Some && old_g[k]->0 < old_n);
        if new_g[k] == old_g[k] {
        }
    }
}

/// Valid slots stay valid as the vertex list grows.
pub proof fn lemma_grid_ok_monotone(g: Seq<Option<usize>>, n1: int, n2: int)
    requires
        grid_ok(g, n1),
        n1 <= n2,
    ensures
        grid_ok(g, n2),
{
    assert forall|k: int| 0 <= k < g.len() && (#[trigger] g[k]) is Some implies g[k]->0 < n2 by {
        assert(g[k]->0 < n1);
    }
}

/// A flat range full before a pass that only filled slots is still full.
pub proof fn lemma_range_kept(
    old_g: Seq<Option<usize>>,
    new_g: Seq<Option<usize>>,
    lo: int,
    hi: int,
    old_n: int,
    new_n: int,
)
    requires
        only_filled(old_g, new_g, new_n),
        range_filled(old_g, lo, hi, old_n),
        0 <= lo,
        hi <= old_g.len(),
        old_n <= new_n,
    ensures
        range_filled(new_g, lo, hi, new_n),
{
    assert forall|k: int| lo <= k < hi implies {
        &&& (#[trigger] new_g[k]) is Some
        &&& new_g[k]->0 < new_n
    } by {
        assert(old_g[k] is Some && old_g[k]->0 < old_n);
    }
}

/// Every flat index of a coordinate region is inside the grid.
pub proof fn lemma_region_bounds(w: int, p: int, i0: int, i1: int, j0: int, j1: int, len: int)
    requires
        0 <= i0,
        i1 <= w,
        0 <= j0,
        j1 <= p,
        len == w * p,
        w >= 1,
        p >= 1,
    ensures
        forall|i: int, j: int| i0 <= i < i1 && j0 <= j < j1 ==> 0 <= #[trigger] idx2(i, j, w) < len,
{
    assert forall|i: int, j: int| i0 <= i < i1 && j0 <= j < j1 implies 0 <= #[trigger] idx2(
        i,
        j,
        w,
    ) < len by {
        assert(0 <= j * w + i && j * w + i < w * p) by (nonlinear_arith)
            requires
                0 <= i < w,
                0 <= j < p,
                w >= 1,
                p >= 1,
        ;
        assert(idx2(i, j, w) == j * w + i);
    }
}

/// Two passes that only fill slots compose into one.
pub proof fn lemma_only_filled_trans(
    a: Seq<Option<usize>>,
    b: Seq<Option<usize>>,
    c: Seq<Option<usize>>,
    n1: int,
    n2: int,
)
    requires
        only_filled(a, b, n1),
        only_filled(b, c, n2),
        n1 <= n2,
    ensures
        only_filled(a, c, n2),
{
    assert forall|k: int| 0 <= k < c.len() implies ((#[trigger] c[k]) == a[k] || (c[k] is Some
        && c[k]->0 < n2)) by {
        if c[k] == b[k] {
            assert(b[k] == a[k] || (b[k] is Some && b[k]->0 < n1));
        }
    }
}

/// A grid whose single region covers every coordinate is full.
pub proof fn lemma_full_from_region(g: Seq<Option<usize>>, w: int, d2: int, nverts: int)
    requires
        w >= 1,
        d2 >= 1,
        g.len() == w * d2,
        region_filled(g, w, 0, w, 0, d2, nverts),
    ensures
        grid_full(g),
{
    assert forall|k: int| 0 <= k < g.len() implies (#[trigger] g[k]) is Some by {
        let i = k % w;
        let j = k / w;
        lemma_fundamental_div_mod(k, w);
        lemma_mod_pos_bound(k, w);
        assert(0 <= i < w);
        assert(j >= 0) by (nonlinear_arith)
            requires
                k >= 0,
                w >= 1,
                k == w * j + i,
                0 <= i < w,
        ;
        assert(j < d2) by (nonlinear_arith)
            requires
                k < w * d2,
                w >= 1,
                k == w * j + i,
                0 <= i < w,
        ;
        assert(w * j == j * w) by (nonlinear_arith);
        assert(k == idx2(i, j, w));
        assert(g[idx2(i, j, w)] is Some);
    }
}

/// A grid full over a flat prefix covering every slot is full as a region.
pub proof fn lemma_region_from_flat(g: Seq<Option<usize>>, w: int, d2: int, n1: int, n2: int)
    requires
        w >= 1,
        d2 >= 1,
        g.len() == w * d2,
        range_filled(g, 0, w * d2, n1),
        n1 <= n2,
    ensures
        region_filled(g, w, 0, w, 0, d2, n2),
        grid_full(g),
{
    assert forall|i: int, j: int| 0 <= i < w && 0 <= j < d2 implies {
        &&& (#[trigger] g[idx2(i, j, w)]) is Some
        &&& g[idx2(i, j, w)]->0 < n2
    } by {
        assert(0 <= j * w + i < w * d2) by (nonlinear_arith)
            requires
                0 <= i < w,
                0 <= j < d2,
                w >= 1,
                d2 >= 1,
        ;
        assert(idx2(i, j, w) == j * w + i);
    }
    lemma_full_from_region(g, w, d2, n2);
}

/// A side-face grid is full once its two boundary rows, its interior
/// columns and its final corner column are all filled.
pub proof fn lemma_side_grid_full(g: Seq<Option<usize>>, w: int, p: int, n: int)
    requires
        2 <= w,
        2 <= p,
        g.len() == w * p,
        range_filled(g, 0, w, n),
        range_filled(g, (p - 1) * w, p * w, n),
        region_filled(g, w, 0, w - 1, 1, p - 1, n),
        region_filled(g, w, w - 1, w, 1, p - 1, n),
    ensures
        region_filled(g, w, 0, w, 0, p, n),
        grid_full(g),
{
    assert forall|i: int, j: int| 0 <= i < w && 0 <= j < p implies {
        &&& (#[trigger] g[idx2(i, j, w)]) is Some
        &&& g[idx2(i, j, w)]->0 < n
    } by {
        assert(idx2(i, j, w) == j * w + i);
        if j == 0 {
            assert(j * w + i == i);
        } else if j == p - 1 {
            assert((p - 1) * w <= j * w + i < p * w) by (nonlinear_arith)
                requires
                    j == p - 1,
                    0 <= i < w,
                    w >= 1,
            ;
        } else {
            if i < w - 1 {
            } else {
                assert(i == w - 1);
            }
        }
    }
    lemma_full_from_region(g, w, p, n);
}

/// Extrudes one clamped field into a watertight box-topology solid.
#[derive(Debug)]
pub struct SurfacePreview {
    /// The geometry being accumulated.
    pub mesh: Mesh,
    /// Samples along `x`.
    pub width: usize,
    /// Samples along `y`.
    pub length: usize,
    /// Samples along `z`, the extrusion direction.
    pub height: usize,
    /// Slot grids, one per logical face of the solid.
    pub top: Vec<Option<usize>>,
    pub bottom: Vec<Option<usize>>,
    pub front: Vec<Option<usize>>,
    pub right: Vec<Option<usize>>,
    pub back: Vec<Option<usize>>,
    pub left: Vec<Option<usize>>,
    /// The field being extruded.
    pub surf: Height2,
}

/// The parametric coordinate of sample `i` out of `max`: `i / (max - 1)`.
pub open spec fn coord_v(i: int, max: int) -> int {
    div_v(sat(i * SCALE as int), sat((max - 1) * SCALE as int))
}

/// The top-face vertex at grid coordinate `(i, j)`: the clipped field
/// value over the sample point.
pub open spec fn top_sample(surf: Height2, i: int, j: int, w: int, l: int) -> Vec3 {
    let x = coord_v(i, w);
    let y = coord_v(j, l);
    Vec3(
        Fx { raw: x as i64 },
        Fx { raw: y as i64 },
        Fx { raw: clamp01_v(eval2(surf, x, y)) as i64 },
    )
}

/// The bottom-face vertex at grid coordinate `(i, j)`: the flat plate at
/// `z = 0`, with `y` mirrored to preserve outward winding.
pub open spec fn bottom_sample(i: int, j: int, w: int, l: int) -> Vec3 {
    Vec3(Fx { raw: coord_v(i, w) as i64 }, Fx { raw: coord_v(l - 1 - j, l) as i64 }, Fx { raw: 0 })
}

impl SurfacePreview {
    /// Grid sizes are small enough that every flat index fits comfortably.
    pub open spec fn dims_ok(&self) -> bool {
        &&& 2 <= self.width <= 4096
        &&& 2 <= self.length <= 4096
        &&& 2 <= self.height <= 4096
    }

    /// Each slot grid has one slot per grid coordinate of its face.
    pub open spec fn grids_sized(&self) -> bool {
        &&& self.top@.len() == self.width * self.length
        &&& self.bottom@.len() == self.width * self.length
        &&& self.front@.len() == self.width * self.height
        &&& self.right@.len() == self.length * self.height
        &&& self.back@.len() == self.width * self.height
        &&& self.left@.len() == self.length * self.height
    }

    pub open spec fn nverts(&self) -> int {
        self.mesh.vertices@.len() as int
    }

    /// The standing invariant: sane dimensions, matching grid sizes, a
    /// well-formed mesh, and no dangling vertex index in any slot.
    pub open spec fn wf(&self) -> bool {
        &&& self.dims_ok()
        &&& self.grids_sized()
        &&& self.mesh.wf()
        &&& grid_ok(self.top@, self.nverts())
        &&& grid_ok(self.bottom@, self.nverts())
        &&& grid_ok(self.front@, self.nverts())
        &&& grid_ok(self.right@, self.nverts())
        &&& grid_ok(self.back@, self.nverts())
        &&& grid_ok(self.left@, self.nverts())
    }

    /// The state `new` leaves behind: an empty mesh and empty grids.
    pub open spec fn fresh(&self) -> bool {
        &&& self.mesh.vertices@.len() == 0
        &&& self.mesh.normals@.len() == 0
        &&& self.mesh.faces@.len() == 0
        &&& grid_empty(self.top@)
        &&& grid_empty(self.bottom@)
        &&& grid_empty(self.front@)
        &&& grid_empty(self.right@)
        &&& grid_empty(self.back@)
        &&& grid_empty(self.left@)
    }

    /// No slot grid contains an unpopulated entry.
    pub open spec fn fully_populated(&self) -> bool {
        &&& grid_full(self.top@)
        &&& grid_full(self.bottom@)
        &&& grid_full(self.front@)
        &&& grid_full(self.right@)
        &&& grid_full(self.back@)
        &&& grid_full(self.left@)
    }

    /// Allocate an empty `w * h` grid of vertex slots.
    fn allocate_slots(w: usize, h: usize) -> (r: Vec<Option<usize>>)
        requires
            w <= 4096,
            h <= 4096,
        ensures
            r@.len() == w * h,
            grid_empty(r@),
    {
        proof {
            assert(w * h <= 4096 * 4096) by (nonlinear_arith)
                requires
                    0 <= w <= 4096,
                    0 <= h <= 4096,
            ;
        }
        let n = w * h;
        let mut v: Vec<Option<usize>> = Vec::new();
        let mut k: usize = 0;
        while k < n
            invariant
                0 <= k <= n,
                v@.len() == k,
                grid_empty(v@),
            decreases n - k,
        {
            v.push(None);
            k = k + 1;
        }
        v
    }

    /// Build a fresh builder. A grid with fewer than two samples along
    /// some axis cannot even address its boundary rows (its coordinate
    /// step would divide by zero), so it is rejected here.
    pub fn new(m: usize, n: usize, p: usize, surf: Height2) -> (r: Result<
        SurfacePreview,
        ConfigError,
    >)
        requires
            m <= 4096,
            n <= 4096,
            p <= 4096,
        ensures
            (m < 2 || n < 2 || p < 2) ==> r == Err::<SurfacePreview, ConfigError>(
                ConfigError::DegenerateGrid,
            ),
            (m >= 2 && n >= 2 && p >= 2) ==> {
                &&& r is Ok
                &&& r->Ok_0.width == m
                &&& r->Ok_0.length == n
                &&& r->Ok_0.height == p
                &&& r->Ok_0.surf == surf
                &&& r->Ok_0.wf()
                &&& r->Ok_0.fresh()
            },
    {
        if m < 2 || n < 2 || p < 2 {
            Err(ConfigError::DegenerateGrid)
        } else {
            Ok(
                SurfacePreview {
                    mesh: Mesh::new(),
                    width: m,
                    length: n,
                    height: p,
                    top: Self::allocate_slots(m, n),
                    bottom: Self::allocate_slots(m, n),
                    front: Self::allocate_slots(m, p),
                    right: Self::allocate_slots(n, p),
                    back: Self::allocate_slots(m, p),
                    left: Self::allocate_slots(n, p),
                    surf,
                },
            )
        }
    }

    /// The parametric coordinate of sample `i` out of `max`.
    fn to_coordinate(i: usize, max: usize) -> (r: Fx)
        requires
            i <= 4096,
            2 <= max <= 4096,
        ensures
            r@ == coord_v(i as int, max as int),
    {
        Fx::from_int(i as i64).div(Fx::from_int(max as i64 - 1))
    }

    /// Create the interior vertices of one side-face column: at extrusion
    /// step `j` the vertex sits at `(x, y, (j / (p-1)) * h)`, interpolating
    /// between the flat bottom and the field's boundary value.
    fn fill_side_column(
        mesh: &mut Mesh,
        grid: &mut Vec<Option<usize>>,
        grid_w: usize,
        col: usize,
        p: usize,
        x: Fx,
        y: Fx,
        h: Fx,
    )
        requires
            old(mesh).wf(),
            old(grid)@.len() == grid_w * p,
            col < grid_w,
            2 <= grid_w <= 4096,
            2 <= p <= 4096,
        ensures
            final(mesh).wf(),
            final(mesh).normals@ == old(mesh).normals@,
            final(mesh).faces@ == old(mesh).faces@,
            final(mesh).vertices@.len() == old(mesh).vertices@.len() + (p - 2),
            forall|k: int|
                0 <= k < old(mesh).vertices@.len() ==> #[trigger] final(mesh).vertices@[k] == old(
                    mesh,
                ).vertices@[k],
            final(grid)@.len() == old(grid)@.len(),
            only_filled(old(grid)@, final(grid)@, final(mesh).vertices@.len() as int),
            region_filled(
                final(grid)@,
                grid_w as int,
                col as int,
                col + 1,
                1,
                (p - 1) as int,
                final(mesh).vertices@.len() as int,
            ),
    {
        let mut j: usize = 1;
        while j < p - 1
            invariant
                1 <= j <= p - 1,
                col < grid_w,
                2 <= grid_w <= 4096,
                2 <= p <= 4096,
                mesh.wf(),
                mesh.normals@ == old(mesh).normals@,
                mesh.faces@ == old(mesh).faces@,
                mesh.vertices@.len() == old(mesh).vertices@.len() + (j - 1),
                forall|k: int|
                    0 <= k < old(mesh).vertices@.len() ==> #[trigger] mesh.vertices@[k] == old(
                        mesh,
                    ).vertices@[k],
                grid@.len() == grid_w * p,
                only_filled(old(grid)@, grid@, mesh.vertices@.len() as int),
                region_filled(
                    grid@,
                    grid_w as int,
                    col as int,
                    col + 1,
                    1,
                    j as int,
                    mesh.vertices@.len() as int,
                ),
            decreases p - 1 - j,
        {
            proof {
                assert(j * grid_w + col < grid_w * p && grid_w * p <= 16777216) by (
                nonlinear_arith)
                    requires
                        0 <= j < p,
                        col < grid_w,
                        grid_w <= 4096,
                        p <= 4096,
                ;
            }
            let ghost pre_grid = grid@;
            let ghost pre_nv = mesh.vertices@.len() as int;
            let factor = Self::to_coordinate(j, p);
            let z = factor.mul(h);
            let vertex = Vec3(x, y, z);
            let vi = mesh.add_vertex(vertex);
            grid.set(j * grid_w + col, Some(vi));
            proof {
                let w = grid_w as int;
                let c = col as int;
                let k0 = (j as int) * w + c;
                let nv = mesh.vertices@.len() as int;
                assert forall|i2: int, j2: int| c <= i2 < c + 1 && 1 <= j2 < j as int + 1 implies {
                    &&& (#[trigger] grid@[idx2(i2, j2, w)]) is Some
                    &&& grid@[idx2(i2, j2, w)]->0 < nv
                } by {
                    assert(0 <= j2 * w + i2 && j2 * w + i2 < w * (p as int)) by (nonlinear_arith)
                        requires
                            0 <= c <= i2 < c + 1,
                            1 <= j2 < p as int,
                            c < w,
                            0 < w,
                    ;
                    assert(idx2(i2, j2, w) == j2 * w + i2);
                    if j2 == j as int {
                        assert(idx2(i2, j2, w) == k0);
                    } else {
                        assert(pre_grid[idx2(i2, j2, w)] is Some && pre_grid[idx2(i2, j2, w)]->0
                            < pre_nv);
                        if idx2(i2, j2, w) != k0 {
                            assert(grid@[idx2(i2, j2, w)] == pre_grid[idx2(i2, j2, w)]);
                        }
                    }
                }
                assert forall|k: int| 0 <= k < grid@.len() implies ((#[trigger] grid@[k])
                    == old(grid)@[k] || (grid@[k] is Some && grid@[k]->0 < nv)) by {
                    if k != k0 {
                        assert(grid@[k] == pre_grid[k]);
                    }
                }
            }
            j = j + 1;
        }
    }

    /// Alias one column of a destination grid to an existing column of a
    /// source grid: a shared cube edge reuses the same vertices instead of
    /// creating duplicates.
    fn copy_column(
        dst: &mut Vec<Option<usize>>,
        dst_w: usize,
        dst_col: usize,
        src: &Vec<Option<usize>>,
        src_w: usize,
        src_col: usize,
        p: usize,
        Ghost(nv): Ghost<int>,
    )
        requires
            old(dst)@.len() == dst_w * p,
            src@.len() == src_w * p,
            dst_col < dst_w,
            src_col < src_w,
            2 <= dst_w <= 4096,
            2 <= src_w <= 4096,
            2 <= p <= 4096,
            region_filled(src@, src_w as int, src_col as int, src_col + 1, 1, (p - 1) as int, nv),
        ensures
            final(dst)@.len() == old(dst)@.len(),
            only_filled(old(dst)@, final(dst)@, nv),
            region_filled(
                final(dst)@,
                dst_w as int,
                dst_col as int,
                dst_col + 1,
                1,
                (p - 1) as int,
                nv,
            ),
            forall|j: int|
                1 <= j < (p - 1) as int ==> final(dst)@[#[trigger] idx2(
                    dst_col as int,
                    j,
                    dst_w as int,
                )] == src@[idx2(src_col as int, j, src_w as int)],
    {
        let mut j: usize = 1;
        while j < p - 1
            invariant
                1 <= j <= p - 1,
                dst_col < dst_w,
                src_col < src_w,
                2 <= dst_w <= 4096,
                2 <= src_w <= 4096,
                2 <= p <= 4096,
                dst@.len() == dst_w * p,
                src@.len() == src_w * p,
                region_filled(
                    src@,
                    src_w as int,
                    src_col as int,
                    src_col + 1,
                    1,
                    (p - 1) as int,
                    nv,
                ),
                only_filled(old(dst)@, dst@, nv),
                region_filled(dst@, dst_w as int, dst_col as int, dst_col + 1, 1, j as int, nv),
                forall|j2: int|
                    1 <= j2 < j as int ==> dst@[#[trigger] idx2(dst_col as int, j2, dst_w as int)]
                        == src@[idx2(src_col as int, j2, src_w as int)],
            decreases p - 1 - j,
        {
            proof {
                assert(j * src_w + src_col < src_w * p && j * dst_w + dst_col < dst_w * p
                    && src_w * p <= 16777216 && dst_w * p <= 16777216) by (nonlinear_arith)
                    requires
                        0 <= j < p,
                        src_col < src_w,
                        dst_col < dst_w,
                        src_w <= 4096,
                        dst_w <= 4096,
                        p <= 4096,
                ;
                assert(src@[idx2(src_col as int, j as int, src_w as int)] is Some);
            }
            let ghost pre_dst = dst@;
            let s = src[j * src_w + src_col];
            let v = s.unwrap();
            dst.set(j * dst_w + dst_col, Some(v));
            proof {
                let w = dst_w as int;
                let c = dst_col as int;
                let k0 = (j as int) * w + c;
                assert(src@[idx2(src_col as int, j as int, src_w as int)]->0 < nv);
                assert forall|i2: int, j2: int| c <= i2 < c + 1 && 1 <= j2 < j as int + 1 implies {
                    &&& (#[trigger] dst@[idx2(i2, j2, w)]) is Some
                    &&& dst@[idx2(i2, j2, w)]->0 < nv
                } by {
                    assert(0 <= j2 * w + i2 && j2 * w + i2 < w * (p as int)) by (nonlinear_arith)
                        requires
                            0 <= c <= i2 < c + 1,
                            1 <= j2 < p as int,
                            c < w,
                            0 < w,
                    ;
                    assert(idx2(i2, j2, w) == j2 * w + i2);
                    if j2 == j as int {
                        assert(idx2(i2, j2, w) == k0);
                    } else {
                        assert(pre_dst[idx2(i2, j2, w)] is Some && pre_dst[idx2(i2, j2, w)]->0
                            < nv);
                        if idx2(i2, j2, w) != k0 {
                            assert(dst@[idx2(i2, j2, w)] == pre_dst[idx2(i2, j2, w)]);
                        }
                    }
                }
                assert forall|k: int| 0 <= k < dst@.len() implies ((#[trigger] dst@[k])
                    == old(dst)@[k] || (dst@[k] is Some && dst@[k]->0 < nv)) by {
                    if k != k0 {
                        assert(dst@[k] == pre_dst[k]);
                    }
                }
                assert forall|j2: int| 1 <= j2 < j as int + 1 implies dst@[#[trigger] idx2(
                    c,
                    j2,
                    w,
                )] == src@[idx2(src_col as int, j2, src_w as int)] by {
                    assert(0 <= j2 * w + c && j2 * w + c < w * (p as int)) by (nonlinear_arith)
                        requires
                            0 <= c < w,
                            1 <= j2 < p as int,
                            0 < w,
                    ;
                    assert(idx2(c, j2, w) == j2 * w + c);
                    if j2 == j as int {
                        assert(idx2(c, j2, w) == k0);
                    } else {
                        if idx2(c, j2, w) != k0 {
                            assert(dst@[idx2(c, j2, w)] == pre_dst[idx2(c, j2, w)]);
                        } else {
                            assert((j as int) * w + c == j2 * w + c);
                            assert(false) by (nonlinear_arith)
                                requires
                                    (j as int) * w + c == j2 * w + c,
                                    j2 < j as int,
                                    w > 0,
                            ;
                        }
                    }
                }
            }
            j = j + 1;
        }
    }

    /// Sample the field at full resolution into the top face, then alias
    /// the top boundary row of each side face to the new top-row vertices.
    fn populate_top(&mut self)
        requires
            old(self).wf(),
        ensures
            final(self).wf(),
            final(self).width == old(self).width,
            final(self).length == old(self).length,
            final(self).height == old(self).height,
            final(self).surf == old(self).surf,
            final(self).mesh.normals@ == old(self).mesh.normals@,
            final(self).mesh.faces@ == old(self).mesh.faces@,
            final(self).mesh.vertices@.len() == old(self).mesh.vertices@.len() + old(self).width
                * old(self).length,
            forall|k: int|
                0 <= k < old(self).mesh.vertices@.len() ==> #[trigger] final(self).mesh.vertices@[k]
                    == old(self).mesh.vertices@[k],
            final(self).bottom@ == old(self).bottom@,
            grid_full(final(self).top@),
            range_filled(final(self).top@, 0, old(self).width * old(self).length, final(self).nverts()),
            forall|k: int|
                0 <= k < old(self).width * old(self).length ==> #[trigger] final(self).top@[k]
                    == Some((old(self).mesh.vertices@.len() + k) as usize),
            forall|i: int, j: int|
                0 <= i < old(self).width && 0 <= j < old(self).length
                    ==> final(self).mesh.vertices@[old(self).mesh.vertices@.len() as int
                    + #[trigger] idx2(i, j, old(self).width as int)] == top_sample(
                    old(self).surf,
                    i,
                    j,
                    old(self).width as int,
                    old(self).length as int,
                ),
            only_filled(old(self).front@, final(self).front@, final(self).nverts()),
            only_filled(old(self).right@, final(self).right@, final(self).nverts()),
            only_filled(old(self).back@, final(self).back@, final(self).nverts()),
            only_filled(old(self).left@, final(self).left@, final(self).nverts()),
            range_filled(
                final(self).front@,
                (old(self).height - 1) * old(self).width,
                old(self).height * old(self).width,
                final(self).nverts(),
            ),
            range_filled(
                final(self).back@,
                (old(self).height - 1) * old(self).width,
                old(self).height * old(self).width,
                final(self).nverts(),
            ),
            range_filled(
                final(self).right@,
                (old(self).height - 1) * old(self).length,
                old(self).height * old(self).length,
                final(self).nverts(),
            ),
            range_filled(
                final(self).left@,
                (old(self).height - 1) * old(self).length,
                old(self).height * old(self).length,
                final(self).nverts(),
            ),
            forall|i: int|
                0 <= i < old(self).width ==> #[trigger] final(self).front@[(old(self).height - 1)
                    * old(self).width + i] == final(self).top@[i],
            forall|i: int|
                0 <= i < old(self).width ==> #[trigger] final(self).back@[(old(self).height - 1)
                    * old(self).width + i] == final(self).top@[(old(self).length - 1)
                    * old(self).width + (old(self).width - 1 - i)],
            forall|i: int|
                0 <= i < old(self).length ==> #[trigger] final(self).right@[(old(self).height - 1)
                    * old(self).length + i]
                    == final(self).top@[i * old(self).width + (old(self).width - 1)],
            forall|i: int|
                0 <= i < old(self).length ==> #[trigger] final(self).left@[(old(self).height - 1)
                    * old(self).length + i]
                    == final(self).top@[(old(self).length - 1 - i) * old(self).width],
    {
        let w = self.width;
        let l = self.length;
        let p = self.height;
        let mut j: usize = 0;
        let mut base: usize = 0;
        while j < l
            invariant
                0 <= j <= l,
                base == j * w,
                self.width == w,
                self.length == l,
                self.height == p,
                old(self).width == w,
                old(self).length == l,
                old(self).height == p,
                2 <= w <= 4096,
                2 <= l <= 4096,
                2 <= p <= 4096,
                self.surf == old(self).surf,
                self.top@.len() == w * l,
                self.bottom@ == old(self).bottom@,
                self.front@ == old(self).front@,
                self.right@ == old(self).right@,
                self.back@ == old(self).back@,
                self.left@ == old(self).left@,
                self.mesh.normals@ == old(self).mesh.normals@,
                self.mesh.faces@ == old(self).mesh.faces@,
                self.mesh.wf(),
                self.mesh.vertices@.len() == old(self).mesh.vertices@.len() + j * w,
                forall|k: int|
                    0 <= k < old(self).mesh.vertices@.len() ==> #[trigger] self.mesh.vertices@[k]
                        == old(self).mesh.vertices@[k],
                range_filled(self.top@, 0, base as int, self.nverts()),
                forall|k: int| base <= k < w * l ==> self.top@[k] == old(self).top@[k],
                forall|k: int|
                    0 <= k < base ==> #[trigger] self.top@[k] == Some((old(
                        self,
                    ).mesh.vertices@.len() + k) as usize),
                forall|i2: int, j2: int|
                    0 <= i2 < w && 0 <= j2 < l && idx2(i2, j2, w as int) < base as int
                        ==> self.mesh.vertices@[old(self).mesh.vertices@.len() as int
                        + #[trigger] idx2(i2, j2, w as int)] == top_sample(
                        old(self).surf,
                        i2,
                        j2,
                        w as int,
                        l as int,
                    ),
            decreases l - j,
        {
            let y = Self::to_coordinate(j, l);
            let mut i: usize = 0;
            while i < w
                invariant
                    0 <= i <= w,
                    0 <= j < l,
                    base == j * w,
                    self.width == w,
                    self.length == l,
                    self.height == p,
                    old(self).width == w,
                    old(self).length == l,
                    old(self).height == p,
                    2 <= w <= 4096,
                    2 <= l <= 4096,
                    2 <= p <= 4096,
                    self.surf == old(self).surf,
                    self.top@.len() == w * l,
                    self.bottom@ == old(self).bottom@,
                    self.front@ == old(self).front@,
                    self.right@ == old(self).right@,
                    self.back@ == old(self).back@,
                    self.left@ == old(self).left@,
                    self.mesh.normals@ == old(self).mesh.normals@,
                    self.mesh.faces@ == old(self).mesh.faces@,
                    self.mesh.wf(),
                    self.mesh.vertices@.len() == old(self).mesh.vertices@.len() + j * w + i,
                    forall|k: int|
                        0 <= k < old(self).mesh.vertices@.len() ==> #[trigger] self.mesh.vertices@[k]
                            == old(self).mesh.vertices@[k],
                    y@ == coord_v(j as int, l as int),
                    range_filled(self.top@, 0, base + i, self.nverts()),
                    forall|k: int| base + i <= k < w * l ==> self.top@[k] == old(self).top@[k],
                    forall|k: int|
                        0 <= k < base + i ==> #[trigger] self.top@[k] == Some((old(
                            self,
                        ).mesh.vertices@.len() + k) as usize),
                    forall|i2: int, j2: int|
                        0 <= i2 < w && 0 <= j2 < l && idx2(i2, j2, w as int) < base + i
                            ==> self.mesh.vertices@[old(self).mesh.vertices@.len() as int
                            + #[trigger] idx2(i2, j2, w as int)] == top_sample(
                            old(self).surf,
                            i2,
                            j2,
                            w as int,
                            l as int,
                        ),
                decreases w - i,
            {
                proof {
                    assert(base + i < w * l) by (nonlinear_arith)
                        requires
                            base == j * w,
                            0 <= j < l,
                            0 <= i < w,
                    ;
                }
                let x = Self::to_coordinate(i, w);
                let z = self.surf.compute_clamped(x, y);
                let vertex = Vec3(x, y, z);
                let vertex_index = self.mesh.add_vertex(vertex);
                self.top.set(base + i, Some(vertex_index));
                proof {
                    let oldn = old(self).mesh.vertices@.len() as int;
                    assert(idx2(i as int, j as int, w as int) == base + i);
                    assert(self.mesh.vertices@[oldn + idx2(i as int, j as int, w as int)]
                        == top_sample(old(self).surf, i as int, j as int, w as int, l as int));
                    assert forall|i2: int, j2: int|
                        0 <= i2 < w && 0 <= j2 < l && idx2(i2, j2, w as int) < base + i + 1 implies
                        self.mesh.vertices@[oldn + #[trigger] idx2(i2, j2, w as int)] == top_sample(
                        old(self).surf,
                        i2,
                        j2,
                        w as int,
                        l as int,
                    ) by {
                        if idx2(i2, j2, w as int) == base + i {
                            assert(j2 == j as int && i2 == i as int) by (nonlinear_arith)
                                requires
                                    j2 * (w as int) + i2 == (j as int) * (w as int) + i as int,
                                    0 <= i2 < w as int,
                                    0 <= i as int,
                                    (i as int) < w as int,
                                    0 <= j2,
                                    0 <= j as int,
                            ;
                        } else {
                            assert(0 <= idx2(i2, j2, w as int) < base + i) by (nonlinear_arith)
                                requires
                                    idx2(i2, j2, w as int) == j2 * (w as int) + i2,
                                    idx2(i2, j2, w as int) < base + i + 1,
                                    idx2(i2, j2, w as int) != base + i,
                                    0 <= i2 < w as int,
                                    0 <= j2,
                            ;
                        }
                    }
                }
                i = i + 1;
            }
            proof {
                assert((j + 1) * w == j * w + w) by (nonlinear_arith);
                assert(j * w + w <= 4096 * 4096) by (nonlinear_arith)
                    requires
                        0 <= j < l,
                        l <= 4096,
                        w <= 4096,
                ;
            }
            j = j + 1;
            base = base + w;
        }
        proof {
            assert(base == l * w) by (nonlinear_arith)
                requires
                    base == j * w,
                    j == l,
            ;
            assert(w * l == l * w) by (nonlinear_arith);
        }
        // Alias the top boundary row (j = p - 1) of each side face.
        let ghost mid = self.mesh.vertices@;
        proof {
            assert((p - 1) * w <= 4096 * 4096 && (p - 1) * l <= 4096 * 4096) by (nonlinear_arith)
                requires
                    2 <= p <= 4096,
                    2 <= w <= 4096,
                    2 <= l <= 4096,
            ;
        }
        let front_row: usize = (p - 1) * w;
        let back_row: usize = (p - 1) * w;
        let side_row: usize = (p - 1) * l;
        proof {
            assert(front_row + w == p * w && p * w == self.front@.len()) by (nonlinear_arith)
                requires
                    front_row == (p - 1) * w,
                    self.front@.len() == w * p,
                    2 <= p,
            ;
            assert(side_row + l == p * l && p * l == self.right@.len()) by (nonlinear_arith)
                requires
                    side_row == (p - 1) * l,
                    self.right@.len() == l * p,
                    2 <= p,
            ;
            assert(p * w <= 16777216 && p * l <= 16777216 && w * l <= 16777216 && w <= w * l
                && l <= w * l) by (nonlinear_arith)
                requires
                    2 <= w <= 4096,
                    2 <= l <= 4096,
                    2 <= p <= 4096,
            ;
        }
        // front(i, p-1) <- top(i, 0)
        let mut i: usize = 0;
        while i < w
            invariant
                0 <= i <= w,
                self.width == w,
                self.length == l,
                self.height == p,
                old(self).width == w,
                old(self).length == l,
                old(self).height == p,
                2 <= w <= 4096,
                2 <= l <= 4096,
                2 <= p <= 4096,
                self.surf == old(self).surf,
                self.top@.len() == w * l,
                front_row == (p - 1) * w,
                front_row + w <= self.front@.len(),
                front_row + w <= 16777216,
                w * l <= 16777216,
                self.front@.len() == old(self).front@.len(),
                self.bottom@ == old(self).bottom@,
                self.right@ == old(self).right@,
                self.back@ == old(self).back@,
                self.left@ == old(self).left@,
                self.mesh.normals@ == old(self).mesh.normals@,
                self.mesh.faces@ == old(self).mesh.faces@,
                self.mesh.wf(),
                self.mesh.vertices@ == mid,
                forall|k: int|
                    0 <= k < old(self).mesh.vertices@.len() ==> #[trigger] self.mesh.vertices@[k]
                        == old(self).mesh.vertices@[k],
                range_filled(self.top@, 0, w * l, self.nverts()),
                w <= w * l,
                l <= w * l,
                forall|k: int|
                    0 <= k < w * l ==> #[trigger] self.top@[k] == Some((old(
                        self,
                    ).mesh.vertices@.len() + k) as usize),
                forall|i2: int, j2: int|
                    0 <= i2 < w && 0 <= j2 < l && idx2(i2, j2, w as int) < (w * l) as int
                        ==> self.mesh.vertices@[old(self).mesh.vertices@.len() as int
                        + #[trigger] idx2(i2, j2, w as int)] == top_sample(
                        old(self).surf,
                        i2,
                        j2,
                        w as int,
                        l as int,
                    ),
                only_filled(old(self).front@, self.front@, self.nverts()),
                range_filled(self.front@, front_row as int, front_row + i, self.nverts()),
                forall|ii: int|
                    0 <= ii < i ==> #[trigger] self.front@[front_row + ii] == self.top@[ii],
            decreases w - i,
        {
            proof {
                assert(i < w * l) by (nonlinear_arith)
                    requires
                        0 <= i < w,
                        1 <= l,
                ;
            }
            let src = self.top[i];
            let v = src.unwrap();
            self.front.set(front_row + i, Some(v));
            i = i + 1;
        }
        // back(i, p-1) <- top(w-1-i, l-1)
        proof {
            assert((l - 1) * w <= 4096 * 4096) by (nonlinear_arith)
                requires
                    2 <= w <= 4096,
                    2 <= l <= 4096,
            ;
        }
        let top_last_row: usize = (l - 1) * w;
        proof {
            assert(top_last_row + w == l * w) by (nonlinear_arith)
                requires
                    top_last_row == (l - 1) * w,
                    2 <= l,
            ;
        }
        let mut i: usize = 0;
        while i < w
            invariant
                0 <= i <= w,
                self.width == w,
                self.length == l,
                self.height == p,
                old(self).width == w,
                old(self).length == l,
                old(self).height == p,
                2 <= w <= 4096,
                2 <= l <= 4096,
                2 <= p <= 4096,
                self.surf == old(self).surf,
                self.top@.len() == w * l,
                back_row == (p - 1) * w,
                back_row + w <= self.back@.len(),
                back_row + w <= 16777216,
                w * l <= 16777216,
                self.back@.len() == old(self).back@.len(),
                top_last_row == (l - 1) * w,
                top_last_row + w <= w * l,
                self.bottom@ == old(self).bottom@,
                self.right@ == old(self).right@,
                self.left@ == old(self).left@,
                self.front@.len() == old(self).front@.len(),
                self.mesh.normals@ == old(self).mesh.normals@,
                self.mesh.faces@ == old(self).mesh.faces@,
                self.mesh.wf(),
                self.mesh.vertices@ == mid,
                forall|k: int|
                    0 <= k < old(self).mesh.vertices@.len() ==> #[trigger] self.mesh.vertices@[k]
                        == old(self).mesh.vertices@[k],
                range_filled(self.top@, 0, w * l, self.nverts()),
                w <= w * l,
                l <= w * l,
                forall|k: int|
                    0 <= k < w * l ==> #[trigger] self.top@[k] == Some((old(
                        self,
                    ).mesh.vertices@.len() + k) as usize),
                forall|i2: int, j2: int|
                    0 <= i2 < w && 0 <= j2 < l && idx2(i2, j2, w as int) < (w * l) as int
                        ==> self.mesh.vertices@[old(self).mesh.vertices@.len() as int
                        + #[trigger] idx2(i2, j2, w as int)] == top_sample(
                        old(self).surf,
                        i2,
                        j2,
                        w as int,
                        l as int,
                    ),
                only_filled(old(self).front@, self.front@, self.nverts()),
                range_filled(self.front@, front_row as int, front_row + w, self.nverts()),
                forall|ii: int|
                    0 <= ii < w ==> #[trigger] self.front@[front_row + ii] == self.top@[ii],
                only_filled(old(self).back@, self.back@, self.nverts()),
                range_filled(self.back@, back_row as int, back_row + i, self.nverts()),
                forall|ii: int|
                    0 <= ii < i ==> #[trigger] self.back@[back_row + ii] == self.top@[top_last_row
                        + (w - 1 - ii)],
            decreases w - i,
        {
            let src = self.top[top_last_row + (w - 1 - i)];
            let v = src.unwrap();
            self.back.set(back_row + i, Some(v));
            i = i + 1;
        }
        // right(i, p-1) <- top(w-1, i)
        let mut i: usize = 0;
        while i < l
            invariant
                0 <= i <= l,
                self.width == w,
                self.length == l,
                self.height == p,
                old(self).width == w,
                old(self).length == l,
                old(self).height == p,
                2 <= w <= 4096,
                2 <= l <= 4096,
                2 <= p <= 4096,
                self.surf == old(self).surf,
                self.top@.len() == w * l,
                side_row == (p - 1) * l,
                side_row + l <= self.right@.len(),
                side_row + l <= 16777216,
                w * l <= 16777216,
                self.right@.len() == old(self).right@.len(),
                self.bottom@ == old(self).bottom@,
                self.left@ == old(self).left@,
                self.front@.len() == old(self).front@.len(),
                self.back@.len() == old(self).back@.len(),
                self.mesh.normals@ == old(self).mesh.normals@,
                self.mesh.faces@ == old(self).mesh.faces@,
                self.mesh.wf(),
                self.mesh.vertices@ == mid,
                forall|k: int|
                    0 <= k < old(self).mesh.vertices@.len() ==> #[trigger] self.mesh.vertices@[k]
                        == old(self).mesh.vertices@[k],
                range_filled(self.top@, 0, w * l, self.nverts()),
                w <= w * l,
                l <= w * l,
                forall|k: int|
                    0 <= k < w * l ==> #[trigger] self.top@[k] == Some((old(
                        self,
                    ).mesh.vertices@.len() + k) as usize),
                forall|i2: int, j2: int|
                    0 <= i2 < w && 0 <= j2 < l && idx2(i2, j2, w as int) < (w * l) as int
                        ==> self.mesh.vertices@[old(self).mesh.vertices@.len() as int
                        + #[trigger] idx2(i2, j2, w as int)] == top_sample(
                        old(self).surf,
                        i2,
                        j2,
                        w as int,
                        l as int,
                    ),
                only_filled(old(self).front@, self.front@, self.nverts()),
                range_filled(self.front@, front_row as int, front_row + w, self.nverts()),
                forall|ii: int|
                    0 <= ii < w ==> #[trigger] self.front@[front_row + ii] == self.top@[ii],
                only_filled(old(self).back@, self.back@, self.nverts()),
                range_filled(self.back@, back_row as int, back_row + w, self.nverts()),
                forall|ii: int|
                    0 <= ii < w ==> #[trigger] self.back@[back_row + ii] == self.top@[top_last_row
                        + (w - 1 - ii)],
                only_filled(old(self).right@, self.right@, self.nverts()),
                range_filled(self.right@, side_row as int, side_row + i, self.nverts()),
                forall|ii: int|
                    0 <= ii < i ==> #[trigger] self.right@[side_row + ii] == self.top@[ii * w + (w
                        - 1)],
            decreases l - i,
        {
            proof {
                assert(i * w + (w - 1) < w * l && w * l <= 16777216) by (nonlinear_arith)
                    requires
                        0 <= i < l,
                        2 <= w <= 4096,
                        l <= 4096,
                ;
            }
            let src = self.top[i * w + (w - 1)];
            let v = src.unwrap();
            self.right.set(side_row + i, Some(v));
            i = i + 1;
        }
        // left(i, p-1) <- top(0, l-1-i)
        let mut i: usize = 0;
        while i < l
            invariant
                0 <= i <= l,
                self.width == w,
                self.length == l,
                self.height == p,
                old(self).width == w,
                old(self).length == l,
                old(self).height == p,
                2 <= w <= 4096,
                2 <= l <= 4096,
                2 <= p <= 4096,
                self.surf == old(self).surf,
                self.top@.len() == w * l,
                side_row == (p - 1) * l,
                side_row + l <= self.left@.len(),
                side_row + l <= 16777216,
                w * l <= 16777216,
                self.left@.len() == old(self).left@.len(),
                self.bottom@ == old(self).bottom@,
                self.front@.len() == old(self).front@.len(),
                self.back@.len() == old(self).back@.len(),
                self.right@.len() == old(self).right@.len(),
                self.mesh.normals@ == old(self).mesh.normals@,
                self.mesh.faces@ == old(self).mesh.faces@,
                self.mesh.wf(),
                self.mesh.vertices@ == mid,
                forall|k: int|
                    0 <= k < old(self).mesh.vertices@.len() ==> #[trigger] self.mesh.vertices@[k]
                        == old(self).mesh.vertices@[k],
                range_filled(self.top@, 0, w * l, self.nverts()),
                w <= w * l,
                l <= w * l,
                forall|k: int|
                    0 <= k < w * l ==> #[trigger] self.top@[k] == Some((old(
                        self,
                    ).mesh.vertices@.len() + k) as usize),
                forall|i2: int, j2: int|
                    0 <= i2 < w && 0 <= j2 < l && idx2(i2, j2, w as int) < (w * l) as int
                        ==> self.mesh.vertices@[old(self).mesh.vertices@.len() as int
                        + #[trigger] idx2(i2, j2, w as int)] == top_sample(
                        old(self).surf,
                        i2,
                        j2,
                        w as int,
                        l as int,
                    ),
                only_filled(old(self).front@, self.front@, self.nverts()),
                range_filled(self.front@, front_row as int, front_row + w, self.nverts()),
                forall|ii: int|
                    0 <= ii < w ==> #[trigger] self.front@[front_row + ii] == self.top@[ii],
                only_filled(old(self).back@, self.back@, self.nverts()),
                range_filled(self.back@, back_row as int, back_row + w, self.nverts()),
                forall|ii: int|
                    0 <= ii < w ==> #[trigger] self.back@[back_row + ii] == self.top@[top_last_row
                        + (w - 1 - ii)],
                only_filled(old(self).right@, self.right@, self.nverts()),
                range_filled(self.right@, side_row as int, side_row + l, self.nverts()),
                forall|ii: int|
                    0 <= ii < l ==> #[trigger] self.right@[side_row + ii] == self.top@[ii * w + (w
                        - 1)],
                only_filled(old(self).left@, self.left@, self.nverts()),
                range_filled(self.left@, side_row as int, side_row + i, self.nverts()),
                forall|ii: int|
                    0 <= ii < i ==> #[trigger] self.left@[side_row + ii] == self.top@[(l - 1 - ii)
                        * w],
            decreases l - i,
        {
            proof {
                assert((l - 1 - i) * w < w * l && w * l <= 16777216) by (nonlinear_arith)
                    requires
                        0 <= i < l,
                        2 <= w <= 4096,
                        l <= 4096,
                ;
            }
            let src = self.top[(l - 1 - i) * w];
            let v = src.unwrap();
            self.left.set(side_row + i, Some(v));
            i = i + 1;
        }
        proof {
            lemma_region_bounds(w as int, l as int, 0, w as int, 0, l as int, (w * l) as int);
            lemma_grid_ok_monotone(self.bottom@, old(self).nverts(), self.nverts());
            lemma_only_filled_ok(old(self).front@, self.front@, old(self).nverts(), self.nverts());
            lemma_only_filled_ok(old(self).back@, self.back@, old(self).nverts(), self.nverts());
            lemma_only_filled_ok(old(self).right@, self.right@, old(self).nverts(), self.nverts());
            lemma_only_filled_ok(old(self).left@, self.left@, old(self).nverts(), self.nverts());
        }
    }

    /// Lay a flat plate at `z = 0` into the bottom face, `y` mirrored to
    /// preserve outward winding, then alias the bottom boundary row of
    /// each side face to the new bottom vertices.
    fn populate_bottom(&mut self)
        requires
            old(self).wf(),
        ensures
            final(self).wf(),
            final(self).width == old(self).width,
            final(self).length == old(self).length,
            final(self).height == old(self).height,
            final(self).surf == old(self).surf,
            final(self).mesh.normals@ == old(self).mesh.normals@,
            final(self).mesh.faces@ == old(self).mesh.faces@,
            final(self).mesh.vertices@.len() == old(self).mesh.vertices@.len() + old(self).width
                * old(self).length,
            forall|k: int|
                0 <= k < old(self).mesh.vertices@.len() ==> #[trigger] final(self).mesh.vertices@[k]
                    == old(self).mesh.vertices@[k],
            final(self).top@ == old(self).top@,
            grid_full(final(self).bottom@),
            range_filled(
                final(self).bottom@,
                0,
                old(self).width * old(self).length,
                final(self).nverts(),
            ),
            forall|k: int|
                0 <= k < old(self).width * old(self).length ==> #[trigger] final(self).bottom@[k]
                    == Some((old(self).mesh.vertices@.len() + k) as usize),
            forall|i: int, j: int|
                0 <= i < old(self).width && 0 <= j < old(self).length
                    ==> final(self).mesh.vertices@[old(self).mesh.vertices@.len() as int
                    + #[trigger] idx2(i, j, old(self).width as int)] == bottom_sample(
                    i,
                    j,
                    old(self).width as int,
                    old(self).length as int,
                ),
            only_filled(old(self).front@, final(self).front@, final(self).nverts()),
            only_filled(old(self).right@, final(self).right@, final(self).nverts()),
            only_filled(old(self).back@, final(self).back@, final(self).nverts()),
            only_filled(old(self).left@, final(self).left@, final(self).nverts()),
            range_filled(final(self).front@, 0, old(self).width as int, final(self).nverts()),
            range_filled(final(self).back@, 0, old(self).width as int, final(self).nverts()),
            range_filled(final(self).right@, 0, old(self).length as int, final(self).nverts()),
            range_filled(final(self).left@, 0, old(self).length as int, final(self).nverts()),
            forall|i: int|
                0 <= i < old(self).width ==> #[trigger] final(self).front@[i]
                    == final(self).bottom@[(old(self).length - 1) * old(self).width + i],
            forall|i: int|
                0 <= i < old(self).width ==> #[trigger] final(self).back@[i]
                    == final(self).bottom@[old(self).width - 1 - i],
            forall|i: int|
                0 <= i < old(self).length ==> #[trigger] final(self).right@[i]
                    == final(self).bottom@[(old(self).length - 1 - i) * old(self).width + (old(self).width - 1)],
            forall|i: int|
                0 <= i < old(self).length ==> #[trigger] final(self).left@[i]
                    == final(self).bottom@[i * old(self).width],
    {
        let w = self.width;
        let l = self.length;
        let p = self.height;
        let z = Fx::zero();
        let mut j: usize = 0;
        let mut base: usize = 0;
        while j < l
            invariant
                0 <= j <= l,
                base == j * w,
                self.width == w,
                self.length == l,
                self.height == p,
                old(self).width == w,
                old(self).length == l,
                old(self).height == p,
                2 <= w <= 4096,
                2 <= l <= 4096,
                2 <= p <= 4096,
                self.surf == old(self).surf,
                self.bottom@.len() == w * l,
                self.top@ == old(self).top@,
                self.front@ == old(self).front@,
                self.right@ == old(self).right@,
                self.back@ == old(self).back@,
                self.left@ == old(self).left@,
                self.mesh.normals@ == old(self).mesh.normals@,
                self.mesh.faces@ == old(self).mesh.faces@,
                self.mesh.wf(),
                self.mesh.vertices@.len() == old(self).mesh.vertices@.len() + j * w,
                forall|k: int|
                    0 <= k < old(self).mesh.vertices@.len() ==> #[trigger] self.mesh.vertices@[k]
                        == old(self).mesh.vertices@[k],
                z@ == 0,
                range_filled(self.bottom@, 0, base as int, self.nverts()),
                forall|k: int| base <= k < w * l ==> self.bottom@[k] == old(self).bottom@[k],
                forall|k: int|
                    0 <= k < base ==> #[trigger] self.bottom@[k] == Some((old(
                        self,
                    ).mesh.vertices@.len() + k) as usize),
                forall|i2: int, j2: int|
                    0 <= i2 < w && 0 <= j2 < l && idx2(i2, j2, w as int) < base as int
                        ==> self.mesh.vertices@[old(self).mesh.vertices@.len() as int
                        + #[trigger] idx2(i2, j2, w as int)] == bottom_sample(
                        i2,
                        j2,
                        w as int,
                        l as int,
                    ),
            decreases l - j,
        {
            let y = Self::to_coordinate(l - 1 - j, l);
            let mut i: usize = 0;
            while i < w
                invariant
                    0 <= i <= w,
                    0 <= j < l,
                    base == j * w,
                    self.width == w,
                    self.length == l,
                    self.height == p,
                    old(self).width == w,
                    old(self).length == l,
                    old(self).height == p,
                    2 <= w <= 4096,
                    2 <= l <= 4096,
                    2 <= p <= 4096,
                    self.surf == old(self).surf,
                    self.bottom@.len() == w * l,
                    self.top@ == old(self).top@,
                    self.front@ == old(self).front@,
                    self.right@ == old(self).right@,
                    self.back@ == old(self).back@,
                    self.left@ == old(self).left@,
                    self.mesh.normals@ == old(self).mesh.normals@,
                    self.mesh.faces@ == old(self).mesh.faces@,
                    self.mesh.wf(),
                    self.mesh.vertices@.len() == old(self).mesh.vertices@.len() + j * w + i,
                    forall|k: int|
                        0 <= k < old(self).mesh.vertices@.len() ==> #[trigger] self.mesh.vertices@[k]
                            == old(self).mesh.vertices@[k],
                    z@ == 0,
                    y@ == coord_v(l - 1 - j, l as int),
                    range_filled(self.bottom@, 0, base + i, self.nverts()),
                    forall|k: int| base + i <= k < w * l ==> self.bottom@[k] == old(self).bottom@[k],
                    forall|k: int|
                        0 <= k < base + i ==> #[trigger] self.bottom@[k] == Some((old(
                            self,
                        ).mesh.vertices@.len() + k) as usize),
                    forall|i2: int, j2: int|
                        0 <= i2 < w && 0 <= j2 < l && idx2(i2, j2, w as int) < base + i
                            ==> self.mesh.vertices@[old(self).mesh.vertices@.len() as int
                            + #[trigger] idx2(i2, j2, w as int)] == bottom_sample(
                            i2,
                            j2,
                            w as int,
                            l as int,
                        ),
                decreases w - i,
            {
                proof {
                    assert(base + i < w * l) by (nonlinear_arith)
                        requires
                            base == j * w,
                            0 <= j < l,
                            0 <= i < w,
                    ;
                }
                let x = Self::to_coordinate(i, w);
                let vertex = Vec3(x, y, z);
                let vertex_index = self.mesh.add_vertex(vertex);
                self.bottom.set(base + i, Some(vertex_index));
                proof {
                    let oldn = old(self).mesh.vertices@.len() as int;
                    assert(idx2(i as int, j as int, w as int) == base + i);
                    assert(self.mesh.vertices@[oldn + idx2(i as int, j as int, w as int)]
                        == bottom_sample(i as int, j as int, w as int, l as int));
                    assert forall|i2: int, j2: int|
                        0 <= i2 < w && 0 <= j2 < l && idx2(i2, j2, w as int) < base + i + 1 implies
                        self.mesh.vertices@[oldn + #[trigger] idx2(i2, j2, w as int)]
                        == bottom_sample(i2, j2, w as int, l as int) by {
                        if idx2(i2, j2, w as int) == base + i {
                            assert(j2 == j as int && i2 == i as int) by (nonlinear_arith)
                                requires
                                    j2 * (w as int) + i2 == (j as int) * (w as int) + i as int,
                                    0 <= i2 < w as int,
                                    0 <= i as int,
                                    (i as int) < w as int,
                                    0 <= j2,
                                    0 <= j as int,
                            ;
                        } else {
                            assert(0 <= idx2(i2, j2, w as int) < base + i) by (nonlinear_arith)
                                requires
                                    idx2(i2, j2, w as int) == j2 * (w as int) + i2,
                                    idx2(i2, j2, w as int) < base + i + 1,
                                    idx2(i2, j2, w as int) != base + i,
                                    0 <= i2 < w as int,
                                    0 <= j2,
                            ;
                        }
                    }
                }
                i = i + 1;
            }
            proof {
                assert((j + 1) * w == j * w + w) by (nonlinear_arith);
                assert(j * w + w <= 4096 * 4096) by (nonlinear_arith)
                    requires
                        0 <= j < l,
                        l <= 4096,
                        w <= 4096,
                ;
            }
            j = j + 1;
            base = base + w;
        }
        proof {
            assert(base == l * w && w * l == l * w) by (nonlinear_arith)
                requires
                    base == j * w,
                    j == l,
            ;
        }
        let ghost mid = self.mesh.vertices@;
        proof {
            assert((l - 1) * w <= 4096 * 4096) by (nonlinear_arith)
                requires
                    2 <= w <= 4096,
                    2 <= l <= 4096,
            ;
        }
        let bottom_last_row: usize = (l - 1) * w;
        proof {
            assert(bottom_last_row + w == l * w) by (nonlinear_arith)
                requires
                    bottom_last_row == (l - 1) * w,
                    2 <= l,
            ;
            assert(w * l <= 16777216 && l * w == w * l && w <= w * l && l <= w * l) by (
            nonlinear_arith)
                requires
                    2 <= w <= 4096,
                    2 <= l <= 4096,
            ;
            assert(w <= w * p && l <= l * p) by (nonlinear_arith)
                requires
                    2 <= w,
                    2 <= l,
                    2 <= p,
            ;
        }
        // front(i, 0) <- bottom(i, l-1)
        let mut i: usize = 0;
        while i < w
            invariant
                0 <= i <= w,
                self.width == w,
                self.length == l,
                self.height == p,
                old(self).width == w,
                old(self).length == l,
                old(self).height == p,
                2 <= w <= 4096,
                2 <= l <= 4096,
                2 <= p <= 4096,
                self.surf == old(self).surf,
                self.bottom@.len() == w * l,
                bottom_last_row == (l - 1) * w,
                bottom_last_row + w <= w * l,
                w * l <= 16777216,
                w <= self.front@.len(),
                self.front@.len() == old(self).front@.len(),
                self.top@ == old(self).top@,
                self.right@ == old(self).right@,
                self.back@ == old(self).back@,
                self.left@ == old(self).left@,
                self.mesh.normals@ == old(self).mesh.normals@,
                self.mesh.faces@ == old(self).mesh.faces@,
                self.mesh.wf(),
                self.mesh.vertices@ == mid,
                forall|k: int|
                    0 <= k < old(self).mesh.vertices@.len() ==> #[trigger] self.mesh.vertices@[k]
                        == old(self).mesh.vertices@[k],
                range_filled(self.bottom@, 0, w * l, self.nverts()),
                w <= w * l,
                l <= w * l,
                forall|k: int|
                    0 <= k < w * l ==> #[trigger] self.bottom@[k] == Some((old(
                        self,
                    ).mesh.vertices@.len() + k) as usize),
                forall|i2: int, j2: int|
                    0 <= i2 < w && 0 <= j2 < l && idx2(i2, j2, w as int) < (w * l) as int
                        ==> self.mesh.vertices@[old(self).mesh.vertices@.len() as int
                        + #[trigger] idx2(i2, j2, w as int)] == bottom_sample(
                        i2,
                        j2,
                        w as int,
                        l as int,
                    ),
                only_filled(old(self).front@, self.front@, self.nverts()),
                range_filled(self.front@, 0, i as int, self.nverts()),
                forall|ii: int|
                    0 <= ii < i ==> #[trigger] self.front@[ii] == self.bottom@[bottom_last_row
                        + ii],
            decreases w - i,
        {
            let src = self.bottom[bottom_last_row + i];
            let v = src.unwrap();
            self.front.set(i, Some(v));
            i = i + 1;
        }
        // back(i, 0) <- bottom(w-1-i, 0)
        let mut i: usize = 0;
        while i < w
            invariant
                0 <= i <= w,
                self.width == w,
                self.length == l,
                self.height == p,
                old(self).width == w,
                old(self).length == l,
                old(self).height == p,
                2 <= w <= 4096,
                2 <= l <= 4096,
                2 <= p <= 4096,
                self.surf == old(self).surf,
                self.bottom@.len() == w * l,
                w <= self.back@.len(),
                self.back@.len() == old(self).back@.len(),
                self.front@.len() == old(self).front@.len(),
                self.top@ == old(self).top@,
                self.right@ == old(self).right@,
                self.left@ == old(self).left@,
                self.mesh.normals@ == old(self).mesh.normals@,
                self.mesh.faces@ == old(self).mesh.faces@,
                self.mesh.wf(),
                self.mesh.vertices@ == mid,
                forall|k: int|
                    0 <= k < old(self).mesh.vertices@.len() ==> #[trigger] self.mesh.vertices@[k]
                        == old(self).mesh.vertices@[k],
                range_filled(self.bottom@, 0, w * l, self.nverts()),
                w <= w * l,
                l <= w * l,
                forall|k: int|
                    0 <= k < w * l ==> #[trigger] self.bottom@[k] == Some((old(
                        self,
                    ).mesh.vertices@.len() + k) as usize),
                forall|i2: int, j2: int|
                    0 <= i2 < w && 0 <= j2 < l && idx2(i2, j2, w as int) < (w * l) as int
                        ==> self.mesh.vertices@[old(self).mesh.vertices@.len() as int
                        + #[trigger] idx2(i2, j2, w as int)] == bottom_sample(
                        i2,
                        j2,
                        w as int,
                        l as int,
                    ),
                bottom_last_row == (l - 1) * w,
                bottom_last_row + w <= w * l,
                only_filled(old(self).front@, self.front@, self.nverts()),
                range_filled(self.front@, 0, w as int, self.nverts()),
                forall|ii: int|
                    0 <= ii < w ==> #[trigger] self.front@[ii] == self.bottom@[bottom_last_row
                        + ii],
                only_filled(old(self).back@, self.back@, self.nverts()),
                range_filled(self.back@, 0, i as int, self.nverts()),
                forall|ii: int|
                    0 <= ii < i ==> #[trigger] self.back@[ii] == self.bottom@[w - 1 - ii],
            decreases w - i,
        {
            proof {
                assert(w - 1 - i < w * l && w * l <= 16777216) by (nonlinear_arith)
                    requires
                        0 <= i < w,
                        2 <= l <= 4096,
                        w <= 4096,
                ;
            }
            let src = self.bottom[w - 1 - i];
            let v = src.unwrap();
            self.back.set(i, Some(v));
            i = i + 1;
        }
        // right(i, 0) <- bottom(w-1, l-1-i)
        let mut i: usize = 0;
        while i < l
            invariant
                0 <= i <= l,
                self.width == w,
                self.length == l,
                self.height == p,
                old(self).width == w,
                old(self).length == l,
                old(self).height == p,
                2 <= w <= 4096,
                2 <= l <= 4096,
                2 <= p <= 4096,
                self.surf == old(self).surf,
                self.bottom@.len() == w * l,
                l <= self.right@.len(),
                self.right@.len() == old(self).right@.len(),
                self.front@.len() == old(self).front@.len(),
                self.back@.len() == old(self).back@.len(),
                self.top@ == old(self).top@,
                self.left@ == old(self).left@,
                self.mesh.normals@ == old(self).mesh.normals@,
                self.mesh.faces@ == old(self).mesh.faces@,
                self.mesh.wf(),
                self.mesh.vertices@ == mid,
                forall|k: int|
                    0 <= k < old(self).mesh.vertices@.len() ==> #[trigger] self.mesh.vertices@[k]
                        == old(self).mesh.vertices@[k],
                range_filled(self.bottom@, 0, w * l, self.nverts()),
                w <= w * l,
                l <= w * l,
                forall|k: int|
                    0 <= k < w * l ==> #[trigger] self.bottom@[k] == Some((old(
                        self,
                    ).mesh.vertices@.len() + k) as usize),
                forall|i2: int, j2: int|
                    0 <= i2 < w && 0 <= j2 < l && idx2(i2, j2, w as int) < (w * l) as int
                        ==> self.mesh.vertices@[old(self).mesh.vertices@.len() as int
                        + #[trigger] idx2(i2, j2, w as int)] == bottom_sample(
                        i2,
                        j2,
                        w as int,
                        l as int,
                    ),
                bottom_last_row == (l - 1) * w,
                bottom_last_row + w <= w * l,
                only_filled(old(self).front@, self.front@, self.nverts()),
                range_filled(self.front@, 0, w as int, self.nverts()),
                forall|ii: int|
                    0 <= ii < w ==> #[trigger] self.front@[ii] == self.bottom@[bottom_last_row
                        + ii],
                only_filled(old(self).back@, self.back@, self.nverts()),
                range_filled(self.back@, 0, w as int, self.nverts()),
                forall|ii: int|
                    0 <= ii < w ==> #[trigger] self.back@[ii] == self.bottom@[w - 1 - ii],
                only_filled(old(self).right@, self.right@, self.nverts()),
                range_filled(self.right@, 0, i as int, self.nverts()),
                forall|ii: int|
                    0 <= ii < i ==> #[trigger] self.right@[ii] == self.bottom@[(l - 1 - ii) * w
                        + (w - 1)],
            decreases l - i,
        {
            proof {
                assert((l - 1 - i) * w + (w - 1) < w * l && w * l <= 16777216) by (
                nonlinear_arith)
                    requires
                        0 <= i < l,
                        2 <= w <= 4096,
                        l <= 4096,
                ;
            }
            let src = self.bottom[(l - 1 - i) * w + (w - 1)];
            let v = src.unwrap();
            self.right.set(i, Some(v));
            i = i + 1;
        }
        // left(i, 0) <- bottom(0, i)
        let mut i: usize = 0;
        while i < l
            invariant
                0 <= i <= l,
                self.width == w,
                self.length == l,
                self.height == p,
                old(self).width == w,
                old(self).length == l,
                old(self).height == p,
                2 <= w <= 4096,
                2 <= l <= 4096,
                2 <= p <= 4096,
                self.surf == old(self).surf,
                self.bottom@.len() == w * l,
                l <= self.left@.len(),
                self.left@.len() == old(self).left@.len(),
                self.front@.len() == old(self).front@.len(),
                self.back@.len() == old(self).back@.len(),
                self.right@.len() == old(self).right@.len(),
                self.top@ == old(self).top@,
                self.mesh.normals@ == old(self).mesh.normals@,
                self.mesh.faces@ == old(self).mesh.faces@,
                self.mesh.wf(),
                self.mesh.vertices@ == mid,
                forall|k: int|
                    0 <= k < old(self).mesh.vertices@.len() ==> #[trigger] self.mesh.vertices@[k]
                        == old(self).mesh.vertices@[k],
                range_filled(self.bottom@, 0, w * l, self.nverts()),
                w <= w * l,
                l <= w * l,
                forall|k: int|
                    0 <= k < w * l ==> #[trigger] self.bottom@[k] == Some((old(
                        self,
                    ).mesh.vertices@.len() + k) as usize),
                forall|i2: int, j2: int|
                    0 <= i2 < w && 0 <= j2 < l && idx2(i2, j2, w as int) < (w * l) as int
                        ==> self.mesh.vertices@[old(self).mesh.vertices@.len() as int
                        + #[trigger] idx2(i2, j2, w as int)] == bottom_sample(
                        i2,
                        j2,
                        w as int,
                        l as int,
                    ),
                bottom_last_row == (l - 1) * w,
                bottom_last_row + w <= w * l,
                only_filled(old(self).front@, self.front@, self.nverts()),
                range_filled(self.front@, 0, w as int, self.nverts()),
                forall|ii: int|
                    0 <= ii < w ==> #[trigger] self.front@[ii] == self.bottom@[bottom_last_row
                        + ii],
                only_filled(old(self).back@, self.back@, self.nverts()),
                range_filled(self.back@, 0, w as int, self.nverts()),
                forall|ii: int|
                    0 <= ii < w ==> #[trigger] self.back@[ii] == self.bottom@[w - 1 - ii],
                only_filled(old(self).right@, self.right@, self.nverts()),
                range_filled(self.right@, 0, l as int, self.nverts()),
                forall|ii: int|
                    0 <= ii < l ==> #[trigger] self.right@[ii] == self.bottom@[(l - 1 - ii) * w
                        + (w - 1)],
                only_filled(old(self).left@, self.left@, self.nverts()),
                range_filled(self.left@, 0, i as int, self.nverts()),
                forall|ii: int|
                    0 <= ii < i ==> #[trigger] self.left@[ii] == self.bottom@[ii * w],
            decreases l - i,
        {
            proof {
                assert(i * w < w * l && w * l <= 16777216) by (nonlinear_arith)
                    requires
                        0 <= i < l,
                        2 <= w <= 4096,
                        l <= 4096,
                ;
            }
            let src = self.bottom[i * w];
            let v = src.unwrap();
            self.left.set(i, Some(v));
            i = i + 1;
        }
        proof {
            lemma_region_bounds(w as int, l as int, 0, w as int, 0, l as int, (w * l) as int);
            lemma_grid_ok_monotone(self.top@, old(self).nverts(), self.nverts());
            lemma_only_filled_ok(old(self).front@, self.front@, old(self).nverts(), self.nverts());
            lemma_only_filled_ok(old(self).back@, self.back@, old(self).nverts(), self.nverts());
            lemma_only_filled_ok(old(self).right@, self.right@, old(self).nverts(), self.nverts());
            lemma_only_filled_ok(old(self).left@, self.left@, old(self).nverts(), self.nverts());
        }
    }

    /// Create the interior vertices of the front face (`y = 0`): each
    /// column interpolates in `z` between the flat bottom and the field's
    /// value on its boundary curve. The two corner columns come later, by
    /// aliasing.
    fn populate_front(&mut self)
        requires
            old(self).wf(),
        ensures
            final(self).wf(),
            final(self).width == old(self).width,
            final(self).length == old(self).length,
            final(self).height == old(self).height,
            final(self).surf == old(self).surf,
            final(self).mesh.normals@ == old(self).mesh.normals@,
            final(self).mesh.faces@ == old(self).mesh.faces@,
            final(self).mesh.vertices@.len() == old(self).mesh.vertices@.len() + (old(self).width
                - 1) * (old(self).height - 2),
            forall|k: int|
                0 <= k < old(self).mesh.vertices@.len() ==> #[trigger] final(self).mesh.vertices@[k]
                    == old(self).mesh.vertices@[k],
            final(self).top@ == old(self).top@,
            final(self).bottom@ == old(self).bottom@,
            final(self).right@ == old(self).right@,
            final(self).back@ == old(self).back@,
            final(self).left@ == old(self).left@,
            only_filled(old(self).front@, final(self).front@, final(self).nverts()),
            region_filled(
                final(self).front@,
                old(self).width as int,
                0,
                old(self).width - 1,
                1,
                (old(self).height - 1) as int,
                final(self).nverts(),
            ),
    {
        let w = self.width;
        let l = self.length;
        let p = self.height;
        let y = Fx::zero();
        let mut i: usize = 0;
        while i < w - 1
            invariant
                0 <= i <= w - 1,
                self.width == w,
                self.length == l,
                self.height == p,
                old(self).width == w,
                old(self).length == l,
                old(self).height == p,
                2 <= w <= 4096,
                2 <= l <= 4096,
                2 <= p <= 4096,
                self.surf == old(self).surf,
                self.front@.len() == w * p,
                self.top@ == old(self).top@,
                self.bottom@ == old(self).bottom@,
                self.right@ == old(self).right@,
                self.back@ == old(self).back@,
                self.left@ == old(self).left@,
                self.mesh.normals@ == old(self).mesh.normals@,
                self.mesh.faces@ == old(self).mesh.faces@,
                self.mesh.wf(),
                self.mesh.vertices@.len() == old(self).mesh.vertices@.len() + i * (p - 2),
                forall|k: int|
                    0 <= k < old(self).mesh.vertices@.len() ==> #[trigger] self.mesh.vertices@[k]
                        == old(self).mesh.vertices@[k],
                only_filled(old(self).front@, self.front@, self.nverts()),
                region_filled(
                    self.front@,
                    w as int,
                    0,
                    i as int,
                    1,
                    (p - 1) as int,
                    self.nverts(),
                ),
            decreases w - 1 - i,
        {
            let ghost pre = self.front@;
            let ghost pre_nv = self.nverts();
            let x = Self::to_coordinate(i, w);
            let h = self.surf.compute_clamped(x, y);
            Self::fill_side_column(&mut self.mesh, &mut self.front, w, i, p, x, y, h);
            proof {
                lemma_region_bounds(
                    w as int,
                    p as int,
                    0,
                    i as int,
                    1,
                    (p - 1) as int,
                    (w * p) as int,
                );
                lemma_region_kept(
                    pre,
                    self.front@,
                    w as int,
                    0,
                    i as int,
                    1,
                    (p - 1) as int,
                    pre_nv,
                    self.nverts(),
                );
                lemma_only_filled_trans(
                    old(self).front@,
                    pre,
                    self.front@,
                    pre_nv,
                    self.nverts(),
                );
                assert forall|i2: int, j2: int|
                    0 <= i2 < i as int + 1 && 1 <= j2 < (p - 1) as int implies {
                    &&& (#[trigger] self.front@[idx2(i2, j2, w as int)]) is Some
                    &&& self.front@[idx2(i2, j2, w as int)]->0 < self.nverts()
                } by {
                    if i2 < i as int {
                    } else {
                        assert(i2 == i as int);
                    }
                }
                assert((i as int + 1) * (p - 2) == i as int * (p - 2) + (p - 2)) by (
                nonlinear_arith);
            }
            i = i + 1;
        }
        proof {
            lemma_only_filled_ok(old(self).front@, self.front@, old(self).nverts(), self.nverts());
            lemma_grid_ok_monotone(self.top@, old(self).nverts(), self.nverts());
            lemma_grid_ok_monotone(self.bottom@, old(self).nverts(), self.nverts());
            lemma_grid_ok_monotone(self.right@, old(self).nverts(), self.nverts());
            lemma_grid_ok_monotone(self.back@, old(self).nverts(), self.nverts());
            lemma_grid_ok_monotone(self.left@, old(self).nverts(), self.nverts());
        }
    }

    /// Create the interior vertices of the right face (`x = 1`), then give
    /// the front face its last corner column by aliasing this face's first
    /// column: the shared vertical edge at `(1, 0)` reuses the vertices.
    fn populate_right(&mut self)
        requires
            old(self).wf(),
        ensures
            final(self).wf(),
            final(self).width == old(self).width,
            final(self).length == old(self).length,
            final(self).height == old(self).height,
            final(self).surf == old(self).surf,
            final(self).mesh.normals@ == old(self).mesh.normals@,
            final(self).mesh.faces@ == old(self).mesh.faces@,
            final(self).mesh.vertices@.len() == old(self).mesh.vertices@.len() + (old(self).length
                - 1) * (old(self).height - 2),
            forall|k: int|
                0 <= k < old(self).mesh.vertices@.len() ==> #[trigger] final(self).mesh.vertices@[k]
                    == old(self).mesh.vertices@[k],
            final(self).top@ == old(self).top@,
            final(self).bottom@ == old(self).bottom@,
            final(self).back@ == old(self).back@,
            final(self).left@ == old(self).left@,
            only_filled(old(self).right@, final(self).right@, final(self).nverts()),
            region_filled(
                final(self).right@,
                old(self).length as int,
                0,
                old(self).length - 1,
                1,
                (old(self).height - 1) as int,
                final(self).nverts(),
            ),
            only_filled(old(self).front@, final(self).front@, final(self).nverts()),
            region_filled(
                final(self).front@,
                old(self).width as int,
                old(self).width - 1,
                old(self).width as int,
                1,
                (old(self).height - 1) as int,
                final(self).nverts(),
            ),
            forall|j: int|
                1 <= j < (old(self).height - 1) as int ==> final(self).front@[#[trigger] idx2(
                    (old(self).width - 1) as int,
                    j,
                    old(self).width as int,
                )] == final(self).right@[idx2(0, j, old(self).length as int)],
    {
        let w = self.width;
        let l = self.length;
        let p = self.height;
        let x = Fx::one();
        let mut i: usize = 0;
        while i < l - 1
            invariant
                0 <= i <= l - 1,
                self.width == w,
                self.length == l,
                self.height == p,
                old(self).width == w,
                old(self).length == l,
                old(self).height == p,
                2 <= w <= 4096,
                2 <= l <= 4096,
                2 <= p <= 4096,
                self.surf == old(self).surf,
                self.right@.len() == l * p,
                self.top@ == old(self).top@,
                self.bottom@ == old(self).bottom@,
                self.front@ == old(self).front@,
                self.back@ == old(self).back@,
                self.left@ == old(self).left@,
                self.mesh.normals@ == old(self).mesh.normals@,
                self.mesh.faces@ == old(self).mesh.faces@,
                self.mesh.wf(),
                self.mesh.vertices@.len() == old(self).mesh.vertices@.len() + i * (p - 2),
                forall|k: int|
                    0 <= k < old(self).mesh.vertices@.len() ==> #[trigger] self.mesh.vertices@[k]
                        == old(self).mesh.vertices@[k],
                only_filled(old(self).right@, self.right@, self.nverts()),
                region_filled(
                    self.right@,
                    l as int,
                    0,
                    i as int,
                    1,
                    (p - 1) as int,
                    self.nverts(),
                ),
            decreases l - 1 - i,
        {
            let ghost pre = self.right@;
            let ghost pre_nv = self.nverts();
            let y = Self::to_coordinate(i, l);
            let h = self.surf.compute_clamped(x, y);
            Self::fill_side_column(&mut self.mesh, &mut self.right, l, i, p, x, y, h);
            proof {
                lemma_region_bounds(
                    l as int,
                    p as int,
                    0,
                    i as int,
                    1,
                    (p - 1) as int,
                    (l * p) as int,
                );
                lemma_region_kept(
                    pre,
                    self.right@,
                    l as int,
                    0,
                    i as int,
                    1,
                    (p - 1) as int,
                    pre_nv,
                    self.nverts(),
                );
                lemma_only_filled_trans(
                    old(self).right@,
                    pre,
                    self.right@,
                    pre_nv,
                    self.nverts(),
                );
                assert forall|i2: int, j2: int|
                    0 <= i2 < i as int + 1 && 1 <= j2 < (p - 1) as int implies {
                    &&& (#[trigger] self.right@[idx2(i2, j2, l as int)]) is Some
                    &&& self.right@[idx2(i2, j2, l as int)]->0 < self.nverts()
                } by {
                    if i2 < i as int {
                    } else {
                        assert(i2 == i as int);
                    }
                }
                assert((i as int + 1) * (p - 2) == i as int * (p - 2) + (p - 2)) by (
                nonlinear_arith);
            }
            i = i + 1;
        }
        let ghost nv2 = self.nverts();
        proof {
            assert forall|i2: int, j2: int| 0 <= i2 < 1 && 1 <= j2 < (p - 1) as int implies {
                &&& (#[trigger] self.right@[idx2(i2, j2, l as int)]) is Some
                &&& self.right@[idx2(i2, j2, l as int)]->0 < nv2
            } by {}
        }
        Self::copy_column(&mut self.front, w, w - 1, &self.right, l, 0, p, Ghost(nv2));
        proof {
            lemma_only_filled_ok(old(self).right@, self.right@, old(self).nverts(), self.nverts());
            lemma_only_filled_ok(old(self).front@, self.front@, old(self).nverts(), self.nverts());
            lemma_grid_ok_monotone(self.top@, old(self).nverts(), self.nverts());
            lemma_grid_ok_monotone(self.bottom@, old(self).nverts(), self.nverts());
            lemma_grid_ok_monotone(self.back@, old(self).nverts(), self.nverts());
            lemma_grid_ok_monotone(self.left@, old(self).nverts(), self.nverts());
        }
    }

    /// Create the interior vertices of the back face (`y = 1`), sampled
    /// with `x` mirrored so the shared winding convention still points
    /// outward, then give the right face its last corner column by
    /// aliasing this face's first column (the vertical edge at `(1, 1)`).
    fn populate_back(&mut self)
        requires
            old(self).wf(),
        ensures
            final(self).wf(),
            final(self).width == old(self).width,
            final(self).length == old(self).length,
            final(self).height == old(self).height,
            final(self).surf == old(self).surf,
            final(self).mesh.normals@ == old(self).mesh.normals@,
            final(self).mesh.faces@ == old(self).mesh.faces@,
            final(self).mesh.vertices@.len() == old(self).mesh.vertices@.len() + (old(self).width
                - 1) * (old(self).height - 2),
            forall|k: int|
                0 <= k < old(self).mesh.vertices@.len() ==> #[trigger] final(self).mesh.vertices@[k]
                    == old(self).mesh.vertices@[k],
            final(self).top@ == old(self).top@,
            final(self).bottom@ == old(self).bottom@,
            final(self).front@ == old(self).front@,
            final(self).left@ == old(self).left@,
            only_filled(old(self).back@, final(self).back@, final(self).nverts()),
            region_filled(
                final(self).back@,
                old(self).width as int,
                0,
                old(self).width - 1,
                1,
                (old(self).height - 1) as int,
                final(self).nverts(),
            ),
            only_filled(old(self).right@, final(self).right@, final(self).nverts()),
            region_filled(
                final(self).right@,
                old(self).length as int,
                old(self).length - 1,
                old(self).length as int,
                1,
                (old(self).height - 1) as int,
                final(self).nverts(),
            ),
            forall|j: int|
                1 <= j < (old(self).height - 1) as int ==> final(self).right@[#[trigger] idx2(
                    (old(self).length - 1) as int,
                    j,
                    old(self).length as int,
                )] == final(self).back@[idx2(0, j, old(self).width as int)],
    {
        let w = self.width;
        let l = self.length;
        let p = self.height;
        let y = Fx::one();
        let mut i: usize = 0;
        while i < w - 1
            invariant
                0 <= i <= w - 1,
                self.width == w,
                self.length == l,
                self.height == p,
                old(self).width == w,
                old(self).length == l,
                old(self).height == p,
                2 <= w <= 4096,
                2 <= l <= 4096,
                2 <= p <= 4096,
                self.surf == old(self).surf,
                self.back@.len() == w * p,
                self.top@ == old(self).top@,
                self.bottom@ == old(self).bottom@,
                self.front@ == old(self).front@,
                self.right@ == old(self).right@,
                self.left@ == old(self).left@,
                self.mesh.normals@ == old(self).mesh.normals@,
                self.mesh.faces@ == old(self).mesh.faces@,
                self.mesh.wf(),
                self.mesh.vertices@.len() == old(self).mesh.vertices@.len() + i * (p - 2),
                forall|k: int|
                    0 <= k < old(self).mesh.vertices@.len() ==> #[trigger] self.mesh.vertices@[k]
                        == old(self).mesh.vertices@[k],
                only_filled(old(self).back@, self.back@, self.nverts()),
                region_filled(
                    self.back@,
                    w as int,
                    0,
                    i as int,
                    1,
                    (p - 1) as int,
                    self.nverts(),
                ),
            decreases w - 1 - i,
        {
            let ghost pre = self.back@;
            let ghost pre_nv = self.nverts();
            let x = Self::to_coordinate(w - 1 - i, w);
            let h = self.surf.compute_clamped(x, y);
            Self::fill_side_column(&mut self.mesh, &mut self.back, w, i, p, x, y, h);
            proof {
                lemma_region_bounds(
                    w as int,
                    p as int,
                    0,
                    i as int,
                    1,
                    (p - 1) as int,
                    (w * p) as int,
                );
                lemma_region_kept(
                    pre,
                    self.back@,
                    w as int,
                    0,
                    i as int,
                    1,
                    (p - 1) as int,
                    pre_nv,
                    self.nverts(),
                );
                lemma_only_filled_trans(
                    old(self).back@,
                    pre,
                    self.back@,
                    pre_nv,
                    self.nverts(),
                );
                assert forall|i2: int, j2: int|
                    0 <= i2 < i as int + 1 && 1 <= j2 < (p - 1) as int implies {
                    &&& (#[trigger] self.back@[idx2(i2, j2, w as int)]) is Some
                    &&& self.back@[idx2(i2, j2, w as int)]->0 < self.nverts()
                } by {
                    if i2 < i as int {
                    } else {
                        assert(i2 == i as int);
                    }
                }
                assert((i as int + 1) * (p - 2) == i as int * (p - 2) + (p - 2)) by (
                nonlinear_arith);
            }
            i = i + 1;
        }
        let ghost nv2 = self.nverts();
        proof {
            assert forall|i2: int, j2: int| 0 <= i2 < 1 && 1 <= j2 < (p - 1) as int implies {
                &&& (#[trigger] self.back@[idx2(i2, j2, w as int)]) is Some
                &&& self.back@[idx2(i2, j2, w as int)]->0 < nv2
            } by {}
        }
        Self::copy_column(&mut self.right, l, l - 1, &self.back, w, 0, p, Ghost(nv2));
        proof {
            lemma_only_filled_ok(old(self).back@, self.back@, old(self).nverts(), self.nverts());
            lemma_only_filled_ok(old(self).right@, self.right@, old(self).nverts(), self.nverts());
            lemma_grid_ok_monotone(self.top@, old(self).nverts(), self.nverts());
            lemma_grid_ok_monotone(self.bottom@, old(self).nverts(), self.nverts());
            lemma_grid_ok_monotone(self.front@, old(self).nverts(), self.nverts());
            lemma_grid_ok_monotone(self.left@, old(self).nverts(), self.nverts());
        }
    }

    /// Create the interior vertices of the left face (`x = 0`), sampled
    /// with `y` mirrored, then close the ring of side faces: the back face
    /// gets its last corner column from this face's first column (the
    /// vertical edge at `(0, 1)`), and this face gets its own last corner
    /// column from the front face's first column (the edge at `(0, 0)`).
    fn populate_left(&mut self)
        requires
            old(self).wf(),
            region_filled(
                old(self).front@,
                old(self).width as int,
                0,
                1,
                1,
                (old(self).height - 1) as int,
                old(self).nverts(),
            ),
        ensures
            final(self).wf(),
            final(self).width == old(self).width,
            final(self).length == old(self).length,
            final(self).height == old(self).height,
            final(self).surf == old(self).surf,
            final(self).mesh.normals@ == old(self).mesh.normals@,
            final(self).mesh.faces@ == old(self).mesh.faces@,
            final(self).mesh.vertices@.len() == old(self).mesh.vertices@.len() + (old(self).length
                - 1) * (old(self).height - 2),
            forall|k: int|
                0 <= k < old(self).mesh.vertices@.len() ==> #[trigger] final(self).mesh.vertices@[k]
                    == old(self).mesh.vertices@[k],
            final(self).top@ == old(self).top@,
            final(self).bottom@ == old(self).bottom@,
            final(self).front@ == old(self).front@,
            final(self).right@ == old(self).right@,
            only_filled(old(self).left@, final(self).left@, final(self).nverts()),
            region_filled(
                final(self).left@,
                old(self).length as int,
                0,
                old(self).length - 1,
                1,
                (old(self).height - 1) as int,
                final(self).nverts(),
            ),
            region_filled(
                final(self).left@,
                old(self).length as int,
                old(self).length - 1,
                old(self).length as int,
                1,
                (old(self).height - 1) as int,
                final(self).nverts(),
            ),
            only_filled(old(self).back@, final(self).back@, final(self).nverts()),
            region_filled(
                final(self).back@,
                old(self).width as int,
                old(self).width - 1,
                old(self).width as int,
                1,
                (old(self).height - 1) as int,
                final(self).nverts(),
            ),
            forall|j: int|
                1 <= j < (old(self).height - 1) as int ==> final(self).left@[#[trigger] idx2(
                    (old(self).length - 1) as int,
                    j,
                    old(self).length as int,
                )] == final(self).front@[idx2(0, j, old(self).width as int)],
            forall|j: int|
                1 <= j < (old(self).height - 1) as int ==> final(self).back@[#[trigger] idx2(
                    (old(self).width - 1) as int,
                    j,
                    old(self).width as int,
                )] == final(self).left@[idx2(0, j, old(self).length as int)],
    {
        let w = self.width;
        let l = self.length;
        let p = self.height;
        let x = Fx::zero();
        let mut i: usize = 0;
        while i < l - 1
            invariant
                0 <= i <= l - 1,
                self.width == w,
                self.length == l,
                self.height == p,
                old(self).width == w,
                old(self).length == l,
                old(self).height == p,
                2 <= w <= 4096,
                2 <= l <= 4096,
                2 <= p <= 4096,
                self.surf == old(self).surf,
                self.left@.len() == l * p,
                self.top@ == old(self).top@,
                self.bottom@ == old(self).bottom@,
                self.front@ == old(self).front@,
                self.right@ == old(self).right@,
                self.back@ == old(self).back@,
                self.mesh.normals@ == old(self).mesh.normals@,
                self.mesh.faces@ == old(self).mesh.faces@,
                self.mesh.wf(),
                self.mesh.vertices@.len() == old(self).mesh.vertices@.len() + i * (p - 2),
                forall|k: int|
                    0 <= k < old(self).mesh.vertices@.len() ==> #[trigger] self.mesh.vertices@[k]
                        == old(self).mesh.vertices@[k],
                only_filled(old(self).left@, self.left@, self.nverts()),
                region_filled(
                    self.left@,
                    l as int,
                    0,
                    i as int,
                    1,
                    (p - 1) as int,
                    self.nverts(),
                ),
            decreases l - 1 - i,
        {
            let ghost pre = self.left@;
            let ghost pre_nv = self.nverts();
            let y = Self::to_coordinate(l - 1 - i, l);
            let h = self.surf.compute_clamped(x, y);
            Self::fill_side_column(&mut self.mesh, &mut self.left, l, i, p, x, y, h);
            proof {
                lemma_region_bounds(
                    l as int,
                    p as int,
                    0,
                    i as int,
                    1,
                    (p - 1) as int,
                    (l * p) as int,
                );
                lemma_region_kept(
                    pre,
                    self.left@,
                    l as int,
                    0,
                    i as int,
                    1,
                    (p - 1) as int,
                    pre_nv,
                    self.nverts(),
                );
                lemma_only_filled_trans(
                    old(self).left@,
                    pre,
                    self.left@,
                    pre_nv,
                    self.nverts(),
                );
                assert forall|i2: int, j2: int|
                    0 <= i2 < i as int + 1 && 1 <= j2 < (p - 1) as int implies {
                    &&& (#[trigger] self.left@[idx2(i2, j2, l as int)]) is Some
                    &&& self.left@[idx2(i2, j2, l as int)]->0 < self.nverts()
                } by {
                    if i2 < i as int {
                    } else {
                        assert(i2 == i as int);
                    }
                }
                assert((i as int + 1) * (p - 2) == i as int * (p - 2) + (p - 2)) by (
                nonlinear_arith);
            }
            i = i + 1;
        }
        let ghost nv2 = self.nverts();
        let ghost left_after_fill = self.left@;
        proof {
            assert forall|i2: int, j2: int| 0 <= i2 < 1 && 1 <= j2 < (p - 1) as int implies {
                &&& (#[trigger] self.left@[idx2(i2, j2, l as int)]) is Some
                &&& self.left@[idx2(i2, j2, l as int)]->0 < nv2
            } by {}
            assert forall|i2: int, j2: int| 0 <= i2 < 1 && 1 <= j2 < (p - 1) as int implies {
                &&& (#[trigger] self.front@[idx2(i2, j2, w as int)]) is Some
                &&& self.front@[idx2(i2, j2, w as int)]->0 < nv2
            } by {
                assert(old(self).front@[idx2(i2, j2, w as int)] is Some && old(self).front@[idx2(
                    i2,
                    j2,
                    w as int,
                )]->0 < old(self).nverts());
            }
        }
        Self::copy_column(&mut self.left, l, l - 1, &self.front, w, 0, p, Ghost(nv2));
        proof {
            lemma_region_bounds(l as int, p as int, 0, 1, 1, (p - 1) as int, (l * p) as int);
            lemma_region_kept(left_after_fill, self.left@, l as int, 0, 1, 1, (p - 1) as int, nv2, nv2);
        }
        Self::copy_column(&mut self.back, w, w - 1, &self.left, l, 0, p, Ghost(nv2));
        proof {
            lemma_region_bounds(l as int, p as int, 0, (l - 1) as int, 1, (p - 1) as int, (l
                * p) as int);
            lemma_region_kept(
                left_after_fill,
                self.left@,
                l as int,
                0,
                (l - 1) as int,
                1,
                (p - 1) as int,
                nv2,
                self.nverts(),
            );
            lemma_only_filled_trans(
                old(self).left@,
                left_after_fill,
                self.left@,
                nv2,
                self.nverts(),
            );
            lemma_only_filled_ok(old(self).left@, self.left@, old(self).nverts(), self.nverts());
            lemma_only_filled_ok(old(self).back@, self.back@, old(self).nverts(), self.nverts());
            lemma_grid_ok_monotone(self.top@, old(self).nverts(), self.nverts());
            lemma_grid_ok_monotone(self.bottom@, old(self).nverts(), self.nverts());
            lemma_grid_ok_monotone(self.front@, old(self).nverts(), self.nverts());
            lemma_grid_ok_monotone(self.right@, old(self).nverts(), self.nverts());
        }
    }

    /// Split every quad of a fully populated slot grid into two triangles
    /// with a fixed diagonal, all sharing one flat normal.
    fn triangulate_grid(
        mesh: &mut Mesh,
        grid: &Vec<Option<usize>>,
        dim1: usize,
        dim2: usize,
        normal_idx: usize,
    )
        requires
            old(mesh).wf(),
            normal_idx < old(mesh).normals@.len(),
            grid@.len() == dim1 * dim2,
            2 <= dim1 <= 4096,
            2 <= dim2 <= 4096,
            region_filled(
                grid@,
                dim1 as int,
                0,
                dim1 as int,
                0,
                dim2 as int,
                old(mesh).vertices@.len() as int,
            ),
        ensures
            final(mesh).wf(),
            final(mesh).vertices@ == old(mesh).vertices@,
            final(mesh).normals@ == old(mesh).normals@,
            final(mesh).faces@.len() == old(mesh).faces@.len() + 2 * ((dim1 - 1) * (dim2 - 1)),
    {
        let mut j: usize = 0;
        while j < dim2 - 1
            invariant
                0 <= j <= dim2 - 1,
                2 <= dim1 <= 4096,
                2 <= dim2 <= 4096,
                normal_idx < mesh.normals@.len(),
                grid@.len() == dim1 * dim2,
                region_filled(
                    grid@,
                    dim1 as int,
                    0,
                    dim1 as int,
                    0,
                    dim2 as int,
                    mesh.vertices@.len() as int,
                ),
                mesh.wf(),
                mesh.vertices@ == old(mesh).vertices@,
                mesh.normals@ == old(mesh).normals@,
                mesh.faces@.len() == old(mesh).faces@.len() + 2 * (j * (dim1 - 1)),
            decreases dim2 - 1 - j,
        {
            let mut i: usize = 0;
            while i < dim1 - 1
                invariant
                    0 <= i <= dim1 - 1,
                    0 <= j < dim2 - 1,
                    2 <= dim1 <= 4096,
                    2 <= dim2 <= 4096,
                    normal_idx < mesh.normals@.len(),
                    grid@.len() == dim1 * dim2,
                    region_filled(
                        grid@,
                        dim1 as int,
                        0,
                        dim1 as int,
                        0,
                        dim2 as int,
                        mesh.vertices@.len() as int,
                    ),
                    mesh.wf(),
                    mesh.vertices@ == old(mesh).vertices@,
                    mesh.normals@ == old(mesh).normals@,
                    mesh.faces@.len() == old(mesh).faces@.len() + 2 * (j * (dim1 - 1)) + 2 * i,
                decreases dim1 - 1 - i,
            {
                proof {
                    assert((j + 1) * dim1 + (i + 1) < dim1 * dim2 && dim1 * dim2 <= 16777216) by (
                    nonlinear_arith)
                        requires
                            0 <= i < dim1 - 1,
                            0 <= j < dim2 - 1,
                            2 <= dim1 <= 4096,
                            2 <= dim2 <= 4096,
                    ;
                    assert(j * dim1 + i < dim1 * dim2 && j * dim1 + (i + 1) < dim1 * dim2 && (j
                        + 1) * dim1 + i < dim1 * dim2) by (nonlinear_arith)
                        requires
                            0 <= i < dim1 - 1,
                            0 <= j < dim2 - 1,
                            2 <= dim1,
                            2 <= dim2,
                    ;
                    assert(grid@[idx2(i as int, j as int, dim1 as int)] is Some);
                    assert(grid@[idx2(i as int + 1, j as int, dim1 as int)] is Some);
                    assert(grid@[idx2(i as int + 1, j as int + 1, dim1 as int)] is Some);
                    assert(grid@[idx2(i as int, j as int + 1, dim1 as int)] is Some);
                }
                let v1 = grid[j * dim1 + i].unwrap();
                let v2 = grid[j * dim1 + (i + 1)].unwrap();
                let v3 = grid[(j + 1) * dim1 + (i + 1)].unwrap();
                let v4 = grid[(j + 1) * dim1 + i].unwrap();
                mesh.add_face(Face::new(v1, v2, v3, normal_idx));
                mesh.add_face(Face::new(v1, v3, v4, normal_idx));
                i = i + 1;
            }
            proof {
                assert(2 * ((j + 1) * (dim1 - 1)) == 2 * (j * (dim1 - 1)) + 2 * (dim1 - 1)) by (
                nonlinear_arith);
            }
            j = j + 1;
        }
        proof {
            assert(2 * ((dim2 - 1) * (dim1 - 1)) == 2 * ((dim1 - 1) * (dim2 - 1))) by (
            nonlinear_arith);
        }
    }

    /// Triangulate the top face with a flat per-triangle normal for each
    /// triangle, computed from the sampled corner positions.
    fn create_top_faces(&mut self)
        requires
            old(self).wf(),
            region_filled(
                old(self).top@,
                old(self).width as int,
                0,
                old(self).width as int,
                0,
                old(self).length as int,
                old(self).nverts(),
            ),
        ensures
            final(self).wf(),
            final(self).width == old(self).width,
            final(self).length == old(self).length,
            final(self).height == old(self).height,
            final(self).surf == old(self).surf,
            final(self).top@ == old(self).top@,
            final(self).bottom@ == old(self).bottom@,
            final(self).front@ == old(self).front@,
            final(self).right@ == old(self).right@,
            final(self).back@ == old(self).back@,
            final(self).left@ == old(self).left@,
            final(self).mesh.vertices@ == old(self).mesh.vertices@,
            final(self).mesh.faces@.len() == old(self).mesh.faces@.len() + 2 * ((old(self).width
                - 1) * (old(self).length - 1)),
            final(self).mesh.normals@.len() == old(self).mesh.normals@.len() + 2 * ((old(
                self,
            ).width - 1) * (old(self).length - 1)),
    {
        let w = self.width;
        let l = self.length;
        let mut j: usize = 0;
        while j < l - 1
            invariant
                0 <= j <= l - 1,
                self.width == w,
                self.length == l,
                self.height == old(self).height,
                old(self).width == w,
                old(self).length == l,
                2 <= w <= 4096,
                2 <= l <= 4096,
                self.surf == old(self).surf,
                self.top@ == old(self).top@,
                self.bottom@ == old(self).bottom@,
                self.front@ == old(self).front@,
                self.right@ == old(self).right@,
                self.back@ == old(self).back@,
                self.left@ == old(self).left@,
                self.top@.len() == w * l,
                region_filled(self.top@, w as int, 0, w as int, 0, l as int, self.nverts()),
                self.mesh.wf(),
                self.mesh.vertices@ == old(self).mesh.vertices@,
                self.mesh.faces@.len() == old(self).mesh.faces@.len() + 2 * (j * (w - 1)),
                self.mesh.normals@.len() == old(self).mesh.normals@.len() + 2 * (j * (w - 1)),
            decreases l - 1 - j,
        {
            let mut i: usize = 0;
            while i < w - 1
                invariant
                    0 <= i <= w - 1,
                    0 <= j < l - 1,
                    self.width == w,
                    self.length == l,
                    self.height == old(self).height,
                    old(self).width == w,
                    old(self).length == l,
                    2 <= w <= 4096,
                    2 <= l <= 4096,
                    self.surf == old(self).surf,
                    self.top@ == old(self).top@,
                    self.bottom@ == old(self).bottom@,
                    self.front@ == old(self).front@,
                    self.right@ == old(self).right@,
                    self.back@ == old(self).back@,
                    self.left@ == old(self).left@,
                    self.top@.len() == w * l,
                    region_filled(self.top@, w as int, 0, w as int, 0, l as int, self.nverts()),
                    self.mesh.wf(),
                    self.mesh.vertices@ == old(self).mesh.vertices@,
                    self.mesh.faces@.len() == old(self).mesh.faces@.len() + 2 * (j * (w - 1)) + 2
                        * i,
                    self.mesh.normals@.len() == old(self).mesh.normals@.len() + 2 * (j * (w - 1))
                        + 2 * i,
                decreases w - 1 - i,
            {
                proof {
                    assert((j + 1) * w + (i + 1) < w * l && w * l <= 16777216) by (nonlinear_arith)
                        requires
                            0 <= i < w - 1,
                            0 <= j < l - 1,
                            2 <= w <= 4096,
                            2 <= l <= 4096,
                    ;
                    assert(j * w + i < w * l && j * w + (i + 1) < w * l && (j + 1) * w + i < w
                        * l) by (nonlinear_arith)
                        requires
                            0 <= i < w - 1,
                            0 <= j < l - 1,
                            2 <= w,
                            2 <= l,
                    ;
                    assert(self.top@[idx2(i as int, j as int, w as int)] is Some);
                    assert(self.top@[idx2(i as int + 1, j as int, w as int)] is Some);
                    assert(self.top@[idx2(i as int + 1, j as int + 1, w as int)] is Some);
                    assert(self.top@[idx2(i as int, j as int + 1, w as int)] is Some);
                }
                let v1 = self.top[j * w + i].unwrap();
                let v2 = self.top[j * w + (i + 1)].unwrap();
                let v3 = self.top[(j + 1) * w + (i + 1)].unwrap();
                let v4 = self.top[(j + 1) * w + i].unwrap();
                self.mesh.add_triangle(v1, v2, v3);
                self.mesh.add_triangle(v1, v3, v4);
                i = i + 1;
            }
            proof {
                assert(2 * ((j + 1) * (w - 1)) == 2 * (j * (w - 1)) + 2 * (w - 1)) by (
                nonlinear_arith);
            }
            j = j + 1;
        }
        proof {
            assert(2 * ((l - 1) * (w - 1)) == 2 * ((w - 1) * (l - 1))) by (nonlinear_arith);
        }
    }

    /// Triangulate the flat bottom plate under one shared downward normal.
    fn create_bottom_faces(&mut self)
        requires
            old(self).wf(),
            region_filled(
                old(self).bottom@,
                old(self).width as int,
                0,
                old(self).width as int,
                0,
                old(self).length as int,
                old(self).nverts(),
            ),
        ensures
            final(self).wf(),
            final(self).width == old(self).width,
            final(self).length == old(self).length,
            final(self).height == old(self).height,
            final(self).surf == old(self).surf,
            final(self).top@ == old(self).top@,
            final(self).bottom@ == old(self).bottom@,
            final(self).front@ == old(self).front@,
            final(self).right@ == old(self).right@,
            final(self).back@ == old(self).back@,
            final(self).left@ == old(self).left@,
            final(self).mesh.vertices@ == old(self).mesh.vertices@,
            final(self).mesh.faces@.len() == old(self).mesh.faces@.len() + 2 * ((old(self).width
                - 1) * (old(self).length - 1)),
            final(self).mesh.normals@.len() == old(self).mesh.normals@.len() + 1,
    {
        let normal_idx = self.mesh.add_normal(Vec3(Fx { raw: 0 }, Fx { raw: 0 }, Fx { raw: -SCALE }));
        Self::triangulate_grid(&mut self.mesh, &self.bottom, self.width, self.length, normal_idx);
    }

    /// Triangulate the front face under one shared outward normal.
    fn create_front_faces(&mut self)
        requires
            old(self).wf(),
            region_filled(
                old(self).front@,
                old(self).width as int,
                0,
                old(self).width as int,
                0,
                old(self).height as int,
                old(self).nverts(),
            ),
        ensures
            final(self).wf(),
            final(self).width == old(self).width,
            final(self).length == old(self).length,
            final(self).height == old(self).height,
            final(self).surf == old(self).surf,
            final(self).top@ == old(self).top@,
            final(self).bottom@ == old(self).bottom@,
            final(self).front@ == old(self).front@,
            final(self).right@ == old(self).right@,
            final(self).back@ == old(self).back@,
            final(self).left@ == old(self).left@,
            final(self).mesh.vertices@ == old(self).mesh.vertices@,
            final(self).mesh.faces@.len() == old(self).mesh.faces@.len() + 2 * ((old(self).width
                - 1) * (old(self).height - 1)),
            final(self).mesh.normals@.len() == old(self).mesh.normals@.len() + 1,
    {
        let normal_idx = self.mesh.add_normal(Vec3(Fx { raw: 0 }, Fx { raw: -SCALE }, Fx { raw: 0 }));
        Self::triangulate_grid(&mut self.mesh, &self.front, self.width, self.height, normal_idx);
    }

    /// Triangulate the right face under one shared outward normal.
    fn create_right_faces(&mut self)
        requires
            old(self).wf(),
            region_filled(
                old(self).right@,
                old(self).length as int,
                0,
                old(self).length as int,
                0,
                old(self).height as int,
                old(self).nverts(),
            ),
        ensures
            final(self).wf(),
            final(self).width == old(self).width,
            final(self).length == old(self).length,
            final(self).height == old(self).height,
            final(self).surf == old(self).surf,
            final(self).top@ == old(self).top@,
            final(self).bottom@ == old(self).bottom@,
            final(self).front@ == old(self).front@,
            final(self).right@ == old(self).right@,
            final(self).back@ == old(self).back@,
            final(self).left@ == old(self).left@,
            final(self).mesh.vertices@ == old(self).mesh.vertices@,
            final(self).mesh.faces@.len() == old(self).mesh.faces@.len() + 2 * ((old(self).length
                - 1) * (old(self).height - 1)),
            final(self).mesh.normals@.len() == old(self).mesh.normals@.len() + 1,
    {
        let normal_idx = self.mesh.add_normal(Vec3(Fx { raw: SCALE }, Fx { raw: 0 }, Fx { raw: 0 }));
        Self::triangulate_grid(&mut self.mesh, &self.right, self.length, self.height, normal_idx);
    }

    /// Triangulate the back face under one shared outward normal.
    fn create_back_faces(&mut self)
        requires
            old(self).wf(),
            region_filled(
                old(self).back@,
                old(self).width as int,
                0,
                old(self).width as int,
                0,
                old(self).height as int,
                old(self).nverts(),
            ),
        ensures
            final(self).wf(),
            final(self).width == old(self).width,
            final(self).length == old(self).length,
            final(self).height == old(self).height,
            final(self).surf == old(self).surf,
            final(self).top@ == old(self).top@,
            final(self).bottom@ == old(self).bottom@,
            final(self).front@ == old(self).front@,
            final(self).right@ == old(self).right@,
            final(self).back@ == old(self).back@,
            final(self).left@ == old(self).left@,
            final(self).mesh.vertices@ == old(self).mesh.vertices@,
            final(self).mesh.faces@.len() == old(self).mesh.faces@.len() + 2 * ((old(self).width
                - 1) * (old(self).height - 1)),
            final(self).mesh.normals@.len() == old(self).mesh.normals@.len() + 1,
    {
        let normal_idx = self.mesh.add_normal(Vec3(Fx { raw: 0 }, Fx { raw: SCALE }, Fx { raw: 0 }));
        Self::triangulate_grid(&mut self.mesh, &self.back, self.width, self.height, normal_idx);
    }

    /// Triangulate the left face under one shared outward normal.
    fn create_left_faces(&mut self)
        requires
            old(self).wf(),
            region_filled(
                old(self).left@,
                old(self).length as int,
                0,
                old(self).length as int,
                0,
                old(self).height as int,
                old(self).nverts(),
            ),
        ensures
            final(self).wf(),
            final(self).width == old(self).width,
            final(self).length == old(self).length,
            final(self).height == old(self).height,
            final(self).surf == old(self).surf,
            final(self).top@ == old(self).top@,
            final(self).bottom@ == old(self).bottom@,
            final(self).front@ == old(self).front@,
            final(self).right@ == old(self).right@,
            final(self).back@ == old(self).back@,
            final(self).left@ == old(self).left@,
            final(self).mesh.vertices@ == old(self).mesh.vertices@,
            final(self).mesh.faces@.len() == old(self).mesh.faces@.len() + 2 * ((old(self).length
                - 1) * (old(self).height - 1)),
            final(self).mesh.normals@.len() == old(self).mesh.normals@.len() + 1,
    {
        let normal_idx = self.mesh.add_normal(Vec3(Fx { raw: -SCALE }, Fx { raw: 0 }, Fx { raw: 0 }));
        Self::triangulate_grid(&mut self.mesh, &self.left, self.length, self.height, normal_idx);
    }

    /// Build the whole solid: populate every face's slot grid (all sharing
    /// vertices along common edges), then triangulate all six faces. The
    /// two phases run strictly in this order; the postconditions show that
    /// no slot grid is left with an unpopulated entry and give the exact
    /// sizes of the geometry produced.
    pub fn generate_mesh(&mut self)
        requires
            old(self).wf(),
            old(self).fresh(),
        ensures
            final(self).wf(),
            final(self).width == old(self).width,
            final(self).length == old(self).length,
            final(self).height == old(self).height,
            final(self).surf == old(self).surf,
            final(self).fully_populated(),
            final(self).mesh.vertices@.len() == 2 * (old(self).width * old(self).length) + 2 * ((
            old(self).width - 1) * (old(self).height - 2)) + 2 * ((old(self).length - 1) * (old(
            self,
            ).height - 2)),
            final(self).mesh.faces@.len() == 4 * ((old(self).width - 1) * (old(self).length - 1))
                + 4 * ((old(self).width - 1) * (old(self).height - 1)) + 4 * ((old(self).length
                - 1) * (old(self).height - 1)),
            final(self).mesh.normals@.len() == 2 * ((old(self).width - 1) * (old(self).length - 1))
                + 5,
            forall|k: int|
                0 <= k < old(self).width * old(self).length ==> #[trigger] final(self).top@[k]
                    == Some(k as usize),
            forall|i: int, j: int|
                0 <= i < old(self).width && 0 <= j < old(self).length
                    ==> final(self).mesh.vertices@[#[trigger] idx2(i, j, old(self).width as int)]
                    == top_sample(
                    old(self).surf,
                    i,
                    j,
                    old(self).width as int,
                    old(self).length as int,
                ),
            forall|k: int|
                0 <= k < old(self).width * old(self).length ==> #[trigger] final(self).bottom@[k]
                    == Some((old(self).width * old(self).length + k) as usize),
            forall|i: int, j: int|
                0 <= i < old(self).width && 0 <= j < old(self).length
                    ==> final(self).mesh.vertices@[old(self).width * old(self).length
                    + #[trigger] idx2(i, j, old(self).width as int)] == bottom_sample(
                    i,
                    j,
                    old(self).width as int,
                    old(self).length as int,
                ),
    {
        let ghost w = old(self).width as int;
        let ghost l = old(self).length as int;
        let ghost p = old(self).height as int;
        self.populate_top();
        let ghost s1 = *self;
        self.populate_bottom();
        let ghost s2 = *self;
        self.populate_front();
        let ghost s3 = *self;
        self.populate_right();
        let ghost s4 = *self;
        self.populate_back();
        let ghost s5 = *self;
        proof {
            // the front face's first interior column survived the passes
            // after populate_front, so populate_left may alias it
            lemma_region_bounds(w, p, 0, w - 1, 1, p - 1, w * p);
            lemma_region_kept(
                s3.front@,
                s4.front@,
                w,
                0,
                w - 1,
                1,
                p - 1,
                s3.nverts(),
                s4.nverts(),
            );
            lemma_region_kept(
                s4.front@,
                s5.front@,
                w,
                0,
                w - 1,
                1,
                p - 1,
                s4.nverts(),
                s5.nverts(),
            );
            assert forall|i2: int, j2: int| 0 <= i2 < 1 && 1 <= j2 < p - 1 implies {
                &&& (#[trigger] self.front@[idx2(i2, j2, w)]) is Some
                &&& self.front@[idx2(i2, j2, w)]->0 < self.nverts()
            } by {}
        }
        self.populate_left();
        let ghost s6 = *self;
        proof {
            let nv = s6.nverts();
            assert(w * p == p * w && l * p == p * l && w <= w * p && l <= l * p && w * l == l * w)
                by (nonlinear_arith)
                requires
                    2 <= w,
                    2 <= p,
                    2 <= l,
            ;
            // top and bottom: untouched since their own pass filled them
            lemma_region_from_flat(s6.top@, w, l, s1.nverts(), nv);
            lemma_region_from_flat(s6.bottom@, w, l, s2.nverts(), nv);
            // front: top row, bottom row, interior columns, corner column
            lemma_range_kept(s1.front@, s2.front@, (p - 1) * w, p * w, s1.nverts(), s2.nverts());
            lemma_range_kept(s2.front@, s3.front@, (p - 1) * w, p * w, s2.nverts(), s3.nverts());
            lemma_range_kept(s3.front@, s4.front@, (p - 1) * w, p * w, s3.nverts(), s4.nverts());
            lemma_range_kept(s4.front@, s6.front@, (p - 1) * w, p * w, s4.nverts(), nv);
            lemma_range_kept(s2.front@, s3.front@, 0, w, s2.nverts(), s3.nverts());
            lemma_range_kept(s3.front@, s4.front@, 0, w, s3.nverts(), s4.nverts());
            lemma_range_kept(s4.front@, s6.front@, 0, w, s4.nverts(), nv);
            lemma_region_bounds(w, p, 0, w - 1, 1, p - 1, w * p);
            lemma_region_kept(s5.front@, s6.front@, w, 0, w - 1, 1, p - 1, s5.nverts(), nv);
            lemma_region_bounds(w, p, w - 1, w, 1, p - 1, w * p);
            lemma_region_kept(s4.front@, s6.front@, w, w - 1, w, 1, p - 1, s4.nverts(), nv);
            lemma_side_grid_full(s6.front@, w, p, nv);
            // right: rows from top/bottom passes, columns from right/back
            lemma_range_kept(s1.right@, s2.right@, (p - 1) * l, p * l, s1.nverts(), s2.nverts());
            lemma_range_kept(s3.right@, s4.right@, (p - 1) * l, p * l, s3.nverts(), s4.nverts());
            lemma_range_kept(s4.right@, s5.right@, (p - 1) * l, p * l, s4.nverts(), s5.nverts());
            lemma_range_kept(s5.right@, s6.right@, (p - 1) * l, p * l, s5.nverts(), nv);
            lemma_range_kept(s3.right@, s4.right@, 0, l, s3.nverts(), s4.nverts());
            lemma_range_kept(s4.right@, s5.right@, 0, l, s4.nverts(), s5.nverts());
            lemma_range_kept(s5.right@, s6.right@, 0, l, s5.nverts(), nv);
            lemma_region_bounds(l, p, 0, l - 1, 1, p - 1, l * p);
            lemma_region_kept(s4.right@, s5.right@, l, 0, l - 1, 1, p - 1, s4.nverts(), s5.nverts());
            lemma_region_kept(s5.right@, s6.right@, l, 0, l - 1, 1, p - 1, s5.nverts(), nv);
            lemma_region_bounds(l, p, l - 1, l, 1, p - 1, l * p);
            lemma_region_kept(s5.right@, s6.right@, l, l - 1, l, 1, p - 1, s5.nverts(), nv);
            lemma_side_grid_full(s6.right@, l, p, nv);
            // back: rows from top/bottom passes, columns from back/left
            lemma_range_kept(s1.back@, s2.back@, (p - 1) * w, p * w, s1.nverts(), s2.nverts());
            lemma_range_kept(s4.back@, s5.back@, (p - 1) * w, p * w, s4.nverts(), s5.nverts());
            lemma_range_kept(s5.back@, s6.back@, (p - 1) * w, p * w, s5.nverts(), nv);
            lemma_range_kept(s2.back@, s5.back@, 0, w, s2.nverts(), s5.nverts());
            lemma_range_kept(s5.back@, s6.back@, 0, w, s5.nverts(), nv);
            lemma_region_kept(s5.back@, s6.back@, w, 0, w - 1, 1, p - 1, s5.nverts(), nv);
            lemma_side_grid_full(s6.back@, w, p, nv);
            // left: rows from top/bottom passes, columns from its own pass
            lemma_range_kept(s1.left@, s2.left@, (p - 1) * l, p * l, s1.nverts(), s2.nverts());
            lemma_range_kept(s2.left@, s6.left@, (p - 1) * l, p * l, s2.nverts(), nv);
            lemma_range_kept(s2.left@, s6.left@, 0, l, s2.nverts(), nv);
            lemma_side_grid_full(s6.left@, l, p, nv);
            // the sampled faces carry their data through the later passes:
            // the top face's vertices are the first w*l, the bottom's the next
            lemma_region_bounds(w, l, 0, w, 0, l, w * l);
            assert forall|i2: int, j2: int| 0 <= i2 < w && 0 <= j2 < l implies
                s6.mesh.vertices@[#[trigger] idx2(i2, j2, w)] == top_sample(
                old(self).surf,
                i2,
                j2,
                w,
                l,
            ) by {
                assert(s1.mesh.vertices@[0 + idx2(i2, j2, w)] == top_sample(
                    old(self).surf,
                    i2,
                    j2,
                    w,
                    l,
                ));
                assert(s2.mesh.vertices@[idx2(i2, j2, w)] == s1.mesh.vertices@[idx2(i2, j2, w)]);
                assert(s3.mesh.vertices@[idx2(i2, j2, w)] == s2.mesh.vertices@[idx2(i2, j2, w)]);
                assert(s4.mesh.vertices@[idx2(i2, j2, w)] == s3.mesh.vertices@[idx2(i2, j2, w)]);
                assert(s5.mesh.vertices@[idx2(i2, j2, w)] == s4.mesh.vertices@[idx2(i2, j2, w)]);
                assert(s6.mesh.vertices@[idx2(i2, j2, w)] == s5.mesh.vertices@[idx2(i2, j2, w)]);
            }
            assert forall|i2: int, j2: int| 0 <= i2 < w && 0 <= j2 < l implies
                s6.mesh.vertices@[w * l + #[trigger] idx2(i2, j2, w)] == bottom_sample(
                i2,
                j2,
                w,
                l,
            ) by {
                assert(s2.mesh.vertices@[s1.mesh.vertices@.len() + idx2(i2, j2, w)]
                    == bottom_sample(i2, j2, w, l));
                assert(s1.mesh.vertices@.len() == w * l);
                assert(s3.mesh.vertices@[w * l + idx2(i2, j2, w)] == s2.mesh.vertices@[w * l
                    + idx2(i2, j2, w)]);
                assert(s4.mesh.vertices@[w * l + idx2(i2, j2, w)] == s3.mesh.vertices@[w * l
                    + idx2(i2, j2, w)]);
                assert(s5.mesh.vertices@[w * l + idx2(i2, j2, w)] == s4.mesh.vertices@[w * l
                    + idx2(i2, j2, w)]);
                assert(s6.mesh.vertices@[w * l + idx2(i2, j2, w)] == s5.mesh.vertices@[w * l
                    + idx2(i2, j2, w)]);
            }
            assert forall|k: int| 0 <= k < w * l implies #[trigger] s6.top@[k] == Some(
                k as usize,
            ) by {
                assert(s1.top@[k] == Some((0 + k) as usize));
            }
            assert forall|k: int| 0 <= k < w * l implies #[trigger] s6.bottom@[k] == Some((w * l
                + k) as usize) by {
                assert(s2.bottom@[k] == Some((s1.mesh.vertices@.len() + k) as usize));
                assert(s1.mesh.vertices@.len() == w * l);
            }
        }
        self.create_top_faces();
        self.create_bottom_faces();
        self.create_front_faces();
        self.create_right_faces();
        self.create_back_faces();
        self.create_left_faces();
    }

    /// Whether every slot of one grid has been populated.
    fn grid_all_some(g: &Vec<Option<usize>>) -> (r: bool)
        ensures
            r == grid_full(g@),
    {
        let mut k: usize = 0;
        while k < g.len()
            invariant
                0 <= k <= g@.len(),
                forall|k2: int| 0 <= k2 < k ==> (#[trigger] g@[k2]) is Some,
            decreases g@.len() - k,
        {
            if g[k].is_none() {
                return false;
            }
            k = k + 1;
        }
        true
    }

    /// Whether every face-slot grid is fully populated: the runtime form
    /// of the builder's population guarantee.
    pub fn slots_populated(&self) -> (r: bool)
        ensures
            r == self.fully_populated(),
    {
        Self::grid_all_some(&self.top) && Self::grid_all_some(&self.bottom) && Self::grid_all_some(
            &self.front,
        ) && Self::grid_all_some(&self.right) && Self::grid_all_some(&self.back)
            && Self::grid_all_some(&self.left)
    }
}

} // verus!
