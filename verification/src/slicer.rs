//! Cuts a surface into interlocking cross-sections: one slice per sample
//! line, each an outline under the surface plus the slits that let the
//! perpendicular slices mesh together.

use crate::fixed::{add_v, clamp01_v, div_trunc, div_v, sub_v, Fx, SCALE};
use crate::geom::Vec2;
use crate::heights::{eval2, Height2};
use crate::polylines::{Polyline, Slice};
use vstd::prelude::*;

verus! {

/// The truncated midpoint of two fixed-point values.
pub open spec fn mid_v(a: int, b: int) -> int {
    div_trunc(add_v(a, b), 2)
}

/// The in-order midpoint-bisection samples of `[left, right]`: bisect to
/// `max_depth` levels, emitting each interval's midpoint between the
/// samples of its two halves.
pub open spec fn intervals_v(left: int, right: int, depth: nat, max_depth: nat) -> Seq<Fx>
    decreases max_depth - depth,
{
    let mid = Fx { raw: mid_v(left, right) as i64 };
    if depth >= max_depth {
        seq![mid]
    } else {
        intervals_v(left, mid.raw as int, (depth + 1) as nat, max_depth) + seq![mid] + intervals_v(
            mid.raw as int,
            right,
            (depth + 1) as nat,
            max_depth,
        )
    }
}

/// The field's value clipped into `[0, 1]`: the height used for slicing.
pub open spec fn clamped_at(surface: Height2, x: int, y: int) -> int {
    clamp01_v(eval2(surface, x, y))
}

/// The truncated midpoint, executably.
fn midpoint(a: Fx, b: Fx) -> (r: Fx)
    ensures
        r@ == mid_v(a@, b@),
{
    let s = a.add(b);
    proof {
        crate::fixed::lemma_div_trunc_bound(s.raw as int, 2);
    }
    Fx { raw: s.raw.checked_div(2).unwrap() }
}

/// Recursive midpoint bisection, emitting samples in ascending position.
fn intervals(left: Fx, right: Fx, depth: u32, max_depth: u32) -> (r: Vec<Fx>)
    requires
        depth <= max_depth,
    ensures
        r@ == intervals_v(left@, right@, depth as nat, max_depth as nat),
    decreases max_depth - depth,
{
    let mid = midpoint(left, right);
    if depth >= max_depth {
        let mut v: Vec<Fx> = Vec::new();
        v.push(mid);
        proof {
            assert(v@ =~= seq![mid]);
        }
        v
    } else {
        let mut result = intervals(left, mid, depth + 1, max_depth);
        result.push(mid);
        let mut rest = intervals(mid, right, depth + 1, max_depth);
        result.append(&mut rest);
        proof {
            assert(result@ =~= intervals_v(left@, mid@, (depth + 1) as nat, max_depth as nat)
                + seq![mid] + intervals_v(mid@, right@, (depth + 1) as nat, max_depth as nat));
        }
        result
    }
}

/// The unit-interval samples, optionally bracketed by the two endpoints.
fn make_intervals(max_depth: u32, include_endpoints: bool) -> (r: Vec<Fx>)
    ensures
        !include_endpoints ==> r@ == intervals_v(0, SCALE as int, 0, max_depth as nat),
        include_endpoints ==> r@ == seq![Fx { raw: 0 }] + intervals_v(
            0,
            SCALE as int,
            0,
            max_depth as nat,
        ) + seq![Fx { raw: SCALE }],
        r@.len() >= 1,
{
    let mut result: Vec<Fx> = Vec::new();
    if include_endpoints {
        result.push(Fx { raw: 0 });
    }
    let mut inner = intervals(Fx { raw: 0 }, Fx { raw: SCALE }, 0, max_depth);
    result.append(&mut inner);
    if include_endpoints {
        result.push(Fx { raw: SCALE });
    }
    proof {
        if include_endpoints {
            assert(result@ =~= seq![Fx { raw: 0 }] + intervals_v(
                0,
                SCALE as int,
                0,
                max_depth as nat,
            ) + seq![Fx { raw: SCALE }]);
        }
    }
    result
}

/// What one cross-section along `x` at line `y0` must hold: the outline
/// runs along the base from the origin to `(1, 0)`, then back across the
/// clipped surface heights in descending `x`, closed; each slit drops from
/// the surface to half height at its sample position.
pub open spec fn is_x_slice(
    surface: Height2,
    curve_res: nat,
    slice_res: nat,
    y0: int,
    sl: Slice,
) -> bool {
    let curve = seq![Fx { raw: 0 }] + intervals_v(0, SCALE as int, 0, curve_res) + seq![
        Fx { raw: SCALE },
    ];
    let posts = intervals_v(0, SCALE as int, 0, slice_res);
    &&& sl.outline.vertices@.len() == curve.len() + 3
    &&& sl.outline.vertices@[0] == Vec2(Fx { raw: 0 }, Fx { raw: 0 })
    &&& sl.outline.vertices@[1] == Vec2(Fx { raw: SCALE }, Fx { raw: 0 })
    &&& forall|k: int|
        0 <= k < curve.len() ==> #[trigger] sl.outline.vertices@[2 + k] == (Vec2(
            curve[curve.len() - 1 - k],
            Fx { raw: clamped_at(surface, curve[curve.len() - 1 - k]@, y0) as i64 },
        ))
    &&& sl.outline.vertices@[curve.len() as int + 2] == sl.outline.vertices@[0]
    &&& sl.slits@.len() == posts.len()
    &&& forall|s: int|
        0 <= s < posts.len() ==> #[trigger] sl.slits@[s].vertices@ == (seq![
            Vec2(posts[s], Fx { raw: clamped_at(surface, posts[s]@, y0) as i64 }),
            Vec2(
                posts[s],
                Fx { raw: div_v(clamped_at(surface, posts[s]@, y0), 2 * SCALE as int) as i64 },
            ),
        ])
}

/// What one cross-section along `y` at line `x0` must hold: the same base,
/// then the clipped heights plotted at `1 - y` in ascending `y`, closed;
/// each slit rises from the base to half height.
pub open spec fn is_y_slice(
    surface: Height2,
    curve_res: nat,
    slice_res: nat,
    x0: int,
    sl: Slice,
) -> bool {
    let curve = seq![Fx { raw: 0 }] + intervals_v(0, SCALE as int, 0, curve_res) + seq![
        Fx { raw: SCALE },
    ];
    let posts = intervals_v(0, SCALE as int, 0, slice_res);
    &&& sl.outline.vertices@.len() == curve.len() + 3
    &&& sl.outline.vertices@[0] == Vec2(Fx { raw: 0 }, Fx { raw: 0 })
    &&& sl.outline.vertices@[1] == Vec2(Fx { raw: SCALE }, Fx { raw: 0 })
    &&& forall|k: int|
        0 <= k < curve.len() ==> #[trigger] sl.outline.vertices@[2 + k] == (Vec2(
            Fx { raw: sub_v(SCALE as int, curve[k]@) as i64 },
            Fx { raw: clamped_at(surface, x0, curve[k]@) as i64 },
        ))
    &&& sl.outline.vertices@[curve.len() as int + 2] == sl.outline.vertices@[0]
    &&& sl.slits@.len() == posts.len()
    &&& forall|s: int|
        0 <= s < posts.len() ==> #[trigger] sl.slits@[s].vertices@ == (seq![
            Vec2(Fx { raw: sub_v(SCALE as int, posts[s]@) as i64 }, Fx { raw: 0 }),
            Vec2(
                Fx { raw: sub_v(SCALE as int, posts[s]@) as i64 },
                Fx { raw: div_v(clamped_at(surface, x0, posts[s]@), 2 * SCALE as int) as i64 },
            ),
        ])
}

/// Cuts one surface into two perpendicular families of slices.
#[derive(Debug)]
pub struct Slicer {
    /// Bisection depth for slice placement (and slit placement).
    pub slice_res: u32,
    /// Bisection depth for outline sampling.
    pub curve_res: u32,
    /// The surface being sliced.
    pub surface: Height2,
}

impl Slicer {
    pub fn new(slice_res: u32, curve_res: u32, surface: Height2) -> (r: Slicer)
        ensures
            r.slice_res == slice_res,
            r.curve_res == curve_res,
            r.surface == surface,
    {
        Slicer { slice_res, curve_res, surface }
    }

    /// One slice per sample line parallel to the `x` axis.
    pub fn make_x_slices(&self) -> (r: Vec<Slice>)
        ensures
            r@.len() == intervals_v(0, SCALE as int, 0, self.slice_res as nat).len(),
            forall|s: int|
                0 <= s < r@.len() ==> is_x_slice(
                    self.surface,
                    self.curve_res as nat,
                    self.slice_res as nat,
                    intervals_v(0, SCALE as int, 0, self.slice_res as nat)[s]@,
                    #[trigger] r@[s],
                ),
    {
        let lines = make_intervals(self.slice_res, false);
        let mut result: Vec<Slice> = Vec::new();
        let mut s: usize = 0;
        while s < lines.len()
            invariant
                0 <= s <= lines@.len(),
                lines@ == intervals_v(0, SCALE as int, 0, self.slice_res as nat),
                result@.len() == s,
                forall|s2: int|
                    0 <= s2 < s ==> is_x_slice(
                        self.surface,
                        self.curve_res as nat,
                        self.slice_res as nat,
                        lines@[s2]@,
                        #[trigger] result@[s2],
                    ),
            decreases lines@.len() - s,
        {
            let slice = self.make_x_slice(lines[s]);
            result.push(slice);
            s = s + 1;
        }
        result
    }

    /// Build one cross-section along `x` at line `y0`.
    fn make_x_slice(&self, y0: Fx) -> (r: Slice)
        ensures
            is_x_slice(self.surface, self.curve_res as nat, self.slice_res as nat, y0@, r),
    {
        let curve = make_intervals(self.curve_res, true);
        let mut outline_vertices: Vec<Vec2> = Vec::new();
        outline_vertices.push(Vec2(Fx { raw: 0 }, Fx { raw: 0 }));
        outline_vertices.push(Vec2(Fx { raw: SCALE }, Fx { raw: 0 }));
        let n = curve.len();
        let mut k: usize = 0;
        while k < n
            invariant
                0 <= k <= n,
                n == curve@.len(),
                outline_vertices@.len() == 2 + k,
                outline_vertices@[0] == Vec2(Fx { raw: 0 }, Fx { raw: 0 }),
                outline_vertices@[1] == Vec2(Fx { raw: SCALE }, Fx { raw: 0 }),
                forall|k2: int|
                    0 <= k2 < k ==> #[trigger] outline_vertices@[2 + k2] == (Vec2(
                        curve@[n - 1 - k2],
                        Fx { raw: clamped_at(self.surface, curve@[n - 1 - k2]@, y0@) as i64 },
                    )),
            decreases n - k,
        {
            let x = curve[n - 1 - k];
            let height = self.surface.compute_clamped(x, y0);
            outline_vertices.push(Vec2(x, height));
            k = k + 1;
        }
        let outline = Polyline::new(&outline_vertices, true);
        let posts = make_intervals(self.slice_res, false);
        let half = Fx { raw: 2 * SCALE };
        let mut slits: Vec<Polyline> = Vec::new();
        let mut s: usize = 0;
        while s < posts.len()
            invariant
                0 <= s <= posts@.len(),
                half@ == 2 * SCALE as int,
                slits@.len() == s,
                forall|s2: int|
                    0 <= s2 < s ==> #[trigger] slits@[s2].vertices@ == (seq![
                        Vec2(
                            posts@[s2],
                            Fx { raw: clamped_at(self.surface, posts@[s2]@, y0@) as i64 },
                        ),
                        Vec2(
                            posts@[s2],
                            Fx {
                                raw: div_v(
                                    clamped_at(self.surface, posts@[s2]@, y0@),
                                    2 * SCALE as int,
                                ) as i64,
                            },
                        ),
                    ]),
            decreases posts@.len() - s,
        {
            let x = posts[s];
            let height = self.surface.compute_clamped(x, y0);
            let mut pts: Vec<Vec2> = Vec::new();
            pts.push(Vec2(x, height));
            pts.push(Vec2(x, height.div(half)));
            let slit = Polyline::new(&pts, false);
            proof {
                assert(slit.vertices@ =~= seq![
                    Vec2(x, height),
                    Vec2(x, Fx { raw: div_v(height@, 2 * SCALE as int) as i64 }),
                ]);
            }
            slits.push(slit);
            s = s + 1;
        }
        Slice::new(outline, slits)
    }

    /// One slice per sample line parallel to the `y` axis.
    pub fn make_y_slices(&self) -> (r: Vec<Slice>)
        ensures
            r@.len() == intervals_v(0, SCALE as int, 0, self.slice_res as nat).len(),
            forall|s: int|
                0 <= s < r@.len() ==> is_y_slice(
                    self.surface,
                    self.curve_res as nat,
                    self.slice_res as nat,
                    intervals_v(0, SCALE as int, 0, self.slice_res as nat)[s]@,
                    #[trigger] r@[s],
                ),
    {
        let lines = make_intervals(self.slice_res, false);
        let mut result: Vec<Slice> = Vec::new();
        let mut s: usize = 0;
        while s < lines.len()
            invariant
                0 <= s <= lines@.len(),
                lines@ == intervals_v(0, SCALE as int, 0, self.slice_res as nat),
                result@.len() == s,
                forall|s2: int|
                    0 <= s2 < s ==> is_y_slice(
                        self.surface,
                        self.curve_res as nat,
                        self.slice_res as nat,
                        lines@[s2]@,
                        #[trigger] result@[s2],
                    ),
            decreases lines@.len() - s,
        {
            let slice = self.make_y_slice(lines[s]);
            result.push(slice);
            s = s + 1;
        }
        result
    }

    /// Build one cross-section along `y` at line `x0`.
    fn make_y_slice(&self, x0: Fx) -> (r: Slice)
        ensures
            is_y_slice(self.surface, self.curve_res as nat, self.slice_res as nat, x0@, r),
    {
        let one = Fx { raw: SCALE };
        let curve = make_intervals(self.curve_res, true);
        let mut outline_vertices: Vec<Vec2> = Vec::new();
        outline_vertices.push(Vec2(Fx { raw: 0 }, Fx { raw: 0 }));
        outline_vertices.push(Vec2(Fx { raw: SCALE }, Fx { raw: 0 }));
        let n = curve.len();
        let mut k: usize = 0;
        while k < n
            invariant
                0 <= k <= n,
                n == curve@.len(),
                one@ == SCALE as int,
                outline_vertices@.len() == 2 + k,
                outline_vertices@[0] == Vec2(Fx { raw: 0 }, Fx { raw: 0 }),
                outline_vertices@[1] == Vec2(Fx { raw: SCALE }, Fx { raw: 0 }),
                forall|k2: int|
                    0 <= k2 < k ==> #[trigger] outline_vertices@[2 + k2] == (Vec2(
                        Fx { raw: sub_v(SCALE as int, curve@[k2]@) as i64 },
                        Fx { raw: clamped_at(self.surface, x0@, curve@[k2]@) as i64 },
                    )),
            decreases n - k,
        {
            let y = curve[k];
            let height = self.surface.compute_clamped(x0, y);
            outline_vertices.push(Vec2(one.sub(y), height));
            k = k + 1;
        }
        let outline = Polyline::new(&outline_vertices, true);
        let posts = make_intervals(self.slice_res, false);
        let half = Fx { raw: 2 * SCALE };
        let mut slits: Vec<Polyline> = Vec::new();
        let mut s: usize = 0;
        while s < posts.len()
            invariant
                0 <= s <= posts@.len(),
                one@ == SCALE as int,
                half@ == 2 * SCALE as int,
                slits@.len() == s,
                forall|s2: int|
                    0 <= s2 < s ==> #[trigger] slits@[s2].vertices@ == (seq![
                        Vec2(
                            Fx { raw: sub_v(SCALE as int, posts@[s2]@) as i64 },
                            Fx { raw: 0 },
                        ),
                        Vec2(
                            Fx { raw: sub_v(SCALE as int, posts@[s2]@) as i64 },
                            Fx {
                                raw: div_v(
                                    clamped_at(self.surface, x0@, posts@[s2]@),
                                    2 * SCALE as int,
                                ) as i64,
                            },
                        ),
                    ]),
            decreases posts@.len() - s,
        {
            let y = posts[s];
            let height = self.surface.compute_clamped(x0, y);
            let mut pts: Vec<Vec2> = Vec::new();
            pts.push(Vec2(one.sub(y), Fx { raw: 0 }));
            pts.push(Vec2(one.sub(y), height.div(half)));
            let slit = Polyline::new(&pts, false);
            proof {
                assert(slit.vertices@ =~= seq![
                    Vec2(Fx { raw: sub_v(SCALE as int, y@) as i64 }, Fx { raw: 0 }),
                    Vec2(
                        Fx { raw: sub_v(SCALE as int, y@) as i64 },
                        Fx { raw: div_v(height@, 2 * SCALE as int) as i64 },
                    ),
                ]);
            }
            slits.push(slit);
            s = s + 1;
        }
        Slice::new(outline, slits)
    }
}

} // verus!
