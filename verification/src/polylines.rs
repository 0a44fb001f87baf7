//! Cross-section outlines: bounding boxes, polylines and slices, the flat
//! geometry handed to the page-layout printer.

use crate::fixed::{add_v, max_v, min_v, mul_v, sub_v, Fx, MAX_RAW};
use crate::geom::Vec2;
use vstd::prelude::*;

verus! {

/// Running minimum of the `x` components over a prefix, seeded with the
/// plus-infinity stand-in.
pub open spec fn fold_min_x(vs: Seq<Vec2>, k: nat) -> int
    decreases k,
{
    if k == 0 {
        MAX_RAW as int
    } else {
        min_v(fold_min_x(vs, (k - 1) as nat), vs[k - 1].0@)
    }
}

/// Running maximum of the `x` components, seeded with minus infinity.
pub open spec fn fold_max_x(vs: Seq<Vec2>, k: nat) -> int
    decreases k,
{
    if k == 0 {
        -(MAX_RAW as int)
    } else {
        max_v(fold_max_x(vs, (k - 1) as nat), vs[k - 1].0@)
    }
}

/// Running minimum of the `y` components.
pub open spec fn fold_min_y(vs: Seq<Vec2>, k: nat) -> int
    decreases k,
{
    if k == 0 {
        MAX_RAW as int
    } else {
        min_v(fold_min_y(vs, (k - 1) as nat), vs[k - 1].1@)
    }
}

/// Running maximum of the `y` components.
pub open spec fn fold_max_y(vs: Seq<Vec2>, k: nat) -> int
    decreases k,
{
    if k == 0 {
        -(MAX_RAW as int)
    } else {
        max_v(fold_max_y(vs, (k - 1) as nat), vs[k - 1].1@)
    }
}

/// An axis-aligned bounding box grown point by point. A fresh box starts
/// inverted (each bound at the hostile infinity stand-in) so that the
/// first point snaps all four bounds onto itself.
#[derive(Debug)]
pub struct BBox {
    pub left: Fx,
    pub right: Fx,
    pub top: Fx,
    pub bottom: Fx,
}

impl BBox {
    pub fn new() -> (r: BBox)
        ensures
            r.left@ == MAX_RAW as int,
            r.right@ == -(MAX_RAW as int),
            r.top@ == -(MAX_RAW as int),
            r.bottom@ == MAX_RAW as int,
    {
        BBox {
            left: Fx { raw: MAX_RAW },
            right: Fx { raw: -MAX_RAW },
            top: Fx { raw: -MAX_RAW },
            bottom: Fx { raw: MAX_RAW },
        }
    }

    /// Widen each bound just enough to cover the point.
    pub fn add_point(&mut self, point: &Vec2)
        ensures
            final(self).left@ == min_v(old(self).left@, point.0@),
            final(self).right@ == max_v(old(self).right@, point.0@),
            final(self).bottom@ == min_v(old(self).bottom@, point.1@),
            final(self).top@ == max_v(old(self).top@, point.1@),
    {
        let Vec2(x, y) = *point;
        if x.lt(self.left) {
            self.left = x;
        }
        if self.right.lt(x) {
            self.right = x;
        }
        if y.lt(self.bottom) {
            self.bottom = y;
        }
        if self.top.lt(y) {
            self.top = y;
        }
    }

    pub fn width(&self) -> (r: Fx)
        ensures
            r@ == sub_v(self.right@, self.left@),
    {
        self.right.sub(self.left)
    }

    pub fn height(&self) -> (r: Fx)
        ensures
            r@ == sub_v(self.top@, self.bottom@),
    {
        self.top.sub(self.bottom)
    }

    /// The box's outline as a closed polyline, corners in drawing order.
    pub fn get_outline(&self) -> (r: Polyline)
        ensures
            r.vertices@ == seq![
                Vec2(self.left, self.bottom),
                Vec2(self.right, self.bottom),
                Vec2(self.right, self.top),
                Vec2(self.left, self.top),
                Vec2(self.left, self.bottom),
            ],
    {
        let corners = vec![
            Vec2(self.left, self.bottom),
            Vec2(self.right, self.bottom),
            Vec2(self.right, self.top),
            Vec2(self.left, self.top),
        ];
        let r = Polyline::new(&corners, true);
        proof {
            assert(r.vertices@ =~= seq![
                Vec2(self.left, self.bottom),
                Vec2(self.right, self.bottom),
                Vec2(self.right, self.top),
                Vec2(self.left, self.top),
                Vec2(self.left, self.bottom),
            ]);
        }
        r
    }
}

/// A chain of points; a closed one repeats its first point at the end.
#[derive(Debug)]
pub struct Polyline {
    pub vertices: Vec<Vec2>,
}

impl Polyline {
    /// Copy the points; closing a polyline appends its first point, so a
    /// closed polyline needs at least one.
    pub fn new(vertices: &Vec<Vec2>, closed: bool) -> (r: Polyline)
        requires
            closed ==> vertices@.len() >= 1,
        ensures
            !closed ==> r.vertices@ == vertices@,
            closed ==> r.vertices@ == vertices@.push(vertices@[0]),
    {
        let mut points: Vec<Vec2> = Vec::new();
        let mut i: usize = 0;
        while i < vertices.len()
            invariant
                0 <= i <= vertices@.len(),
                points@ == vertices@.take(i as int),
            decreases vertices@.len() - i,
        {
            points.push(vertices[i]);
            proof {
                assert(vertices@.take(i + 1) =~= vertices@.take(i as int).push(
                    vertices@[i as int],
                ));
            }
            i = i + 1;
        }
        proof {
            assert(vertices@.take(vertices@.len() as int) =~= vertices@);
        }
        if closed {
            let first = points[0];
            points.push(first);
        }
        Polyline { vertices: points }
    }

    /// Scale every vertex about the origin.
    pub fn scale(&self, factor: Fx) -> (r: Polyline)
        ensures
            r.vertices@.len() == self.vertices@.len(),
            forall|i: int|
                0 <= i < self.vertices@.len() ==> {
                    &&& (#[trigger] r.vertices@[i]).0@ == mul_v(self.vertices@[i].0@, factor@)
                    &&& r.vertices@[i].1@ == mul_v(self.vertices@[i].1@, factor@)
                },
    {
        let mut vertices: Vec<Vec2> = Vec::new();
        let mut i: usize = 0;
        while i < self.vertices.len()
            invariant
                0 <= i <= self.vertices@.len(),
                vertices@.len() == i,
                forall|k: int|
                    0 <= k < i ==> {
                        &&& (#[trigger] vertices@[k]).0@ == mul_v(self.vertices@[k].0@, factor@)
                        &&& vertices@[k].1@ == mul_v(self.vertices@[k].1@, factor@)
                    },
            decreases self.vertices@.len() - i,
        {
            vertices.push(self.vertices[i].scale(factor));
            i = i + 1;
        }
        Polyline { vertices }
    }

    /// Shift every vertex by the same displacement.
    pub fn translate(&self, amount: Vec2) -> (r: Polyline)
        ensures
            r.vertices@.len() == self.vertices@.len(),
            forall|i: int|
                0 <= i < self.vertices@.len() ==> {
                    &&& (#[trigger] r.vertices@[i]).0@ == add_v(self.vertices@[i].0@, amount.0@)
                    &&& r.vertices@[i].1@ == add_v(self.vertices@[i].1@, amount.1@)
                },
    {
        let mut vertices: Vec<Vec2> = Vec::new();
        let mut i: usize = 0;
        while i < self.vertices.len()
            invariant
                0 <= i <= self.vertices@.len(),
                vertices@.len() == i,
                forall|k: int|
                    0 <= k < i ==> {
                        &&& (#[trigger] vertices@[k]).0@ == add_v(self.vertices@[k].0@, amount.0@)
                        &&& vertices@[k].1@ == add_v(self.vertices@[k].1@, amount.1@)
                    },
            decreases self.vertices@.len() - i,
        {
            vertices.push(self.vertices[i].translate(amount));
            i = i + 1;
        }
        Polyline { vertices }
    }

    /// The tightest box around the vertices, folded in point order.
    pub fn get_bbox(&self) -> (r: BBox)
        ensures
            r.left@ == fold_min_x(self.vertices@, self.vertices@.len() as nat),
            r.right@ == fold_max_x(self.vertices@, self.vertices@.len() as nat),
            r.bottom@ == fold_min_y(self.vertices@, self.vertices@.len() as nat),
            r.top@ == fold_max_y(self.vertices@, self.vertices@.len() as nat),
    {
        let mut bbox = BBox::new();
        let mut i: usize = 0;
        while i < self.vertices.len()
            invariant
                0 <= i <= self.vertices@.len(),
                bbox.left@ == fold_min_x(self.vertices@, i as nat),
                bbox.right@ == fold_max_x(self.vertices@, i as nat),
                bbox.bottom@ == fold_min_y(self.vertices@, i as nat),
                bbox.top@ == fold_max_y(self.vertices@, i as nat),
            decreases self.vertices@.len() - i,
        {
            let v = self.vertices[i];
            bbox.add_point(&v);
            i = i + 1;
        }
        bbox
    }
}

/// One physical cross-section: its outline plus the slits that let the
/// slices interlock.
#[derive(Debug)]
pub struct Slice {
    pub outline: Polyline,
    pub slits: Vec<Polyline>,
}

impl Slice {
    pub fn new(outline: Polyline, slits: Vec<Polyline>) -> (r: Slice)
        ensures
            r.outline == outline,
            r.slits == slits,
    {
        Slice { outline, slits }
    }

    /// The outline's bounding box; slits always lie inside the outline.
    pub fn get_bbox(&self) -> (r: BBox)
        ensures
            r.left@ == fold_min_x(self.outline.vertices@, self.outline.vertices@.len() as nat),
            r.right@ == fold_max_x(self.outline.vertices@, self.outline.vertices@.len() as nat),
            r.bottom@ == fold_min_y(self.outline.vertices@, self.outline.vertices@.len() as nat),
            r.top@ == fold_max_y(self.outline.vertices@, self.outline.vertices@.len() as nat),
    {
        self.outline.get_bbox()
    }

    /// Shift the outline and every slit together.
    pub fn translate(&self, amount: Vec2) -> (r: Slice)
        ensures
            r.outline.vertices@.len() == self.outline.vertices@.len(),
            forall|i: int|
                0 <= i < self.outline.vertices@.len() ==> {
                    &&& (#[trigger] r.outline.vertices@[i]).0@ == add_v(
                        self.outline.vertices@[i].0@,
                        amount.0@,
                    )
                    &&& r.outline.vertices@[i].1@ == add_v(self.outline.vertices@[i].1@, amount.1@)
                },
            r.slits@.len() == self.slits@.len(),
            forall|s: int|
                0 <= s < self.slits@.len() ==> (#[trigger] r.slits@[s]).vertices@.len()
                    == self.slits@[s].vertices@.len(),
            forall|s: int, i: int|
                0 <= s < self.slits@.len() && 0 <= i < self.slits@[s].vertices@.len() ==> {
                    &&& (#[trigger] r.slits@[s].vertices@[i]).0@ == add_v(
                        self.slits@[s].vertices@[i].0@,
                        amount.0@,
                    )
                    &&& r.slits@[s].vertices@[i].1@ == add_v(
                        self.slits@[s].vertices@[i].1@,
                        amount.1@,
                    )
                },
    {
        let outline = self.outline.translate(amount);
        let mut slits: Vec<Polyline> = Vec::new();
        let mut s: usize = 0;
        while s < self.slits.len()
            invariant
                0 <= s <= self.slits@.len(),
                slits@.len() == s,
                forall|s2: int|
                    0 <= s2 < s ==> (#[trigger] slits@[s2]).vertices@.len()
                        == self.slits@[s2].vertices@.len(),
                forall|s2: int, i: int|
                    0 <= s2 < s && 0 <= i < self.slits@[s2].vertices@.len() ==> {
                        &&& (#[trigger] slits@[s2].vertices@[i]).0@ == add_v(
                            self.slits@[s2].vertices@[i].0@,
                            amount.0@,
                        )
                        &&& slits@[s2].vertices@[i].1@ == add_v(
                            self.slits@[s2].vertices@[i].1@,
                            amount.1@,
                        )
                    },
            decreases self.slits@.len() - s,
        {
            slits.push(self.slits[s].translate(amount));
            s = s + 1;
        }
        Slice { outline, slits }
    }

    /// Scale the outline and every slit together.
    pub fn scale(&self, factor: Fx) -> (r: Slice)
        ensures
            r.outline.vertices@.len() == self.outline.vertices@.len(),
            forall|i: int|
                0 <= i < self.outline.vertices@.len() ==> {
                    &&& (#[trigger] r.outline.vertices@[i]).0@ == mul_v(
                        self.outline.vertices@[i].0@,
                        factor@,
                    )
                    &&& r.outline.vertices@[i].1@ == mul_v(self.outline.vertices@[i].1@, factor@)
                },
            r.slits@.len() == self.slits@.len(),
            forall|s: int|
                0 <= s < self.slits@.len() ==> (#[trigger] r.slits@[s]).vertices@.len()
                    == self.slits@[s].vertices@.len(),
            forall|s: int, i: int|
                0 <= s < self.slits@.len() && 0 <= i < self.slits@[s].vertices@.len() ==> {
                    &&& (#[trigger] r.slits@[s].vertices@[i]).0@ == mul_v(
                        self.slits@[s].vertices@[i].0@,
                        factor@,
                    )
                    &&& r.slits@[s].vertices@[i].1@ == mul_v(
                        self.slits@[s].vertices@[i].1@,
                        factor@,
                    )
                },
    {
        let outline = self.outline.scale(factor);
        let mut slits: Vec<Polyline> = Vec::new();
        let mut s: usize = 0;
        while s < self.slits.len()
            invariant
                0 <= s <= self.slits@.len(),
                slits@.len() == s,
                forall|s2: int|
                    0 <= s2 < s ==> (#[trigger] slits@[s2]).vertices@.len()
                        == self.slits@[s2].vertices@.len(),
                forall|s2: int, i: int|
                    0 <= s2 < s && 0 <= i < self.slits@[s2].vertices@.len() ==> {
                        &&& (#[trigger] slits@[s2].vertices@[i]).0@ == mul_v(
                            self.slits@[s2].vertices@[i].0@,
                            factor@,
                        )
                        &&& slits@[s2].vertices@[i].1@ == mul_v(
                            self.slits@[s2].vertices@[i].1@,
                            factor@,
                        )
                    },
            decreases self.slits@.len() - s,
        {
            slits.push(self.slits[s].scale(factor));
            s = s + 1;
        }
        Slice { outline, slits }
    }
}

} // verus!
