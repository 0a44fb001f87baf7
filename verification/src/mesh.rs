//! An indexed triangle mesh: vertex positions, normals, and faces that
//! refer to both by index. The standing invariant is that every index a
//! face carries is valid for the list it points into.

use crate::geom::{normal_of, normalize_vec3, Triangle, Vec3};
use vstd::prelude::*;

verus! {

/// One triangle: three vertex indices and one normal index.
#[derive(Clone, Copy, PartialEq, Eq, Structural, Debug)]
pub struct Face {
    pub v1: usize,
    pub v2: usize,
    pub v3: usize,
    pub normal: usize,
}

/// A face may only refer to vertices and normals that exist.
pub open spec fn face_valid(f: Face, nverts: int, nnorms: int) -> bool {
    &&& f.v1 < nverts
    &&& f.v2 < nverts
    &&& f.v3 < nverts
    &&& f.normal < nnorms
}

impl Face {
    pub fn new(v1: usize, v2: usize, v3: usize, normal: usize) -> (r: Face)
        ensures
            r == (Face { v1, v2, v3, normal }),
    {
        Face { v1, v2, v3, normal }
    }
}

/// The endpoints of edge `e` (0, 1 or 2) of a face, in winding order.
pub open spec fn edge_ends(f: Face, e: int) -> (int, int) {
    if e == 0 {
        (f.v1 as int, f.v2 as int)
    } else if e == 1 {
        (f.v2 as int, f.v3 as int)
    } else {
        (f.v3 as int, f.v1 as int)
    }
}

/// Whether edge `e` of `f` joins `a` and `b`, in either direction.
pub open spec fn has_edge(f: Face, e: int, a: int, b: int) -> bool {
    let ends = edge_ends(f, e);
    (ends.0 == a && ends.1 == b) || (ends.0 == b && ends.1 == a)
}

/// How many of `f`'s three edges join `a` and `b`.
pub open spec fn face_edge_hits(f: Face, a: int, b: int) -> int {
    (if has_edge(f, 0, a, b) {
        1int
    } else {
        0int
    }) + (if has_edge(f, 1, a, b) {
        1int
    } else {
        0int
    }) + (if has_edge(f, 2, a, b) {
        1int
    } else {
        0int
    })
}

/// Occurrences of the undirected edge `(a, b)` over the first `k` faces.
pub open spec fn edge_count(faces: Seq<Face>, a: int, b: int, k: nat) -> int
    decreases k,
{
    if k == 0 {
        0
    } else {
        edge_count(faces, a, b, (k - 1) as nat) + face_edge_hits(faces[k - 1], a, b)
    }
}

/// A solid is watertight when every edge of every face is shared by
/// exactly two triangles.
pub open spec fn watertight(faces: Seq<Face>) -> bool {
    forall|i: int, e: int|
        0 <= i < faces.len() && 0 <= e < 3 ==> edge_count(
            faces,
            #[trigger] edge_ends(faces[i], e).0,
            edge_ends(faces[i], e).1,
            faces.len() as nat,
        ) == 2
}

/// Edge counts grow by at most three per face.
pub proof fn lemma_edge_count_bound(faces: Seq<Face>, a: int, b: int, k: nat)
    ensures
        0 <= edge_count(faces, a, b, k) <= 3 * k,
    decreases k,
{
    if k > 0 {
        lemma_edge_count_bound(faces, a, b, (k - 1) as nat);
    }
}

/// The geometry container: positions, normals, and indexed faces.
#[derive(Debug)]
pub struct Mesh {
    pub vertices: Vec<Vec3>,
    pub normals: Vec<Vec3>,
    pub faces: Vec<Face>,
}

impl Mesh {
    /// Every face's indices are valid for the current lists.
    pub open spec fn wf(&self) -> bool {
        forall|i: int|
            0 <= i < self.faces@.len() ==> face_valid(
                #[trigger] self.faces@[i],
                self.vertices@.len() as int,
                self.normals@.len() as int,
            )
    }

    pub fn new() -> (r: Mesh)
        ensures
            r.vertices@.len() == 0,
            r.normals@.len() == 0,
            r.faces@.len() == 0,
            r.wf(),
    {
        Mesh { vertices: Vec::new(), normals: Vec::new(), faces: Vec::new() }
    }

    /// Append a vertex and hand back its index.
    pub fn add_vertex(&mut self, vertex: Vec3) -> (index: usize)
        ensures
            final(self).vertices@ == old(self).vertices@.push(vertex),
            final(self).normals@ == old(self).normals@,
            final(self).faces@ == old(self).faces@,
            index == old(self).vertices@.len(),
            old(self).wf() ==> final(self).wf(),
    {
        let index = self.vertices.len();
        self.vertices.push(vertex);
        index
    }

    /// Append a normal and hand back its index.
    pub fn add_normal(&mut self, normal: Vec3) -> (index: usize)
        ensures
            final(self).vertices@ == old(self).vertices@,
            final(self).normals@ == old(self).normals@.push(normal),
            final(self).faces@ == old(self).faces@,
            index == old(self).normals@.len(),
            old(self).wf() ==> final(self).wf(),
    {
        let index = self.normals.len();
        self.normals.push(normal);
        index
    }

    /// Append a face; its indices must already be valid.
    pub fn add_face(&mut self, face: Face)
        requires
            face_valid(face, old(self).vertices@.len() as int, old(self).normals@.len() as int),
        ensures
            final(self).vertices@ == old(self).vertices@,
            final(self).normals@ == old(self).normals@,
            final(self).faces@ == old(self).faces@.push(face),
            old(self).wf() ==> final(self).wf(),
    {
        self.faces.push(face);
    }

    /// Append a triangle over existing vertices, with a flat per-triangle
    /// normal computed from its corner positions.
    pub fn add_triangle(&mut self, v1: usize, v2: usize, v3: usize)
        requires
            v1 < old(self).vertices@.len(),
            v2 < old(self).vertices@.len(),
            v3 < old(self).vertices@.len(),
        ensures
            final(self).vertices@ == old(self).vertices@,
            final(self).normals@ == old(self).normals@.push(
                normalize_vec3(
                    normal_of(
                        Triangle(
                            old(self).vertices@[v1 as int],
                            old(self).vertices@[v2 as int],
                            old(self).vertices@[v3 as int],
                        ),
                    ),
                ),
            ),
            final(self).faces@ == old(self).faces@.push(
                Face { v1, v2, v3, normal: old(self).normals@.len() as usize },
            ),
            old(self).wf() ==> final(self).wf(),
    {
        let pos1 = self.vertices[v1];
        let pos2 = self.vertices[v2];
        let pos3 = self.vertices[v3];
        let tri = Triangle(pos1, pos2, pos3);
        let normal = tri.compute_normal().normalize();
        let normal_idx = self.add_normal(normal);
        let face = Face::new(v1, v2, v3, normal_idx);
        self.add_face(face);
    }

    /// Count the faces carrying the undirected edge `(a, b)`.
    fn count_edge(&self, a: usize, b: usize) -> (c: u128)
        ensures
            c as int == edge_count(self.faces@, a as int, b as int, self.faces@.len() as nat),
    {
        let mut c: u128 = 0;
        let mut i: usize = 0;
        while i < self.faces.len()
            invariant
                0 <= i <= self.faces@.len(),
                c as int == edge_count(self.faces@, a as int, b as int, i as nat),
                c as int <= 3 * i,
            decreases self.faces@.len() - i,
        {
            proof {
                lemma_edge_count_bound(self.faces@, a as int, b as int, i as nat);
            }
            let f = self.faces[i];
            if (f.v1 == a && f.v2 == b) || (f.v1 == b && f.v2 == a) {
                c = c + 1;
            }
            if (f.v2 == a && f.v3 == b) || (f.v2 == b && f.v3 == a) {
                c = c + 1;
            }
            if (f.v3 == a && f.v1 == b) || (f.v3 == b && f.v1 == a) {
                c = c + 1;
            }
            i = i + 1;
        }
        c
    }

    /// Decide whether every edge of every face is shared by exactly two
    /// triangles: the closed-solid check.
    pub fn is_watertight(&self) -> (r: bool)
        ensures
            r == watertight(self.faces@),
    {
        let n = self.faces.len();
        let mut i: usize = 0;
        while i < n
            invariant
                0 <= i <= n,
                n == self.faces@.len(),
                forall|i2: int, e: int|
                    0 <= i2 < i && 0 <= e < 3 ==> edge_count(
                        self.faces@,
                        #[trigger] edge_ends(self.faces@[i2], e).0,
                        edge_ends(self.faces@[i2], e).1,
                        n as nat,
                    ) == 2,
            decreases n - i,
        {
            let f = self.faces[i];
            let c0 = self.count_edge(f.v1, f.v2);
            if c0 != 2 {
                assert(edge_ends(self.faces@[i as int], 0).0 == f.v1 as int);
                return false;
            }
            let c1 = self.count_edge(f.v2, f.v3);
            if c1 != 2 {
                assert(edge_ends(self.faces@[i as int], 1).0 == f.v2 as int);
                return false;
            }
            let c2 = self.count_edge(f.v3, f.v1);
            if c2 != 2 {
                assert(edge_ends(self.faces@[i as int], 2).0 == f.v3 as int);
                return false;
            }
            proof {
                assert forall|e: int| 0 <= e < 3 implies edge_count(
                    self.faces@,
                    #[trigger] edge_ends(self.faces@[i as int], e).0,
                    edge_ends(self.faces@[i as int], e).1,
                    n as nat,
                ) == 2 by {
                    if e == 0 {
                        assert(edge_ends(self.faces@[i as int], 0) == (f.v1 as int, f.v2 as int));
                    } else if e == 1 {
                        assert(edge_ends(self.faces@[i as int], 1) == (f.v2 as int, f.v3 as int));
                    } else {
                        assert(edge_ends(self.faces@[i as int], 2) == (f.v3 as int, f.v1 as int));
                    }
                }
            }
            i = i + 1;
        }
        true
    }
}

} // verus!
