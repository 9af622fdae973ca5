//! The mesh model: an ordered triangle list with an index-aligned color list,
//! built once from parsed geometry by fan triangulation and projected per
//! frame into screen space.

use vstd::prelude::*;
use crate::lin::{Triangle3, Vec3};
use crate::obj::Obj;
use crate::renderer::Color;

verus! {

/// The triangles a single face contributes: the face's polygon
/// fan-triangulated around its first vertex, triangle `i` joining the first
/// vertex with the `i+1`-th and `i+2`-th. Faces of fewer than three indices
/// contribute nothing. Indices are 1-based into the vertex list.
pub open spec fn face_fan(verts: Seq<Vec3>, face: Seq<usize>) -> Seq<Triangle3> {
    if face.len() < 3 {
        Seq::empty()
    } else {
        Seq::new(
            (face.len() - 2) as nat,
            |i: int|
                Triangle3 {
                    a: verts[face[0] - 1],
                    b: verts[face[i + 1] - 1],
                    c: verts[face[i + 2] - 1],
                },
        )
    }
}

/// All triangles of a parsed mesh: every face's fan, in face order.
pub open spec fn fan_triangles(verts: Seq<Vec3>, faces: Seq<Seq<usize>>) -> Seq<Triangle3>
    decreases faces.len(),
{
    if faces.len() == 0 {
        Seq::empty()
    } else {
        fan_triangles(verts, faces.drop_last()) + face_fan(verts, faces.last())
    }
}

/// A mesh: triangles with one color each, index-aligned. Immutable once
/// built; a new camera pose projects it afresh instead of mutating it. Both
/// lists are exposed for reading; `from_obj` is the one intended builder.
#[derive(Debug)]
pub struct Model {
    pub triangles: Vec<Triangle3>,
    pub colors: Vec<Color>,
}

impl Default for Model {
    /// The empty mesh.
    fn default() -> (m: Self)
        ensures
            m.wf(),
            m.spec_triangles().len() == 0,
    {
        Model { triangles: Vec::new(), colors: Vec::new() }
    }
}

impl Model {
    pub open spec fn spec_triangles(&self) -> Seq<Triangle3> {
        self.triangles@
    }

    pub open spec fn spec_colors(&self) -> Seq<Color> {
        self.colors@
    }

    /// The color list always runs parallel to the triangle list.
    pub open spec fn wf(&self) -> bool {
        self.spec_colors().len() == self.spec_triangles().len()
    }

    /// The triangle list, for a driver that projects and draws it.
    pub fn triangles(&self) -> (r: &Vec<Triangle3>)
        ensures
            r@ == self.spec_triangles(),
    {
        &self.triangles
    }

    /// Builds the mesh from parsed geometry: each face is fan-triangulated
    /// around its first vertex, and every triangle gets an independently
    /// drawn random color. Valid indices are the parser's guarantee and this
    /// function's precondition.
    pub fn from_obj(obj: Obj) -> (m: Model)
        requires
            obj.wf(),
        ensures
            m.wf(),
            m.spec_triangles() == fan_triangles(obj.verts@, obj.faces.deep_view()),
    {
        let mut triangles: Vec<Triangle3> = Vec::new();
        let mut colors: Vec<Color> = Vec::new();
        let ghost all_faces = obj.faces.deep_view();
        let mut fi: usize = 0;
        while fi < obj.faces.len()
            invariant
                obj.wf(),
                all_faces == obj.faces.deep_view(),
                0 <= fi <= obj.faces@.len(),
                colors@.len() == triangles@.len(),
                triangles@ == fan_triangles(obj.verts@, all_faces.take(fi as int)),
            decreases obj.faces@.len() - fi,
        {
            let face: &Vec<usize> = &obj.faces[fi];
            let ghost fseq = face@;
            let ghost base = triangles@;
            proof {
                assert(all_faces[fi as int] == fseq);
            }
            let mut k: usize = 1;
            while k + 1 < face.len()
                invariant
                    obj.wf(),
                    0 <= fi < obj.faces@.len(),
                    face@ == fseq,
                    fseq == obj.faces@[fi as int]@,
                    1 <= k,
                    k + 1 <= face@.len() || k == 1,
                    colors@.len() == triangles@.len(),
                    triangles@ == base + face_fan(obj.verts@, fseq).take(k - 1),
                decreases face@.len() - k,
            {
                proof {
                    assert(face_fan(obj.verts@, fseq).take(k - 1 + 1) =~= face_fan(
                        obj.verts@,
                        fseq,
                    ).take(k - 1).push(face_fan(obj.verts@, fseq)[k - 1]));
                }
                let a = obj.verts[face[0] - 1];
                let b = obj.verts[face[k] - 1];
                let c = obj.verts[face[k + 1] - 1];
                triangles.push(Triangle3 { a, b, c });
                colors.push(Color::random());
                k += 1;
            }
            proof {
                if fseq.len() >= 3 {
                    assert(k - 1 == face_fan(obj.verts@, fseq).len());
                }
                assert(face_fan(obj.verts@, fseq).take(face_fan(obj.verts@, fseq).len() as int)
                    =~= face_fan(obj.verts@, fseq));
                assert(all_faces.take(fi as int + 1).drop_last() =~= all_faces.take(fi as int));
                assert(all_faces.take(fi as int + 1).last() == fseq);
            }
            fi += 1;
        }
        proof {
            assert(all_faces.take(all_faces.len() as int) =~= all_faces);
        }
        Model { triangles, colors }
    }

    /// The mesh's triangles pushed through a projection, one screen-space
    /// triangle per mesh triangle in the same order, each vertex the
    /// projection's answer for the corresponding mesh vertex. The result is
    /// index-aligned with `colors`.
    pub fn as_projected_triangles<F: Fn(Vec3) -> Vec3>(&self, project: F) -> (r: Vec<Triangle3>)
        requires
            forall|v: Vec3| call_requires(project, (v,)),
        ensures
            r@.len() == self.spec_triangles().len(),
            forall|i: int|
                0 <= i < r@.len() ==> {
                    &&& call_ensures(project, (self.spec_triangles()[i].a,), (#[trigger] r@[i]).a)
                    &&& call_ensures(project, (self.spec_triangles()[i].b,), r@[i].b)
                    &&& call_ensures(project, (self.spec_triangles()[i].c,), r@[i].c)
                },
    {
        let mut r: Vec<Triangle3> = Vec::new();
        let mut i: usize = 0;
        let n = self.triangles.len();
        while i < n
            invariant
                forall|v: Vec3| call_requires(project, (v,)),
                n == self.spec_triangles().len(),
                0 <= i <= n,
                r@.len() == i,
                forall|j: int|
                    0 <= j < i ==> {
                        &&& call_ensures(
                            project,
                            (self.spec_triangles()[j].a,),
                            (#[trigger] r@[j]).a,
                        )
                        &&& call_ensures(project, (self.spec_triangles()[j].b,), r@[j].b)
                        &&& call_ensures(project, (self.spec_triangles()[j].c,), r@[j].c)
                    },
            decreases n - i,
        {
            let t = self.triangles[i];
            let a = project(t.a);
            let b = project(t.b);
            let c = project(t.c);
            r.push(Triangle3 { a, b, c });
            i += 1;
        }
        r
    }
}

} // verus!
