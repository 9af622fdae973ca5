//! Exact-arithmetic statements of the renderer's numeric kernels.
//!
//! The driver evaluates signed areas, barycentric weights and the rotation
//! matrix on 32-bit floating-point values, which this crate cannot reason
//! about. The functions here state the same formulas over unbounded integers,
//! and the lemmas prove the geometric laws the renderer's policy rests on:
//! weights of interior points are positive and sum to the whole, a vertex
//! carries the whole weight, a zero-area edge is rejected so adjacent
//! triangles never both own a shared edge, and zero angles with zero
//! translation are the identity pose.

use vstd::prelude::*;

verus! {

/// Twice the signed area of the triangle `(start, end, point)`: the dot
/// product of `point - start` with `perp(end - start)`, positive when `point`
/// lies on the designated side of the directed edge.
pub open spec fn signed_area(start: (int, int), end: (int, int), point: (int, int)) -> int {
    (point.0 - start.0) * (start.1 - end.1) + (point.1 - start.1) * (end.0 - start.0)
}

/// The rasterizer's coverage rule for a point against triangle `(a, b, c)`:
/// every edge must see the point strictly on its positive side, and the
/// triangle must have positive area.
pub open spec fn covered(a: (int, int), b: (int, int), c: (int, int), p: (int, int)) -> bool {
    &&& signed_area(a, b, p) > 0
    &&& signed_area(b, c, p) > 0
    &&& signed_area(c, a, p) > 0
    &&& signed_area(a, b, p) + signed_area(b, c, p) + signed_area(c, a, p) > 0
}

/// Reversing a directed edge negates the signed area: the two triangles that
/// share an edge, traversed with consistent winding, see opposite signs.
pub proof fn lemma_signed_area_antisymmetric(u: (int, int), v: (int, int), p: (int, int))
    ensures
        signed_area(u, v, p) == -signed_area(v, u, p),
{
    assert((p.0 - u.0) * (u.1 - v.1) + (p.1 - u.1) * (v.0 - u.0) == -((p.0 - v.0) * (v.1 - u.1)
        + (p.1 - v.1) * (u.0 - v.0))) by (nonlinear_arith);
}

/// The three edge areas of any point against a triangle sum to the area of
/// the triangle itself, wherever the point lies.
#[verifier::rlimit(50)]
pub proof fn lemma_area_sum(a: (int, int), b: (int, int), c: (int, int), p: (int, int))
    ensures
        signed_area(a, b, p) + signed_area(b, c, p) + signed_area(c, a, p) == signed_area(
            a,
            b,
            c,
        ),
{
    let (ax, ay) = a;
    let (bx, by) = b;
    let (cx, cy) = c;
    let (px, py) = p;
    assert((px - ax) * (ay - by) == px * ay - px * by - ax * ay + ax * by) by (nonlinear_arith);
    assert((py - ay) * (bx - ax) == py * bx - py * ax - ay * bx + ay * ax) by (nonlinear_arith);
    assert((px - bx) * (by - cy) == px * by - px * cy - bx * by + bx * cy) by (nonlinear_arith);
    assert((py - by) * (cx - bx) == py * cx - py * bx - by * cx + by * bx) by (nonlinear_arith);
    assert((px - cx) * (cy - ay) == px * cy - px * ay - cx * cy + cx * ay) by (nonlinear_arith);
    assert((py - cy) * (ax - cx) == py * ax - py * cx - cy * ax + cy * cx) by (nonlinear_arith);
    assert((cx - ax) * (ay - by) == cx * ay - cx * by - ax * ay + ax * by) by (nonlinear_arith);
    assert((cy - ay) * (bx - ax) == cy * bx - cy * ax - ay * bx + ay * ax) by (nonlinear_arith);
}

/// For a covered point the barycentric weight numerators — each edge area
/// over the total — are all strictly between zero and the total, and they sum
/// to exactly the total: the weights are positive and sum to one.
pub proof fn lemma_interior_weights(a: (int, int), b: (int, int), c: (int, int), p: (int, int))
    requires
        covered(a, b, c, p),
    ensures
        signed_area(a, b, p) + signed_area(b, c, p) + signed_area(c, a, p) == signed_area(a, b, c),
        0 < signed_area(a, b, p) < signed_area(a, b, c),
        0 < signed_area(b, c, p) < signed_area(a, b, c),
        0 < signed_area(c, a, p) < signed_area(a, b, c),
{
    lemma_area_sum(a, b, c, p);
}

/// At vertex `a` the weight assigned to `a` — the area opposite it, over the
/// total — is the whole, and the other two weights are zero: the weight
/// triple is `(1, 0, 0)` scaled by the total.
pub proof fn lemma_vertex_weights(a: (int, int), b: (int, int), c: (int, int))
    ensures
        signed_area(b, c, a) == signed_area(a, b, c),
        signed_area(c, a, a) == 0,
        signed_area(a, b, a) == 0,
{
    let (ax, ay) = a;
    let (bx, by) = b;
    let (cx, cy) = c;
    assert((ax - cx) * (cy - ay) + (ay - cy) * (ax - cx) == 0) by (nonlinear_arith);
    assert((ax - ax) * (ay - by) + (ay - ay) * (bx - ax) == 0) by (nonlinear_arith);
    lemma_area_sum(a, b, c, a);
}

/// A point whose signed area against any edge is exactly zero is not
/// covered: edge ownership is exclusive to the triangle on the positive side.
pub proof fn lemma_edge_point_rejected(a: (int, int), b: (int, int), c: (int, int), p: (int, int))
    requires
        signed_area(a, b, p) == 0 || signed_area(b, c, p) == 0 || signed_area(c, a, p) == 0,
    ensures
        !covered(a, b, c, p),
{
}

/// Two triangles that share edge `(u, v)` with consistent winding — one
/// traverses it as `u → v`, the other as `v → u` — never both cover a point,
/// so no pixel along a shared seam is owned twice.
pub proof fn lemma_shared_edge_exclusive(
    u: (int, int),
    v: (int, int),
    w1: (int, int),
    w2: (int, int),
    p: (int, int),
)
    ensures
        !(covered(u, v, w1, p) && covered(v, u, w2, p)),
{
    lemma_signed_area_antisymmetric(u, v, p);
}

/// The rasterizer's depth interpolation blends the vertices' reciprocal
/// depths by the barycentric weights. At a vertex the weight triple is the
/// unit triple for that vertex, and the blend collapses exactly to that
/// vertex's own reciprocal depth — whose reciprocal is the vertex's depth.
pub open spec fn dot3(w: (int, int, int), r: (int, int, int)) -> int {
    w.0 * r.0 + w.1 * r.1 + w.2 * r.2
}

/// With the whole weight on one vertex, the interpolation blend is exactly
/// that vertex's value: reciprocal-depth interpolation is exact at vertices.
pub proof fn lemma_unit_weight_selects(r: (int, int, int))
    ensures
        dot3((1, 0, 0), r) == r.0,
        dot3((0, 1, 0), r) == r.1,
        dot3((0, 0, 1), r) == r.2,
{
    assert(1 * r.0 + 0 * r.1 + 0 * r.2 == r.0) by (nonlinear_arith);
    assert(0 * r.0 + 1 * r.1 + 0 * r.2 == r.1) by (nonlinear_arith);
    assert(0 * r.0 + 0 * r.1 + 1 * r.2 == r.2) by (nonlinear_arith);
}

/// A point rotated by the yaw-pitch-roll matrix, written with the sines and
/// cosines of the three angles as inputs: roll is applied first, then pitch,
/// then yaw, as one matrix product.
pub open spec fn rotate(
    p: (int, int, int),
    sy: int,
    cy: int,
    sp: int,
    cp: int,
    sr: int,
    cr: int,
) -> (int, int, int) {
    (
        p.0 * (cy * cp) + p.1 * (cy * sp * sr - sy * cr) + p.2 * (cy * sp * cr + sy * sr),
        p.0 * (sy * cp) + p.1 * (sy * sp * sr + cy * cr) + p.2 * (sy * sp * cr - cy * sr),
        p.0 * (-sp) + p.1 * (cp * sr) + p.2 * (cp * cr),
    )
}

/// A rotated point translated after: the whole rigid transform.
pub open spec fn apply_transform(
    p: (int, int, int),
    sy: int,
    cy: int,
    sp: int,
    cp: int,
    sr: int,
    cr: int,
    t: (int, int, int),
) -> (int, int, int) {
    let r = rotate(p, sy, cy, sp, cp, sr, cr);
    (r.0 + t.0, r.1 + t.1, r.2 + t.2)
}

/// With all three angles at zero — sine zero, cosine one — and a zero
/// translation, the transform is the identity: the matrix product collapses
/// to the identity matrix and the translation adds nothing.
pub proof fn lemma_identity_transform(p: (int, int, int))
    ensures
        apply_transform(p, 0, 1, 0, 1, 0, 1, (0, 0, 0)) == p,
{
    let r = rotate(p, 0, 1, 0, 1, 0, 1);
    assert(r.0 == p.0 * (1 * 1) + p.1 * (1 * 0 * 0 - 0 * 1) + p.2 * (1 * 0 * 1 + 0 * 0));
    assert(r.1 == p.0 * (0 * 1) + p.1 * (0 * 0 * 0 + 1 * 1) + p.2 * (0 * 0 * 1 - 1 * 0));
    assert(r.2 == p.0 * (-0) + p.1 * (1 * 0) + p.2 * (1 * 1));
    assert(p.0 * (1 * 1) + p.1 * (1 * 0 * 0 - 0 * 1) + p.2 * (1 * 0 * 1 + 0 * 0) == p.0)
        by (nonlinear_arith);
    assert(p.0 * (0 * 1) + p.1 * (0 * 0 * 0 + 1 * 1) + p.2 * (0 * 0 * 1 - 1 * 0) == p.1)
        by (nonlinear_arith);
    assert(p.0 * (-0) + p.1 * (1 * 0) + p.2 * (1 * 1) == p.2) by (nonlinear_arith);
}

} // verus!
