//! The output unit of the mesher: an oriented triangle with exact integer
//! vertices and an exact integer normal.
//!
//! The normal stored with a triangle is the cross product of its two edge
//! vectors, so it agrees with the winding order under the right-hand rule
//! and is zero exactly for a zero-area triangle. It is not normalised to
//! unit length: unit normals of a relief surface are irrational in general,
//! and a consumer that needs them rescales the vector without changing its
//! direction.

use vstd::prelude::*;

verus! {

/// A point or direction in three-dimensional space, in model units
/// (one unit per grid step in x and y, one fixed-point unit in z).
#[derive(Clone, Copy, Debug, PartialEq, Eq, Structural)]
pub struct Vec3 {
    pub x: i64,
    pub y: i64,
    pub z: i64,
}

/// One oriented triangle of the solid: a normal and three vertices whose
/// winding order matches the normal under the right-hand rule.
#[derive(Clone, Copy, Debug, PartialEq, Eq, Structural)]
pub struct Triangle {
    pub normal: Vec3,
    pub a: Vec3,
    pub b: Vec3,
    pub c: Vec3,
}

/// Mathematical counterpart of `Vec3`, over unbounded integers.
pub ghost struct SpecVec3 {
    pub x: int,
    pub y: int,
    pub z: int,
}

/// Mathematical counterpart of `Triangle`.
pub ghost struct SpecTriangle {
    pub normal: SpecVec3,
    pub a: SpecVec3,
    pub b: SpecVec3,
    pub c: SpecVec3,
}

impl View for Vec3 {
    type V = SpecVec3;

    open spec fn view(&self) -> SpecVec3 {
        SpecVec3 { x: self.x as int, y: self.y as int, z: self.z as int }
    }
}

impl View for Triangle {
    type V = SpecTriangle;

    open spec fn view(&self) -> SpecTriangle {
        SpecTriangle { normal: self.normal@, a: self.a@, b: self.b@, c: self.c@ }
    }
}

/// Componentwise difference `u - v`.
pub open spec fn vec_sub(u: SpecVec3, v: SpecVec3) -> SpecVec3 {
    SpecVec3 { x: u.x - v.x, y: u.y - v.y, z: u.z - v.z }
}

/// The cross product `u x v`.
pub open spec fn vec_cross(u: SpecVec3, v: SpecVec3) -> SpecVec3 {
    SpecVec3 {
        x: u.y * v.z - u.z * v.y,
        y: u.z * v.x - u.x * v.z,
        z: u.x * v.y - u.y * v.x,
    }
}

/// The (unnormalised) normal of the triangle `(a, b, c)`: the cross product
/// of its two edge vectors out of `a`. Zero exactly when the triangle has
/// zero area.
pub open spec fn tri_normal(a: SpecVec3, b: SpecVec3, c: SpecVec3) -> SpecVec3 {
    vec_cross(vec_sub(b, a), vec_sub(c, a))
}

/// The triangle `(a, b, c)` together with the normal its winding induces.
pub open spec fn spec_tri(a: SpecVec3, b: SpecVec3, c: SpecVec3) -> SpecTriangle {
    SpecTriangle { normal: tri_normal(a, b, c), a, b, c }
}

/// Evaluates `tri_normal` once the edge components are named: handing in
/// the components as literals lets a caller read the normal off directly.
pub proof fn lemma_normal_eval(
    a: SpecVec3,
    b: SpecVec3,
    c: SpecVec3,
    e1x: int,
    e1y: int,
    e1z: int,
    e2x: int,
    e2y: int,
    e2z: int,
)
    requires
        e1x == b.x - a.x,
        e1y == b.y - a.y,
        e1z == b.z - a.z,
        e2x == c.x - a.x,
        e2y == c.y - a.y,
        e2z == c.z - a.z,
    ensures
        tri_normal(a, b, c).x == e1y * e2z - e1z * e2y,
        tri_normal(a, b, c).y == e1z * e2x - e1x * e2z,
        tri_normal(a, b, c).z == e1x * e2y - e1y * e2x,
{
}

/// Bound on every coordinate handed to `mk_tri`: grid indices are below
/// `u32::MAX` and heights span at most `[-u32::MAX, u32::MAX]`.
pub open spec fn coord_ok(v: SpecVec3) -> bool {
    &&& -0x1_0000_0000 <= v.x <= 0x1_0000_0000
    &&& -0x1_0000_0000 <= v.y <= 0x1_0000_0000
    &&& -0x1_0000_0000 <= v.z <= 0x1_0000_0000
}

/// Builds the triangle `(a, b, c)` and computes its exact normal. The
/// vertices must span at most one grid cell in x and y, which is true of
/// every triangle of the solid and keeps the cross product inside `i64`.
pub fn mk_tri(a: Vec3, b: Vec3, c: Vec3) -> (t: Triangle)
    requires
        coord_ok(a@),
        coord_ok(b@),
        coord_ok(c@),
        -1 <= b@.x - a@.x <= 1,
        -1 <= b@.y - a@.y <= 1,
        -1 <= c@.x - a@.x <= 1,
        -1 <= c@.y - a@.y <= 1,
    ensures
        t@ == spec_tri(a@, b@, c@),
{
    let e1x = b.x - a.x;
    let e1y = b.y - a.y;
    let e1z = b.z - a.z;
    let e2x = c.x - a.x;
    let e2y = c.y - a.y;
    let e2z = c.z - a.z;
    assert(-0x4_0000_0000 <= e1y * e2z <= 0x4_0000_0000) by (nonlinear_arith)
        requires
            -1 <= e1y <= 1,
            -0x2_0000_0000 <= e2z <= 0x2_0000_0000,
    ;
    assert(-0x4_0000_0000 <= e1z * e2y <= 0x4_0000_0000) by (nonlinear_arith)
        requires
            -1 <= e2y <= 1,
            -0x2_0000_0000 <= e1z <= 0x2_0000_0000,
    ;
    assert(-0x4_0000_0000 <= e1z * e2x <= 0x4_0000_0000) by (nonlinear_arith)
        requires
            -1 <= e2x <= 1,
            -0x2_0000_0000 <= e1z <= 0x2_0000_0000,
    ;
    assert(-0x4_0000_0000 <= e1x * e2z <= 0x4_0000_0000) by (nonlinear_arith)
        requires
            -1 <= e1x <= 1,
            -0x2_0000_0000 <= e2z <= 0x2_0000_0000,
    ;
    assert(-1 <= e1x * e2y <= 1) by (nonlinear_arith)
        requires
            -1 <= e1x <= 1,
            -1 <= e2y <= 1,
    ;
    assert(-1 <= e1y * e2x <= 1) by (nonlinear_arith)
        requires
            -1 <= e1y <= 1,
            -1 <= e2x <= 1,
    ;
    let normal = Vec3 {
        x: e1y * e2z - e1z * e2y,
        y: e1z * e2x - e1x * e2z,
        z: e1x * e2y - e1y * e2x,
    };
    Triangle { normal, a, b, c }
}

} // verus!
