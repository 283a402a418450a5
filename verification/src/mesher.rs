//! The mesher: walks the grid and emits the triangles of the solid in the
//! exact order `model::mesh_seq` describes.

use vstd::prelude::*;

use crate::grid::HeightGrid;
use crate::grid::MeshError;
use crate::mesh::mk_tri;
use crate::mesh::Triangle;
use crate::mesh::Vec3;
use crate::model::lemma_quad_split;
use crate::model::mesh_seq;
use crate::model::nq;
use crate::model::tri_at;
use crate::model::triangle_count;
use crate::model::valid_dims;
use crate::model::hm1;
use crate::model::wm1;

verus! {

/// Builds the closed solid over `grid` with a flat base `base_height` below
/// zero: the top relief surface, the mirrored base, and the four walls.
///
/// Succeeds exactly when both grid dimensions are at least 2; anything
/// smaller cannot form a surface quad and is rejected as `InvalidInput`
/// with no partial mesh. On success the output is exactly `mesh_seq`: its
/// length is `4*(W-1)*(H-1) + 4*((W-1) + (H-1))`, and the triangle at each
/// index is the one the model names there, vertices and normal included.
///
/// A wall segment whose top edge lies at height zero while `base_height`
/// is zero has zero area; it is emitted all the same, with its exact
/// cross-product normal, which is zero for such a triangle.
pub fn generate(grid: &HeightGrid, base_height: u32) -> (r: Result<Vec<Triangle>, MeshError>)
    requires
        grid.wf(),
    ensures
        match r {
            Ok(m) => {
                &&& valid_dims(*grid)
                &&& m@.len() == triangle_count(*grid)
                &&& forall|i: int|
                    0 <= i < m@.len() ==> (#[trigger] m@[i])@ == mesh_seq(*grid, base_height)[i]
            },
            Err(e) => {
                &&& e == MeshError::InvalidInput
                &&& !valid_dims(*grid)
            },
        },
{
    let w = grid.width();
    let h = grid.height();
    if w < 2 || h < 2 {
        return Err(MeshError::InvalidInput);
    }
    let w1 = w - 1;
    let h1 = h - 1;
    assert(w1 * h1 <= usize::MAX) by (nonlinear_arith)
        requires
            w1 == w - 1,
            h1 == h - 1,
            2 <= w,
            2 <= h,
            w * h <= usize::MAX,
    ;
    let nqe = w1 * h1;
    let nb = -(base_height as i64);
    let mut out: Vec<Triangle> = Vec::new();

    // Top surface, first half of each quad.
    for q in 0..nqe
        invariant
            grid.wf(),
            valid_dims(*grid),
            w1 as int == wm1(*grid),
            h1 as int == hm1(*grid),
            nqe as int == nq(*grid),
            out@.len() == q,
            forall|i: int|
                0 <= i < out@.len() ==> (#[trigger] out@[i])@ == tri_at(*grid, base_height, i),
    {
        let x = q % w1;
        let y = q / w1;
        proof {
            lemma_quad_split(w1 as int, h1 as int, q as int);
        }
        let t = mk_tri(
            Vec3 { x: x as i64, y: y as i64, z: grid.get(x, y) as i64 },
            Vec3 { x: (x + 1) as i64, y: y as i64, z: grid.get(x + 1, y) as i64 },
            Vec3 { x: (x + 1) as i64, y: (y + 1) as i64, z: grid.get(x + 1, y + 1) as i64 },
        );
        assert(t@ == tri_at(*grid, base_height, out@.len() as int));
        out.push(t);
    }

    // Top surface, second half of each quad.
    for q in 0..nqe
        invariant
            grid.wf(),
            valid_dims(*grid),
            w1 as int == wm1(*grid),
            h1 as int == hm1(*grid),
            nqe as int == nq(*grid),
            out@.len() == nqe + q,
            forall|i: int|
                0 <= i < out@.len() ==> (#[trigger] out@[i])@ == tri_at(*grid, base_height, i),
    {
        let x = q % w1;
        let y = q / w1;
        proof {
            lemma_quad_split(w1 as int, h1 as int, q as int);
        }
        let t = mk_tri(
            Vec3 { x: x as i64, y: y as i64, z: grid.get(x, y) as i64 },
            Vec3 { x: (x + 1) as i64, y: (y + 1) as i64, z: grid.get(x + 1, y + 1) as i64 },
            Vec3 { x: x as i64, y: (y + 1) as i64, z: grid.get(x, y + 1) as i64 },
        );
        assert(t@ == tri_at(*grid, base_height, out@.len() as int));
        out.push(t);
    }

    // Base, first half of each quad; winding reversed against the top.
    for q in 0..nqe
        invariant
            grid.wf(),
            valid_dims(*grid),
            w1 as int == wm1(*grid),
            h1 as int == hm1(*grid),
            nqe as int == nq(*grid),
            nb as int == -(base_height as int),
            out@.len() == 2 * (nqe as int) + q,
            forall|i: int|
                0 <= i < out@.len() ==> (#[trigger] out@[i])@ == tri_at(*grid, base_height, i),
    {
        let x = q % w1;
        let y = q / w1;
        proof {
            lemma_quad_split(w1 as int, h1 as int, q as int);
        }
        let t = mk_tri(
            Vec3 { x: x as i64, y: y as i64, z: nb },
            Vec3 { x: (x + 1) as i64, y: (y + 1) as i64, z: nb },
            Vec3 { x: (x + 1) as i64, y: y as i64, z: nb },
        );
        assert(t@ == tri_at(*grid, base_height, out@.len() as int));
        out.push(t);
    }

    // Base, second half of each quad; winding reversed against the top.
    for q in 0..nqe
        invariant
            grid.wf(),
            valid_dims(*grid),
            w1 as int == wm1(*grid),
            h1 as int == hm1(*grid),
            nqe as int == nq(*grid),
            nb as int == -(base_height as int),
            out@.len() == 3 * (nqe as int) + q,
            forall|i: int|
                0 <= i < out@.len() ==> (#[trigger] out@[i])@ == tri_at(*grid, base_height, i),
    {
        let x = q % w1;
        let y = q / w1;
        proof {
            lemma_quad_split(w1 as int, h1 as int, q as int);
        }
        let t = mk_tri(
            Vec3 { x: x as i64, y: y as i64, z: nb },
            Vec3 { x: x as i64, y: (y + 1) as i64, z: nb },
            Vec3 { x: (x + 1) as i64, y: (y + 1) as i64, z: nb },
        );
        assert(t@ == tri_at(*grid, base_height, out@.len() as int));
        out.push(t);
    }

    // South wall, along y = 0, facing -y.
    for q in 0..w1
        invariant
            grid.wf(),
            valid_dims(*grid),
            w1 as int == wm1(*grid),
            h1 as int == hm1(*grid),
            nqe as int == nq(*grid),
            nb as int == -(base_height as int),
            out@.len() == 4 * (nqe as int) + q,
            forall|i: int|
                0 <= i < out@.len() ==> (#[trigger] out@[i])@ == tri_at(*grid, base_height, i),
    {
        let t = mk_tri(
            Vec3 { x: q as i64, y: 0, z: nb },
            Vec3 { x: (q + 1) as i64, y: 0, z: nb },
            Vec3 { x: (q + 1) as i64, y: 0, z: grid.get(q + 1, 0) as i64 },
        );
        assert(t@ == tri_at(*grid, base_height, out@.len() as int));
        out.push(t);
    }
    for q in 0..w1
        invariant
            grid.wf(),
            valid_dims(*grid),
            w1 as int == wm1(*grid),
            h1 as int == hm1(*grid),
            nqe as int == nq(*grid),
            nb as int == -(base_height as int),
            out@.len() == 4 * (nqe as int) + w1 + q,
            forall|i: int|
                0 <= i < out@.len() ==> (#[trigger] out@[i])@ == tri_at(*grid, base_height, i),
    {
        let t = mk_tri(
            Vec3 { x: q as i64, y: 0, z: nb },
            Vec3 { x: (q + 1) as i64, y: 0, z: grid.get(q + 1, 0) as i64 },
            Vec3 { x: q as i64, y: 0, z: grid.get(q, 0) as i64 },
        );
        assert(t@ == tri_at(*grid, base_height, out@.len() as int));
        out.push(t);
    }

    // North wall, along y = H-1, facing +y.
    for q in 0..w1
        invariant
            grid.wf(),
            valid_dims(*grid),
            w1 as int == wm1(*grid),
            h1 as int == hm1(*grid),
            nqe as int == nq(*grid),
            nb as int == -(base_height as int),
            out@.len() == 4 * (nqe as int) + 2 * (w1 as int) + q,
            forall|i: int|
                0 <= i < out@.len() ==> (#[trigger] out@[i])@ == tri_at(*grid, base_height, i),
    {
        let t = mk_tri(
            Vec3 { x: (q + 1) as i64, y: h1 as i64, z: nb },
            Vec3 { x: q as i64, y: h1 as i64, z: nb },
            Vec3 { x: q as i64, y: h1 as i64, z: grid.get(q, h1) as i64 },
        );
        assert(t@ == tri_at(*grid, base_height, out@.len() as int));
        out.push(t);
    }
    for q in 0..w1
        invariant
            grid.wf(),
            valid_dims(*grid),
            w1 as int == wm1(*grid),
            h1 as int == hm1(*grid),
            nqe as int == nq(*grid),
            nb as int == -(base_height as int),
            out@.len() == 4 * (nqe as int) + 3 * (w1 as int) + q,
            forall|i: int|
                0 <= i < out@.len() ==> (#[trigger] out@[i])@ == tri_at(*grid, base_height, i),
    {
        let t = mk_tri(
            Vec3 { x: (q + 1) as i64, y: h1 as i64, z: nb },
            Vec3 { x: q as i64, y: h1 as i64, z: grid.get(q, h1) as i64 },
            Vec3 { x: (q + 1) as i64, y: h1 as i64, z: grid.get(q + 1, h1) as i64 },
        );
        assert(t@ == tri_at(*grid, base_height, out@.len() as int));
        out.push(t);
    }

    // West wall, along x = 0, facing -x.
    for q in 0..h1
        invariant
            grid.wf(),
            valid_dims(*grid),
            w1 as int == wm1(*grid),
            h1 as int == hm1(*grid),
            nqe as int == nq(*grid),
            nb as int == -(base_height as int),
            out@.len() == 4 * (nqe as int) + 4 * (w1 as int) + q,
            forall|i: int|
                0 <= i < out@.len() ==> (#[trigger] out@[i])@ == tri_at(*grid, base_height, i),
    {
        let t = mk_tri(
            Vec3 { x: 0, y: (q + 1) as i64, z: nb },
            Vec3 { x: 0, y: q as i64, z: nb },
            Vec3 { x: 0, y: q as i64, z: grid.get(0, q) as i64 },
        );
        assert(t@ == tri_at(*grid, base_height, out@.len() as int));
        out.push(t);
    }
    for q in 0..h1
        invariant
            grid.wf(),
            valid_dims(*grid),
            w1 as int == wm1(*grid),
            h1 as int == hm1(*grid),
            nqe as int == nq(*grid),
            nb as int == -(base_height as int),
            out@.len() == 4 * (nqe as int) + 4 * (w1 as int) + h1 + q,
            forall|i: int|
                0 <= i < out@.len() ==> (#[trigger] out@[i])@ == tri_at(*grid, base_height, i),
    {
        let t = mk_tri(
            Vec3 { x: 0, y: (q + 1) as i64, z: nb },
            Vec3 { x: 0, y: q as i64, z: grid.get(0, q) as i64 },
            Vec3 { x: 0, y: (q + 1) as i64, z: grid.get(0, q + 1) as i64 },
        );
        assert(t@ == tri_at(*grid, base_height, out@.len() as int));
        out.push(t);
    }

    // East wall, along x = W-1, facing +x.
    for q in 0..h1
        invariant
            grid.wf(),
            valid_dims(*grid),
            w1 as int == wm1(*grid),
            h1 as int == hm1(*grid),
            nqe as int == nq(*grid),
            nb as int == -(base_height as int),
            out@.len() == 4 * (nqe as int) + 4 * (w1 as int) + 2 * (h1 as int) + q,
            forall|i: int|
                0 <= i < out@.len() ==> (#[trigger] out@[i])@ == tri_at(*grid, base_height, i),
    {
        let t = mk_tri(
            Vec3 { x: w1 as i64, y: q as i64, z: nb },
            Vec3 { x: w1 as i64, y: (q + 1) as i64, z: nb },
            Vec3 { x: w1 as i64, y: (q + 1) as i64, z: grid.get(w1, q + 1) as i64 },
        );
        assert(t@ == tri_at(*grid, base_height, out@.len() as int));
        out.push(t);
    }
    for q in 0..h1
        invariant
            grid.wf(),
            valid_dims(*grid),
            w1 as int == wm1(*grid),
            h1 as int == hm1(*grid),
            nqe as int == nq(*grid),
            nb as int == -(base_height as int),
            out@.len() == 4 * (nqe as int) + 4 * (w1 as int) + 3 * (h1 as int) + q,
            forall|i: int|
                0 <= i < out@.len() ==> (#[trigger] out@[i])@ == tri_at(*grid, base_height, i),
    {
        let t = mk_tri(
            Vec3 { x: w1 as i64, y: q as i64, z: nb },
            Vec3 { x: w1 as i64, y: (q + 1) as i64, z: grid.get(w1, q + 1) as i64 },
            Vec3 { x: w1 as i64, y: q as i64, z: grid.get(w1, q) as i64 },
        );
        assert(t@ == tri_at(*grid, base_height, out@.len() as int));
        out.push(t);
    }

    Ok(out)
}

} // verus!
