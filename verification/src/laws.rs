//! Global properties of the generated solid, proved once over the model:
//! orientation of the flat faces, and how the mesh responds to scaling all
//! heights by a constant factor.

use vstd::arithmetic::mul::lemma_mul_nonnegative;
use vstd::prelude::*;

use crate::grid::HeightGrid;
use crate::mesh::lemma_normal_eval;
use crate::mesh::SpecTriangle;
use crate::mesh::SpecVec3;
use crate::model::lemma_quad_split;
use crate::model::mesh_seq;
use crate::model::nq;
use crate::model::valid_dims;
use crate::model::hm1;
use crate::model::wm1;

verus! {

/// Every stored height is non-negative: heights are carried as `u32`.
pub proof fn lemma_at_nonneg(g: HeightGrid, x: int, y: int)
    requires
        g.wf(),
        0 <= x < g.spec_width(),
        0 <= y < g.spec_height(),
    ensures
        g.at(x, y) >= 0,
{
    assert(0 <= x * g.spec_height() + y < g.spec_width() * g.spec_height()) by (nonlinear_arith)
        requires
            0 <= x < g.spec_width(),
            0 <= y < g.spec_height(),
    ;
}

/// A triangle lying flat at depth `b`, facing straight down: its normal is
/// the unit vector `(0, 0, -1)`.
pub open spec fn flat_down_tri(t: SpecTriangle, b: u32) -> bool {
    &&& t.normal.x == 0
    &&& t.normal.y == 0
    &&& t.normal.z == -1
    &&& t.a.z == -(b as int)
    &&& t.b.z == -(b as int)
    &&& t.c.z == -(b as int)
}

/// A triangle lying flat at height `hval`, facing straight up: its normal
/// is the unit vector `(0, 0, 1)`.
pub open spec fn flat_up_tri(t: SpecTriangle, hval: int) -> bool {
    &&& t.normal.x == 0
    &&& t.normal.y == 0
    &&& t.normal.z == 1
    &&& t.a.z == hval
    &&& t.b.z == hval
    &&& t.c.z == hval
}

/// Shape of one first-half base triangle: flat at depth `b`, facing down.
proof fn lemma_base_a_flat(g: HeightGrid, b: u32, x: int, y: int)
    ensures
        flat_down_tri(crate::model::base_a(g, b, x, y), b),
{
    let t = crate::model::base_a(g, b, x, y);
    lemma_normal_eval(t.a, t.b, t.c, 1, 1, 0, 1, 0, 0);
    assert(t.normal == crate::mesh::tri_normal(t.a, t.b, t.c));
    assert(t.normal.x == 1 * 0 - 0 * 0);
    assert(t.normal.y == 0 * 1 - 1 * 0);
    assert(t.normal.z == 1 * 0 - 1 * 1);
}

/// Shape of one second-half base triangle: flat at depth `b`, facing down.
proof fn lemma_base_b_flat(g: HeightGrid, b: u32, x: int, y: int)
    ensures
        flat_down_tri(crate::model::base_b(g, b, x, y), b),
{
    let t = crate::model::base_b(g, b, x, y);
    lemma_normal_eval(t.a, t.b, t.c, 0, 1, 0, 1, 1, 0);
    assert(t.normal == crate::mesh::tri_normal(t.a, t.b, t.c));
    assert(t.normal.x == 1 * 0 - 0 * 1);
    assert(t.normal.y == 0 * 1 - 0 * 0);
    assert(t.normal.z == 0 * 1 - 1 * 1);
}

/// Shape of one first-half top triangle over three equal heights: flat at
/// that height, facing up.
proof fn lemma_top_a_flat(g: HeightGrid, hval: int, x: int, y: int)
    requires
        g.at(x, y) == hval,
        g.at(x + 1, y) == hval,
        g.at(x + 1, y + 1) == hval,
    ensures
        flat_up_tri(crate::model::top_a(g, x, y), hval),
{
    let t = crate::model::top_a(g, x, y);
    lemma_normal_eval(t.a, t.b, t.c, 1, 0, 0, 1, 1, 0);
    assert(t.normal == crate::mesh::tri_normal(t.a, t.b, t.c));
    assert(t.normal.x == 0 * 0 - 0 * 1);
    assert(t.normal.y == 0 * 1 - 1 * 0);
    assert(t.normal.z == 1 * 1 - 0 * 1);
}

/// Shape of one second-half top triangle over three equal heights: flat at
/// that height, facing up.
proof fn lemma_top_b_flat(g: HeightGrid, hval: int, x: int, y: int)
    requires
        g.at(x, y) == hval,
        g.at(x + 1, y + 1) == hval,
        g.at(x, y + 1) == hval,
    ensures
        flat_up_tri(crate::model::top_b(g, x, y), hval),
{
    let t = crate::model::top_b(g, x, y);
    lemma_normal_eval(t.a, t.b, t.c, 1, 1, 0, 0, 1, 0);
    assert(t.normal == crate::mesh::tri_normal(t.a, t.b, t.c));
    assert(t.normal.x == 1 * 0 - 0 * 1);
    assert(t.normal.y == 0 * 0 - 1 * 0);
    assert(t.normal.z == 1 * 1 - 1 * 0);
}

/// The base is a flat floor: every base triangle lies at depth `b` and its
/// normal is exactly `(0, 0, -1)` — the cross product itself is the unit
/// vector pointing straight down, whatever the heights are.
pub proof fn lemma_base_orientation(g: HeightGrid, b: u32)
    requires
        g.wf(),
        valid_dims(g),
    ensures
        forall|i: int|
            2 * nq(g) <= i < 4 * nq(g) ==> flat_down_tri(#[trigger] mesh_seq(g, b)[i], b),
{
    assert forall|i: int| 2 * nq(g) <= i < 4 * nq(g) implies flat_down_tri(
        #[trigger] mesh_seq(g, b)[i],
        b,
    ) by {
        let n = nq(g);
        lemma_mul_nonnegative(wm1(g), hm1(g));
        if i < 3 * n {
            lemma_quad_split(wm1(g), hm1(g), i - 2 * n);
            lemma_base_a_flat(g, b, (i - 2 * n) % wm1(g), (i - 2 * n) / wm1(g));
        } else {
            lemma_quad_split(wm1(g), hm1(g), i - 3 * n);
            lemma_base_b_flat(g, b, (i - 3 * n) % wm1(g), (i - 3 * n) / wm1(g));
        }
    }
}

/// Over a grid whose heights all equal `hval`, the top surface is the flat
/// plane `z = hval`: every top triangle has normal exactly `(0, 0, 1)` and
/// all its vertices at `z = hval`. Together with `lemma_base_orientation`
/// this makes the solid over a constant grid a rectangular box of extent
/// `hval + b` in z.
pub proof fn lemma_flat_top(g: HeightGrid, b: u32, hval: int)
    requires
        g.wf(),
        valid_dims(g),
        forall|x: int, y: int|
            0 <= x < g.spec_width() && 0 <= y < g.spec_height() ==> #[trigger] g.at(x, y)
                == hval,
    ensures
        forall|i: int|
            0 <= i < 2 * nq(g) ==> flat_up_tri(#[trigger] mesh_seq(g, b)[i], hval),
{
    assert forall|i: int| 0 <= i < 2 * nq(g) implies flat_up_tri(
        #[trigger] mesh_seq(g, b)[i],
        hval,
    ) by {
        let n = nq(g);
        lemma_mul_nonnegative(wm1(g), hm1(g));
        if i < n {
            lemma_quad_split(wm1(g), hm1(g), i);
            lemma_top_a_flat(g, hval, i % wm1(g), i / wm1(g));
        } else {
            lemma_quad_split(wm1(g), hm1(g), i - n);
            lemma_top_b_flat(g, hval, (i - n) % wm1(g), (i - n) / wm1(g));
        }
    }
}

/// How one vertex of the scaled solid relates to its counterpart: x and y
/// are untouched, a base vertex keeps its depth, and a relief vertex has
/// its height multiplied by `k`.
pub open spec fn scaled_vertex(v1: SpecVec3, v2: SpecVec3, k: int, b: u32) -> bool {
    &&& v2.x == v1.x
    &&& v2.y == v1.y
    &&& (v1.z == -(b as int) ==> v2.z == v1.z)
    &&& (v1.z != -(b as int) ==> v2.z == k * v1.z)
}

/// `scaled_vertex`, vertex by vertex over a triangle.
pub open spec fn scaled_tri(t1: SpecTriangle, t2: SpecTriangle, k: int, b: u32) -> bool {
    &&& scaled_vertex(t1.a, t2.a, k, b)
    &&& scaled_vertex(t1.b, t2.b, k, b)
    &&& scaled_vertex(t1.c, t2.c, k, b)
}

/// Multiplying every height by a positive factor `k` multiplies every
/// relief vertex's z by `k` and moves nothing else: x and y coordinates
/// are unchanged everywhere, and the base triangles are identical down to
/// their normals.
pub proof fn lemma_scaling(g1: HeightGrid, g2: HeightGrid, b: u32, k: int)
    requires
        g1.wf(),
        g2.wf(),
        valid_dims(g1),
        g2.spec_width() == g1.spec_width(),
        g2.spec_height() == g1.spec_height(),
        k > 0,
        forall|x: int, y: int|
            0 <= x < g1.spec_width() && 0 <= y < g1.spec_height() ==> #[trigger] g2.at(x, y)
                == k * g1.at(x, y),
    ensures
        mesh_seq(g2, b).len() == mesh_seq(g1, b).len(),
        forall|i: int|
            2 * nq(g1) <= i < 4 * nq(g1) ==> #[trigger] mesh_seq(g2, b)[i] == mesh_seq(
                g1,
                b,
            )[i],
        forall|i: int|
            0 <= i < mesh_seq(g1, b).len() ==> scaled_tri(
                #[trigger] mesh_seq(g1, b)[i],
                mesh_seq(g2, b)[i],
                k,
                b,
            ),
{
    let w1 = wm1(g1);
    let h1 = hm1(g1);
    let n = nq(g1);
    assert forall|i: int| 0 <= i < mesh_seq(g1, b).len() implies scaled_tri(
        #[trigger] mesh_seq(g1, b)[i],
        mesh_seq(g2, b)[i],
        k,
        b,
    ) && (2 * n <= i < 4 * n ==> mesh_seq(g2, b)[i] == mesh_seq(g1, b)[i]) by {
        if i < n {
            lemma_quad_split(w1, h1, i);
            lemma_scaled_point(g1, g2, k, b, i % w1, i / w1);
            lemma_scaled_point(g1, g2, k, b, i % w1 + 1, i / w1);
            lemma_scaled_point(g1, g2, k, b, i % w1 + 1, i / w1 + 1);
        } else if i < 2 * n {
            lemma_quad_split(w1, h1, i - n);
            lemma_scaled_point(g1, g2, k, b, (i - n) % w1, (i - n) / w1);
            lemma_scaled_point(g1, g2, k, b, (i - n) % w1 + 1, (i - n) / w1 + 1);
            lemma_scaled_point(g1, g2, k, b, (i - n) % w1, (i - n) / w1 + 1);
        } else if i < 3 * n {
            lemma_quad_split(w1, h1, i - 2 * n);
        } else if i < 4 * n {
            lemma_quad_split(w1, h1, i - 3 * n);
        } else if i < 4 * n + w1 {
            lemma_scaled_point(g1, g2, k, b, i - 4 * n + 1, 0);
        } else if i < 4 * n + 2 * w1 {
            lemma_scaled_point(g1, g2, k, b, i - (4 * n + w1), 0);
            lemma_scaled_point(g1, g2, k, b, i - (4 * n + w1) + 1, 0);
        } else if i < 4 * n + 3 * w1 {
            lemma_scaled_point(g1, g2, k, b, i - (4 * n + 2 * w1), h1);
        } else if i < 4 * n + 4 * w1 {
            lemma_scaled_point(g1, g2, k, b, i - (4 * n + 3 * w1), h1);
            lemma_scaled_point(g1, g2, k, b, i - (4 * n + 3 * w1) + 1, h1);
        } else if i < 4 * n + 4 * w1 + h1 {
            lemma_scaled_point(g1, g2, k, b, 0, i - (4 * n + 4 * w1));
        } else if i < 4 * n + 4 * w1 + 2 * h1 {
            lemma_scaled_point(g1, g2, k, b, 0, i - (4 * n + 4 * w1 + h1));
            lemma_scaled_point(g1, g2, k, b, 0, i - (4 * n + 4 * w1 + h1) + 1);
        } else if i < 4 * n + 4 * w1 + 3 * h1 {
            lemma_scaled_point(g1, g2, k, b, w1, i - (4 * n + 4 * w1 + 2 * h1) + 1);
        } else {
            lemma_scaled_point(g1, g2, k, b, w1, i - (4 * n + 4 * w1 + 3 * h1) + 1);
            lemma_scaled_point(g1, g2, k, b, w1, i - (4 * n + 4 * w1 + 3 * h1));
        }
    }
}

/// One grid point under scaling: the pair of heights satisfies the vertex
/// relation, including the corner case of a zero height over a zero base.
proof fn lemma_scaled_point(g1: HeightGrid, g2: HeightGrid, k: int, b: u32, x: int, y: int)
    requires
        g1.wf(),
        g2.wf(),
        g2.spec_width() == g1.spec_width(),
        g2.spec_height() == g1.spec_height(),
        k > 0,
        0 <= x < g1.spec_width(),
        0 <= y < g1.spec_height(),
        forall|x0: int, y0: int|
            0 <= x0 < g1.spec_width() && 0 <= y0 < g1.spec_height() ==> #[trigger] g2.at(x0, y0)
                == k * g1.at(x0, y0),
    ensures
        g1.at(x, y) >= 0,
        g2.at(x, y) == k * g1.at(x, y),
        g1.at(x, y) == -(b as int) ==> g2.at(x, y) == g1.at(x, y),
{
    lemma_at_nonneg(g1, x, y);
}

} // verus!


