//! The mathematical description of the solid built over a grid: which
//! triangle stands at which index of the output, as a pure function of the
//! grid and the base thickness.
//!
//! The solid consists of twelve families of triangles, laid out one after
//! the other in the output sequence. Writing `W` and `H` for the grid
//! dimensions and `n = (W-1)*(H-1)` for the number of surface quads:
//!
//! * `[0, n)` and `[n, 2n)` — the two triangles of each top-surface quad,
//!   wound counter-clockwise seen from above (normals point up and away
//!   from the solid);
//! * `[2n, 3n)` and `[3n, 4n)` — the same tessellation at `z = -base`,
//!   wound the other way (normals point down);
//! * then two triangles per unit segment of each of the four walls, in the
//!   order south (`y = 0`), north (`y = H-1`), west (`x = 0`), east
//!   (`x = W-1`), wound so the normals point out of the solid.
//!
//! Every quad is split along the same diagonal, so adjacent quads meet
//! edge to edge and the surface carries no ridge pattern.

use vstd::arithmetic::div_mod::lemma_fundamental_div_mod;
use vstd::arithmetic::div_mod::lemma_fundamental_div_mod_converse;
use vstd::arithmetic::div_mod::lemma_mod_bound;
use vstd::arithmetic::div_mod::lemma_multiply_divide_lt;
use vstd::arithmetic::mul::lemma_mul_is_commutative;
use vstd::prelude::*;

use crate::grid::HeightGrid;
use crate::mesh::spec_tri;
use crate::mesh::SpecTriangle;
use crate::mesh::SpecVec3;

verus! {

/// The dimensions the mesher accepts: anything smaller cannot form a quad.
pub open spec fn valid_dims(g: HeightGrid) -> bool {
    g.spec_width() >= 2 && g.spec_height() >= 2
}

/// Number of quads along the x axis.
pub open spec fn wm1(g: HeightGrid) -> int {
    g.spec_width() - 1
}

/// Number of quads along the y axis.
pub open spec fn hm1(g: HeightGrid) -> int {
    g.spec_height() - 1
}

/// Number of surface quads.
pub open spec fn nq(g: HeightGrid) -> int {
    wm1(g) * hm1(g)
}

/// How many triangles the solid over `g` has: two per quad for the top,
/// two per quad for the base, and two per unit segment of each wall.
pub open spec fn triangle_count(g: HeightGrid) -> int {
    4 * nq(g) + 4 * (wm1(g) + hm1(g))
}

/// The top-surface vertex over grid point `(x, y)`.
pub open spec fn top_v(g: HeightGrid, x: int, y: int) -> SpecVec3 {
    SpecVec3 { x: x, y: y, z: g.at(x, y) }
}

/// The base vertex under grid point `(x, y)`, at depth `base`.
pub open spec fn base_v(b: u32, x: int, y: int) -> SpecVec3 {
    SpecVec3 { x: x, y: y, z: -(b as int) }
}

/// First top triangle of quad `(x, y)`: the half below the diagonal.
pub open spec fn top_a(g: HeightGrid, x: int, y: int) -> SpecTriangle {
    spec_tri(top_v(g, x, y), top_v(g, x + 1, y), top_v(g, x + 1, y + 1))
}

/// Second top triangle of quad `(x, y)`: the half above the diagonal.
pub open spec fn top_b(g: HeightGrid, x: int, y: int) -> SpecTriangle {
    spec_tri(top_v(g, x, y), top_v(g, x + 1, y + 1), top_v(g, x, y + 1))
}

/// First base triangle of quad `(x, y)`; winding reversed against the top.
pub open spec fn base_a(g: HeightGrid, b: u32, x: int, y: int) -> SpecTriangle {
    spec_tri(base_v(b, x, y), base_v(b, x + 1, y + 1), base_v(b, x + 1, y))
}

/// Second base triangle of quad `(x, y)`; winding reversed against the top.
pub open spec fn base_b(g: HeightGrid, b: u32, x: int, y: int) -> SpecTriangle {
    spec_tri(base_v(b, x, y), base_v(b, x, y + 1), base_v(b, x + 1, y + 1))
}

/// Lower wall triangle of segment `x` of the south wall (`y = 0`).
pub open spec fn south_a(g: HeightGrid, b: u32, x: int) -> SpecTriangle {
    spec_tri(base_v(b, x, 0), base_v(b, x + 1, 0), top_v(g, x + 1, 0))
}

/// Upper wall triangle of segment `x` of the south wall (`y = 0`).
pub open spec fn south_b(g: HeightGrid, b: u32, x: int) -> SpecTriangle {
    spec_tri(base_v(b, x, 0), top_v(g, x + 1, 0), top_v(g, x, 0))
}

/// Lower wall triangle of segment `x` of the north wall (`y = H-1`).
pub open spec fn north_a(g: HeightGrid, b: u32, x: int) -> SpecTriangle {
    spec_tri(base_v(b, x + 1, hm1(g)), base_v(b, x, hm1(g)), top_v(g, x, hm1(g)))
}

/// Upper wall triangle of segment `x` of the north wall (`y = H-1`).
pub open spec fn north_b(g: HeightGrid, b: u32, x: int) -> SpecTriangle {
    spec_tri(base_v(b, x + 1, hm1(g)), top_v(g, x, hm1(g)), top_v(g, x + 1, hm1(g)))
}

/// Lower wall triangle of segment `y` of the west wall (`x = 0`).
pub open spec fn west_a(g: HeightGrid, b: u32, y: int) -> SpecTriangle {
    spec_tri(base_v(b, 0, y + 1), base_v(b, 0, y), top_v(g, 0, y))
}

/// Upper wall triangle of segment `y` of the west wall (`x = 0`).
pub open spec fn west_b(g: HeightGrid, b: u32, y: int) -> SpecTriangle {
    spec_tri(base_v(b, 0, y + 1), top_v(g, 0, y), top_v(g, 0, y + 1))
}

/// Lower wall triangle of segment `y` of the east wall (`x = W-1`).
pub open spec fn east_a(g: HeightGrid, b: u32, y: int) -> SpecTriangle {
    spec_tri(base_v(b, wm1(g), y), base_v(b, wm1(g), y + 1), top_v(g, wm1(g), y + 1))
}

/// Upper wall triangle of segment `y` of the east wall (`x = W-1`).
pub open spec fn east_b(g: HeightGrid, b: u32, y: int) -> SpecTriangle {
    spec_tri(base_v(b, wm1(g), y), top_v(g, wm1(g), y + 1), top_v(g, wm1(g), y))
}

/// The triangle at position `i` of the output, following the layout
/// described at the top of this module.
pub open spec fn tri_at(g: HeightGrid, b: u32, i: int) -> SpecTriangle {
    let w1 = wm1(g);
    let h1 = hm1(g);
    let n = nq(g);
    if i < n {
        top_a(g, i % w1, i / w1)
    } else if i < 2 * n {
        top_b(g, (i - n) % w1, (i - n) / w1)
    } else if i < 3 * n {
        base_a(g, b, (i - 2 * n) % w1, (i - 2 * n) / w1)
    } else if i < 4 * n {
        base_b(g, b, (i - 3 * n) % w1, (i - 3 * n) / w1)
    } else if i < 4 * n + w1 {
        south_a(g, b, i - 4 * n)
    } else if i < 4 * n + 2 * w1 {
        south_b(g, b, i - (4 * n + w1))
    } else if i < 4 * n + 3 * w1 {
        north_a(g, b, i - (4 * n + 2 * w1))
    } else if i < 4 * n + 4 * w1 {
        north_b(g, b, i - (4 * n + 3 * w1))
    } else if i < 4 * n + 4 * w1 + h1 {
        west_a(g, b, i - (4 * n + 4 * w1))
    } else if i < 4 * n + 4 * w1 + 2 * h1 {
        west_b(g, b, i - (4 * n + 4 * w1 + h1))
    } else if i < 4 * n + 4 * w1 + 3 * h1 {
        east_a(g, b, i - (4 * n + 4 * w1 + 2 * h1))
    } else {
        east_b(g, b, i - (4 * n + 4 * w1 + 3 * h1))
    }
}

/// The whole solid over `g` with base thickness `b`, triangle by triangle.
pub open spec fn mesh_seq(g: HeightGrid, b: u32) -> Seq<SpecTriangle> {
    Seq::new(triangle_count(g) as nat, |i: int| tri_at(g, b, i))
}

/// Splits a quad index `i` into its coordinates: `i % w1` along x and
/// `i / w1` along y, both in range.
pub proof fn lemma_quad_split(w1: int, h1: int, i: int)
    requires
        1 <= w1,
        0 <= i < w1 * h1,
    ensures
        0 <= i % w1 < w1,
        0 <= i / w1 < h1,
        i == w1 * (i / w1) + i % w1,
        i == (i / w1) * w1 + i % w1,
{
    lemma_mod_bound(i, w1);
    lemma_fundamental_div_mod(i, w1);
    lemma_mul_is_commutative(w1, i / w1);
    lemma_multiply_divide_lt(i, w1, h1);
    assert(0 <= i / w1) by (nonlinear_arith)
        requires
            0 <= i,
            1 <= w1,
    ;
}

/// Converse of `lemma_quad_split`: the quad at coordinates `(x, y)` has
/// index `y * w1 + x`, and that index decodes back to `(x, y)`.
pub proof fn lemma_quad_index(w1: int, h1: int, x: int, y: int)
    requires
        1 <= w1,
        0 <= x < w1,
        0 <= y < h1,
    ensures
        0 <= y * w1 + x < w1 * h1,
        (y * w1 + x) % w1 == x,
        (y * w1 + x) / w1 == y,
{
    lemma_fundamental_div_mod_converse(y * w1 + x, w1, y, x);
    assert(0 <= y * w1 + x < w1 * h1) by (nonlinear_arith)
        requires
            1 <= w1,
            0 <= x < w1,
            0 <= y < h1,
    ;
}

} // verus!
