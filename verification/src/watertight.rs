//! Closure of the solid: every directed edge of every triangle appears,
//! reversed, on exactly the neighbouring face the construction intends —
//! across the top surface, around the base, along the walls, and over the
//! four corners.
//!
//! The pairing is given explicitly: `partner_of` names, for each directed
//! edge of the mesh, the triangle and edge that traverse it the other way,
//! and the proofs show that the named edge really is the reverse, belongs
//! to a different triangle, and points back (`partner_of` is a fixed-point
//! free involution). The directed edges of the mesh therefore fall into
//! disjoint pairs of mutually reversed edges: no edge of the mesh is a
//! boundary edge, and the two triangles sharing an edge wind it in
//! opposite directions.

use vstd::arithmetic::mul::lemma_mul_basics;
use vstd::arithmetic::mul::lemma_mul_nonnegative;
use vstd::prelude::*;

use crate::grid::HeightGrid;
use crate::mesh::SpecTriangle;
use crate::mesh::SpecVec3;
use crate::model::base_a;
use crate::model::base_b;
use crate::model::lemma_quad_index;
use crate::model::lemma_quad_split;
use crate::model::mesh_seq;
use crate::model::nq;
use crate::model::top_a;
use crate::model::top_b;
use crate::model::tri_at;
use crate::model::triangle_count;
use crate::model::valid_dims;
use crate::model::hm1;
use crate::model::wm1;

verus! {

/// The `j`-th directed edge of a triangle, `j` counted 0 to 2: from one
/// vertex to the next in winding order.
pub open spec fn edge_of(t: SpecTriangle, j: int) -> (SpecVec3, SpecVec3) {
    if j == 0 {
        (t.a, t.b)
    } else if j == 1 {
        (t.b, t.c)
    } else {
        (t.c, t.a)
    }
}

/// Coordinate-wise equality of two points.
pub open spec fn same_point(u: SpecVec3, v: SpecVec3) -> bool {
    u.x == v.x && u.y == v.y && u.z == v.z
}

/// Triangle `i2` of the solid traverses, as its `j2`-th edge, exactly the
/// `j`-th edge of triangle `i` in the opposite direction.
pub open spec fn reversed_edge(g: HeightGrid, b: u32, i: int, j: int, i2: int, j2: int) -> bool {
    &&& 0 <= i2 < triangle_count(g)
    &&& 0 <= j2 < 3
    &&& i2 != i
    &&& same_point(edge_of(mesh_seq(g, b)[i2], j2).0, edge_of(mesh_seq(g, b)[i], j).1)
    &&& same_point(edge_of(mesh_seq(g, b)[i2], j2).1, edge_of(mesh_seq(g, b)[i], j).0)
}

/// Some other triangle of the solid carries the reverse of edge `j` of
/// triangle `i`.
pub open spec fn edge_matched(g: HeightGrid, b: u32, i: int, j: int) -> bool {
    exists|i2: int, j2: int| reversed_edge(g, b, i, j, i2, j2)
}

/// The designated partner of edge `j` of triangle `i`: the index of the
/// neighbouring triangle and the position, within it, of the same edge
/// traversed the other way. Follows the layout of `tri_at` section by
/// section.
pub open spec fn partner_of(g: HeightGrid, i: int, j: int) -> (int, int) {
    let w1 = wm1(g);
    let h1 = hm1(g);
    let n = nq(g);
    if i < n {
        // Top surface, first half of the quad.
        let x = i % w1;
        let y = i / w1;
        if j == 0 {
            if y > 0 {
                (n + (y - 1) * w1 + x, 1)
            } else {
                (4 * n + w1 + x, 1)
            }
        } else if j == 1 {
            if x + 1 < w1 {
                (n + y * w1 + (x + 1), 2)
            } else {
                (4 * n + 4 * w1 + 3 * h1 + y, 1)
            }
        } else {
            (n + y * w1 + x, 0)
        }
    } else if i < 2 * n {
        // Top surface, second half of the quad.
        let x = (i - n) % w1;
        let y = (i - n) / w1;
        if j == 0 {
            (y * w1 + x, 2)
        } else if j == 1 {
            if y + 1 < h1 {
                ((y + 1) * w1 + x, 0)
            } else {
                (4 * n + 3 * w1 + x, 1)
            }
        } else {
            if x > 0 {
                (y * w1 + (x - 1), 1)
            } else {
                (4 * n + 4 * w1 + h1 + y, 1)
            }
        }
    } else if i < 3 * n {
        // Base, first half of the quad.
        let x = (i - 2 * n) % w1;
        let y = (i - 2 * n) / w1;
        if j == 0 {
            (3 * n + y * w1 + x, 2)
        } else if j == 1 {
            if x + 1 < w1 {
                (3 * n + y * w1 + (x + 1), 0)
            } else {
                (4 * n + 4 * w1 + 2 * h1 + y, 0)
            }
        } else {
            if y > 0 {
                (3 * n + (y - 1) * w1 + x, 1)
            } else {
                (4 * n + x, 0)
            }
        }
    } else if i < 4 * n {
        // Base, second half of the quad.
        let x = (i - 3 * n) % w1;
        let y = (i - 3 * n) / w1;
        if j == 0 {
            if x > 0 {
                (2 * n + y * w1 + (x - 1), 1)
            } else {
                (4 * n + 4 * w1 + y, 0)
            }
        } else if j == 1 {
            if y + 1 < h1 {
                (2 * n + (y + 1) * w1 + x, 2)
            } else {
                (4 * n + 2 * w1 + x, 0)
            }
        } else {
            (2 * n + y * w1 + x, 0)
        }
    } else if i < 4 * n + w1 {
        // South wall, lower triangle.
        let x = i - 4 * n;
        if j == 0 {
            (2 * n + x, 2)
        } else if j == 1 {
            if x + 1 < w1 {
                (4 * n + w1 + (x + 1), 2)
            } else {
                (4 * n + 4 * w1 + 3 * h1, 2)
            }
        } else {
            (4 * n + w1 + x, 0)
        }
    } else if i < 4 * n + 2 * w1 {
        // South wall, upper triangle.
        let x = i - (4 * n + w1);
        if j == 0 {
            (4 * n + x, 2)
        } else if j == 1 {
            (x, 0)
        } else {
            if x > 0 {
                (4 * n + (x - 1), 1)
            } else {
                (4 * n + 4 * w1, 1)
            }
        }
    } else if i < 4 * n + 3 * w1 {
        // North wall, lower triangle.
        let x = i - (4 * n + 2 * w1);
        if j == 0 {
            (3 * n + (h1 - 1) * w1 + x, 1)
        } else if j == 1 {
            if x > 0 {
                (4 * n + 3 * w1 + (x - 1), 2)
            } else {
                (4 * n + 4 * w1 + h1 + (h1 - 1), 2)
            }
        } else {
            (4 * n + 3 * w1 + x, 0)
        }
    } else if i < 4 * n + 4 * w1 {
        // North wall, upper triangle.
        let x = i - (4 * n + 3 * w1);
        if j == 0 {
            (4 * n + 2 * w1 + x, 2)
        } else if j == 1 {
            (n + (h1 - 1) * w1 + x, 1)
        } else {
            if x + 1 < w1 {
                (4 * n + 2 * w1 + (x + 1), 1)
            } else {
                (4 * n + 4 * w1 + 2 * h1 + (h1 - 1), 1)
            }
        }
    } else if i < 4 * n + 4 * w1 + h1 {
        // West wall, lower triangle.
        let y = i - (4 * n + 4 * w1);
        if j == 0 {
            (3 * n + y * w1, 0)
        } else if j == 1 {
            if y > 0 {
                (4 * n + 4 * w1 + h1 + (y - 1), 2)
            } else {
                (4 * n + w1, 2)
            }
        } else {
            (4 * n + 4 * w1 + h1 + y, 0)
        }
    } else if i < 4 * n + 4 * w1 + 2 * h1 {
        // West wall, upper triangle.
        let y = i - (4 * n + 4 * w1 + h1);
        if j == 0 {
            (4 * n + 4 * w1 + y, 2)
        } else if j == 1 {
            (n + y * w1, 2)
        } else {
            if y + 1 < h1 {
                (4 * n + 4 * w1 + (y + 1), 1)
            } else {
                (4 * n + 2 * w1, 1)
            }
        }
    } else if i < 4 * n + 4 * w1 + 3 * h1 {
        // East wall, lower triangle.
        let y = i - (4 * n + 4 * w1 + 2 * h1);
        if j == 0 {
            (2 * n + y * w1 + (w1 - 1), 1)
        } else if j == 1 {
            if y + 1 < h1 {
                (4 * n + 4 * w1 + 3 * h1 + (y + 1), 2)
            } else {
                (4 * n + 3 * w1 + (w1 - 1), 2)
            }
        } else {
            (4 * n + 4 * w1 + 3 * h1 + y, 0)
        }
    } else {
        // East wall, upper triangle.
        let y = i - (4 * n + 4 * w1 + 3 * h1);
        if j == 0 {
            (4 * n + 4 * w1 + 2 * h1 + y, 2)
        } else if j == 1 {
            (y * w1 + (w1 - 1), 1)
        } else {
            if y > 0 {
                (4 * n + 4 * w1 + 2 * h1 + (y - 1), 1)
            } else {
                (4 * n + (w1 - 1), 1)
            }
        }
    }
}

/// What the per-face lemmas establish of one edge: its designated partner
/// carries it in reverse, and partnering back returns to the edge itself.
pub open spec fn edge_paired(g: HeightGrid, b: u32, i: int, j: int) -> bool {
    let (i2, j2) = partner_of(g, i, j);
    &&& reversed_edge(g, b, i, j, i2, j2)
    &&& partner_of(g, i2, j2) == (i, j)
}

/// Checks that a concrete partner carries the reversed edge, and concludes
/// both the existence form and, once the partner is the designated one,
/// everything `reversed_edge` states of it.
proof fn lemma_witness(g: HeightGrid, b: u32, i: int, j: int, i2: int, j2: int)
    requires
        0 <= i2 < triangle_count(g),
        0 <= j2 < 3,
        i2 != i,
        same_point(edge_of(mesh_seq(g, b)[i2], j2).0, edge_of(mesh_seq(g, b)[i], j).1),
        same_point(edge_of(mesh_seq(g, b)[i2], j2).1, edge_of(mesh_seq(g, b)[i], j).0),
    ensures
        reversed_edge(g, b, i, j, i2, j2),
        edge_matched(g, b, i, j),
{
    assert(reversed_edge(g, b, i, j, i2, j2));
}

/// Where the first-half top triangle of quad `(x, y)` sits in the output.
proof fn lemma_idx_top_a(g: HeightGrid, b: u32, x: int, y: int)
    requires
        g.wf(),
        valid_dims(g),
        0 <= x < wm1(g),
        0 <= y < hm1(g),
    ensures
        0 <= y * wm1(g) + x < nq(g),
        (y * wm1(g) + x) % wm1(g) == x,
        (y * wm1(g) + x) / wm1(g) == y,
        tri_at(g, b, y * wm1(g) + x) == top_a(g, x, y),
{
    lemma_mul_nonnegative(wm1(g), hm1(g));
    lemma_quad_index(wm1(g), hm1(g), x, y);
}

/// Where the second-half top triangle of quad `(x, y)` sits in the output.
proof fn lemma_idx_top_b(g: HeightGrid, b: u32, x: int, y: int)
    requires
        g.wf(),
        valid_dims(g),
        0 <= x < wm1(g),
        0 <= y < hm1(g),
    ensures
        0 <= y * wm1(g) + x < nq(g),
        (y * wm1(g) + x) % wm1(g) == x,
        (y * wm1(g) + x) / wm1(g) == y,
        tri_at(g, b, nq(g) + y * wm1(g) + x) == top_b(g, x, y),
{
    lemma_mul_nonnegative(wm1(g), hm1(g));
    lemma_quad_index(wm1(g), hm1(g), x, y);
}

/// Where the first-half base triangle of quad `(x, y)` sits in the output.
proof fn lemma_idx_base_a(g: HeightGrid, b: u32, x: int, y: int)
    requires
        g.wf(),
        valid_dims(g),
        0 <= x < wm1(g),
        0 <= y < hm1(g),
    ensures
        0 <= y * wm1(g) + x < nq(g),
        (y * wm1(g) + x) % wm1(g) == x,
        (y * wm1(g) + x) / wm1(g) == y,
        tri_at(g, b, 2 * nq(g) + y * wm1(g) + x) == base_a(g, b, x, y),
{
    lemma_mul_nonnegative(wm1(g), hm1(g));
    lemma_quad_index(wm1(g), hm1(g), x, y);
}

/// Where the second-half base triangle of quad `(x, y)` sits in the output.
proof fn lemma_idx_base_b(g: HeightGrid, b: u32, x: int, y: int)
    requires
        g.wf(),
        valid_dims(g),
        0 <= x < wm1(g),
        0 <= y < hm1(g),
    ensures
        0 <= y * wm1(g) + x < nq(g),
        (y * wm1(g) + x) % wm1(g) == x,
        (y * wm1(g) + x) / wm1(g) == y,
        tri_at(g, b, 3 * nq(g) + y * wm1(g) + x) == base_b(g, b, x, y),
{
    lemma_mul_nonnegative(wm1(g), hm1(g));
    lemma_quad_index(wm1(g), hm1(g), x, y);
}

/// Partners for the three edges of a first-half top triangle.
proof fn lemma_partner_top_a(g: HeightGrid, b: u32, i: int, j: int)
    requires
        g.wf(),
        valid_dims(g),
        0 <= i < nq(g),
        0 <= j < 3,
    ensures
        edge_matched(g, b, i, j),
        edge_paired(g, b, i, j),
{
    let w1 = wm1(g);
    let h1 = hm1(g);
    let n = nq(g);
    lemma_mul_nonnegative(w1, h1);
    lemma_mul_basics(w1);
    lemma_quad_split(w1, h1, i);
    let x = i % w1;
    let y = i / w1;
    if j == 0 {
        if y > 0 {
            lemma_idx_top_b(g, b, x, y - 1);
            lemma_witness(g, b, i, j, n + (y - 1) * w1 + x, 1);
            assert(partner_of(g, i, j) == (n + (y - 1) * w1 + x, 1int));
            assert(partner_of(g, n + (y - 1) * w1 + x, 1) == (i, j));
        } else {
            lemma_witness(g, b, i, j, 4 * n + w1 + x, 1);
            assert(partner_of(g, i, j) == (4 * n + w1 + x, 1int));
            assert(partner_of(g, 4 * n + w1 + x, 1) == (i, j));
        }
    } else if j == 1 {
        if x + 1 < w1 {
            lemma_idx_top_b(g, b, x + 1, y);
            lemma_witness(g, b, i, j, n + y * w1 + (x + 1), 2);
            assert(partner_of(g, i, j) == (n + y * w1 + (x + 1), 2int));
            assert(partner_of(g, n + y * w1 + (x + 1), 2) == (i, j));
        } else {
            lemma_witness(g, b, i, j, 4 * n + 4 * w1 + 3 * h1 + y, 1);
            assert(partner_of(g, i, j) == (4 * n + 4 * w1 + 3 * h1 + y, 1int));
            assert(partner_of(g, 4 * n + 4 * w1 + 3 * h1 + y, 1) == (i, j));
        }
    } else {
        lemma_idx_top_b(g, b, x, y);
        lemma_witness(g, b, i, j, n + y * w1 + x, 0);
        assert(partner_of(g, i, j) == (n + y * w1 + x, 0int));
        assert(partner_of(g, n + y * w1 + x, 0) == (i, j));
    }
}

/// Partners for the three edges of a second-half top triangle.
proof fn lemma_partner_top_b(g: HeightGrid, b: u32, i: int, j: int)
    requires
        g.wf(),
        valid_dims(g),
        nq(g) <= i < 2 * nq(g),
        0 <= j < 3,
    ensures
        edge_matched(g, b, i, j),
        edge_paired(g, b, i, j),
{
    let w1 = wm1(g);
    let h1 = hm1(g);
    let n = nq(g);
    lemma_mul_nonnegative(w1, h1);
    lemma_mul_basics(w1);
    lemma_quad_split(w1, h1, i - n);
    let x = (i - n) % w1;
    let y = (i - n) / w1;
    if j == 0 {
        lemma_idx_top_a(g, b, x, y);
        lemma_witness(g, b, i, j, y * w1 + x, 2);
        assert(partner_of(g, i, j) == (y * w1 + x, 2int));
        assert(partner_of(g, y * w1 + x, 2) == (i, j));
    } else if j == 1 {
        if y + 1 < h1 {
            lemma_idx_top_a(g, b, x, y + 1);
            lemma_witness(g, b, i, j, (y + 1) * w1 + x, 0);
            assert(partner_of(g, i, j) == ((y + 1) * w1 + x, 0int));
            assert(partner_of(g, (y + 1) * w1 + x, 0) == (i, j));
        } else {
            lemma_witness(g, b, i, j, 4 * n + 3 * w1 + x, 1);
            assert(partner_of(g, i, j) == (4 * n + 3 * w1 + x, 1int));
            assert(partner_of(g, 4 * n + 3 * w1 + x, 1) == (i, j));
        }
    } else {
        if x > 0 {
            lemma_idx_top_a(g, b, x - 1, y);
            lemma_witness(g, b, i, j, y * w1 + (x - 1), 1);
            assert(partner_of(g, i, j) == (y * w1 + (x - 1), 1int));
            assert(partner_of(g, y * w1 + (x - 1), 1) == (i, j));
        } else {
            lemma_witness(g, b, i, j, 4 * n + 4 * w1 + h1 + y, 1);
            assert(partner_of(g, i, j) == (4 * n + 4 * w1 + h1 + y, 1int));
            assert(partner_of(g, 4 * n + 4 * w1 + h1 + y, 1) == (i, j));
        }
    }
}

/// Partners for the three edges of a first-half base triangle.
#[verifier::rlimit(50)]
proof fn lemma_partner_base_a(g: HeightGrid, b: u32, i: int, j: int)
    requires
        g.wf(),
        valid_dims(g),
        2 * nq(g) <= i < 3 * nq(g),
        0 <= j < 3,
    ensures
        edge_matched(g, b, i, j),
        edge_paired(g, b, i, j),
{
    let w1 = wm1(g);
    let h1 = hm1(g);
    let n = nq(g);
    lemma_mul_nonnegative(w1, h1);
    lemma_mul_basics(w1);
    lemma_quad_split(w1, h1, i - 2 * n);
    let x = (i - 2 * n) % w1;
    let y = (i - 2 * n) / w1;
    if j == 0 {
        lemma_idx_base_b(g, b, x, y);
        lemma_witness(g, b, i, j, 3 * n + y * w1 + x, 2);
        assert(partner_of(g, i, j) == (3 * n + y * w1 + x, 2int));
        assert(partner_of(g, 3 * n + y * w1 + x, 2) == (i, j));
    } else if j == 1 {
        if x + 1 < w1 {
            lemma_idx_base_b(g, b, x + 1, y);
            lemma_witness(g, b, i, j, 3 * n + y * w1 + (x + 1), 0);
            assert(partner_of(g, i, j) == (3 * n + y * w1 + (x + 1), 0int));
            assert(partner_of(g, 3 * n + y * w1 + (x + 1), 0) == (i, j));
        } else {
            lemma_witness(g, b, i, j, 4 * n + 4 * w1 + 2 * h1 + y, 0);
            assert(partner_of(g, i, j) == (4 * n + 4 * w1 + 2 * h1 + y, 0int));
            assert(partner_of(g, 4 * n + 4 * w1 + 2 * h1 + y, 0) == (i, j));
        }
    } else {
        if y > 0 {
            lemma_idx_base_b(g, b, x, y - 1);
            lemma_witness(g, b, i, j, 3 * n + (y - 1) * w1 + x, 1);
            assert(partner_of(g, i, j) == (3 * n + (y - 1) * w1 + x, 1int));
            assert(partner_of(g, 3 * n + (y - 1) * w1 + x, 1) == (i, j));
        } else {
            lemma_witness(g, b, i, j, 4 * n + x, 0);
            assert(i - 2 * n == x);
            assert(partner_of(g, i, j) == (4 * n + x, 0int));
            assert(partner_of(g, 4 * n + x, 0) == (2 * n + x, 2int));
            assert(partner_of(g, 4 * n + x, 0) == (i, j));
        }
    }
}

/// Partners for the three edges of a second-half base triangle.
proof fn lemma_partner_base_b(g: HeightGrid, b: u32, i: int, j: int)
    requires
        g.wf(),
        valid_dims(g),
        3 * nq(g) <= i < 4 * nq(g),
        0 <= j < 3,
    ensures
        edge_matched(g, b, i, j),
        edge_paired(g, b, i, j),
{
    let w1 = wm1(g);
    let h1 = hm1(g);
    let n = nq(g);
    lemma_mul_nonnegative(w1, h1);
    lemma_mul_basics(w1);
    lemma_quad_split(w1, h1, i - 3 * n);
    let x = (i - 3 * n) % w1;
    let y = (i - 3 * n) / w1;
    if j == 0 {
        if x > 0 {
            lemma_idx_base_a(g, b, x - 1, y);
            lemma_witness(g, b, i, j, 2 * n + y * w1 + (x - 1), 1);
            assert(partner_of(g, i, j) == (2 * n + y * w1 + (x - 1), 1int));
            assert(partner_of(g, 2 * n + y * w1 + (x - 1), 1) == (i, j));
        } else {
            lemma_witness(g, b, i, j, 4 * n + 4 * w1 + y, 0);
            assert(partner_of(g, i, j) == (4 * n + 4 * w1 + y, 0int));
            assert(partner_of(g, 4 * n + 4 * w1 + y, 0) == (i, j));
        }
    } else if j == 1 {
        if y + 1 < h1 {
            lemma_idx_base_a(g, b, x, y + 1);
            lemma_witness(g, b, i, j, 2 * n + (y + 1) * w1 + x, 2);
            assert(partner_of(g, i, j) == (2 * n + (y + 1) * w1 + x, 2int));
            assert(partner_of(g, 2 * n + (y + 1) * w1 + x, 2) == (i, j));
        } else {
            lemma_witness(g, b, i, j, 4 * n + 2 * w1 + x, 0);
            assert(partner_of(g, i, j) == (4 * n + 2 * w1 + x, 0int));
            assert(partner_of(g, 4 * n + 2 * w1 + x, 0) == (i, j));
        }
    } else {
        lemma_idx_base_a(g, b, x, y);
        lemma_witness(g, b, i, j, 2 * n + y * w1 + x, 0);
        assert(partner_of(g, i, j) == (2 * n + y * w1 + x, 0int));
        assert(partner_of(g, 2 * n + y * w1 + x, 0) == (i, j));
    }
}

/// Partners for the three edges of a lower south-wall triangle.
proof fn lemma_partner_south_a(g: HeightGrid, b: u32, i: int, j: int)
    requires
        g.wf(),
        valid_dims(g),
        4 * nq(g) <= i < 4 * nq(g) + wm1(g),
        0 <= j < 3,
    ensures
        edge_matched(g, b, i, j),
        edge_paired(g, b, i, j),
{
    let w1 = wm1(g);
    let h1 = hm1(g);
    let n = nq(g);
    lemma_mul_nonnegative(w1, h1);
    lemma_mul_basics(w1);
    let x = i - 4 * n;
    if j == 0 {
        lemma_idx_base_a(g, b, x, 0);
        lemma_witness(g, b, i, j, 2 * n + 0 * w1 + x, 2);
        assert(partner_of(g, i, j) == (2 * n + x, 2int));
        assert(partner_of(g, 2 * n + x, 2) == (i, j));
    } else if j == 1 {
        if x + 1 < w1 {
            lemma_witness(g, b, i, j, 4 * n + w1 + (x + 1), 2);
            assert(partner_of(g, i, j) == (4 * n + w1 + (x + 1), 2int));
            assert(partner_of(g, 4 * n + w1 + (x + 1), 2) == (i, j));
        } else {
            lemma_witness(g, b, i, j, 4 * n + 4 * w1 + 3 * h1 + 0, 2);
            assert(partner_of(g, i, j) == (4 * n + 4 * w1 + 3 * h1, 2int));
            assert(partner_of(g, 4 * n + 4 * w1 + 3 * h1, 2) == (i, j));
        }
    } else {
        lemma_witness(g, b, i, j, 4 * n + w1 + x, 0);
        assert(partner_of(g, i, j) == (4 * n + w1 + x, 0int));
        assert(partner_of(g, 4 * n + w1 + x, 0) == (i, j));
    }
}

/// Partners for the three edges of an upper south-wall triangle.
proof fn lemma_partner_south_b(g: HeightGrid, b: u32, i: int, j: int)
    requires
        g.wf(),
        valid_dims(g),
        4 * nq(g) + wm1(g) <= i < 4 * nq(g) + 2 * wm1(g),
        0 <= j < 3,
    ensures
        edge_matched(g, b, i, j),
        edge_paired(g, b, i, j),
{
    let w1 = wm1(g);
    let h1 = hm1(g);
    let n = nq(g);
    lemma_mul_nonnegative(w1, h1);
    lemma_mul_basics(w1);
    let x = i - (4 * n + w1);
    if j == 0 {
        lemma_witness(g, b, i, j, 4 * n + x, 2);
        assert(partner_of(g, i, j) == (4 * n + x, 2int));
        assert(partner_of(g, 4 * n + x, 2) == (i, j));
    } else if j == 1 {
        lemma_idx_top_a(g, b, x, 0);
        lemma_witness(g, b, i, j, 0 * w1 + x, 0);
        assert(partner_of(g, i, j) == (x, 0int));
        assert(partner_of(g, x, 0) == (i, j));
    } else {
        if x > 0 {
            lemma_witness(g, b, i, j, 4 * n + (x - 1), 1);
            assert(partner_of(g, i, j) == (4 * n + (x - 1), 1int));
            assert(partner_of(g, 4 * n + (x - 1), 1) == (i, j));
        } else {
            lemma_witness(g, b, i, j, 4 * n + 4 * w1, 1);
            assert(partner_of(g, i, j) == (4 * n + 4 * w1, 1int));
            assert(partner_of(g, 4 * n + 4 * w1, 1) == (i, j));
        }
    }
}

/// Partners for the three edges of a lower north-wall triangle.
proof fn lemma_partner_north_a(g: HeightGrid, b: u32, i: int, j: int)
    requires
        g.wf(),
        valid_dims(g),
        4 * nq(g) + 2 * wm1(g) <= i < 4 * nq(g) + 3 * wm1(g),
        0 <= j < 3,
    ensures
        edge_matched(g, b, i, j),
        edge_paired(g, b, i, j),
{
    let w1 = wm1(g);
    let h1 = hm1(g);
    let n = nq(g);
    lemma_mul_nonnegative(w1, h1);
    lemma_mul_basics(w1);
    let x = i - (4 * n + 2 * w1);
    if j == 0 {
        lemma_idx_base_b(g, b, x, h1 - 1);
        lemma_witness(g, b, i, j, 3 * n + (h1 - 1) * w1 + x, 1);
        assert(partner_of(g, i, j) == (3 * n + (h1 - 1) * w1 + x, 1int));
        assert(partner_of(g, 3 * n + (h1 - 1) * w1 + x, 1) == (i, j));
    } else if j == 1 {
        if x > 0 {
            lemma_witness(g, b, i, j, 4 * n + 3 * w1 + (x - 1), 2);
            assert(partner_of(g, i, j) == (4 * n + 3 * w1 + (x - 1), 2int));
            assert(partner_of(g, 4 * n + 3 * w1 + (x - 1), 2) == (i, j));
        } else {
            lemma_witness(g, b, i, j, 4 * n + 4 * w1 + h1 + (h1 - 1), 2);
            assert(partner_of(g, i, j) == (4 * n + 4 * w1 + h1 + (h1 - 1), 2int));
            assert(partner_of(g, 4 * n + 4 * w1 + h1 + (h1 - 1), 2) == (i, j));
        }
    } else {
        lemma_witness(g, b, i, j, 4 * n + 3 * w1 + x, 0);
        assert(partner_of(g, i, j) == (4 * n + 3 * w1 + x, 0int));
        assert(partner_of(g, 4 * n + 3 * w1 + x, 0) == (i, j));
    }
}

/// Partners for the three edges of an upper north-wall triangle.
proof fn lemma_partner_north_b(g: HeightGrid, b: u32, i: int, j: int)
    requires
        g.wf(),
        valid_dims(g),
        4 * nq(g) + 3 * wm1(g) <= i < 4 * nq(g) + 4 * wm1(g),
        0 <= j < 3,
    ensures
        edge_matched(g, b, i, j),
        edge_paired(g, b, i, j),
{
    let w1 = wm1(g);
    let h1 = hm1(g);
    let n = nq(g);
    lemma_mul_nonnegative(w1, h1);
    lemma_mul_basics(w1);
    let x = i - (4 * n + 3 * w1);
    if j == 0 {
        lemma_witness(g, b, i, j, 4 * n + 2 * w1 + x, 2);
        assert(partner_of(g, i, j) == (4 * n + 2 * w1 + x, 2int));
        assert(partner_of(g, 4 * n + 2 * w1 + x, 2) == (i, j));
    } else if j == 1 {
        lemma_idx_top_b(g, b, x, h1 - 1);
        lemma_witness(g, b, i, j, n + (h1 - 1) * w1 + x, 1);
        assert(partner_of(g, i, j) == (n + (h1 - 1) * w1 + x, 1int));
        assert(partner_of(g, n + (h1 - 1) * w1 + x, 1) == (i, j));
    } else {
        if x + 1 < w1 {
            lemma_witness(g, b, i, j, 4 * n + 2 * w1 + (x + 1), 1);
            assert(partner_of(g, i, j) == (4 * n + 2 * w1 + (x + 1), 1int));
            assert(partner_of(g, 4 * n + 2 * w1 + (x + 1), 1) == (i, j));
        } else {
            lemma_witness(g, b, i, j, 4 * n + 4 * w1 + 2 * h1 + (h1 - 1), 1);
            assert(partner_of(g, i, j) == (4 * n + 4 * w1 + 2 * h1 + (h1 - 1), 1int));
            assert(partner_of(g, 4 * n + 4 * w1 + 2 * h1 + (h1 - 1), 1) == (i, j));
        }
    }
}

/// Partners for the three edges of a lower west-wall triangle.
proof fn lemma_partner_west_a(g: HeightGrid, b: u32, i: int, j: int)
    requires
        g.wf(),
        valid_dims(g),
        4 * nq(g) + 4 * wm1(g) <= i < 4 * nq(g) + 4 * wm1(g) + hm1(g),
        0 <= j < 3,
    ensures
        edge_matched(g, b, i, j),
        edge_paired(g, b, i, j),
{
    let w1 = wm1(g);
    let h1 = hm1(g);
    let n = nq(g);
    lemma_mul_nonnegative(w1, h1);
    lemma_mul_basics(w1);
    let y = i - (4 * n + 4 * w1);
    if j == 0 {
        lemma_idx_base_b(g, b, 0, y);
        lemma_witness(g, b, i, j, 3 * n + y * w1 + 0, 0);
        assert(partner_of(g, i, j) == (3 * n + y * w1, 0int));
        assert(partner_of(g, 3 * n + y * w1, 0) == (i, j));
    } else if j == 1 {
        if y > 0 {
            lemma_witness(g, b, i, j, 4 * n + 4 * w1 + h1 + (y - 1), 2);
            assert(partner_of(g, i, j) == (4 * n + 4 * w1 + h1 + (y - 1), 2int));
            assert(partner_of(g, 4 * n + 4 * w1 + h1 + (y - 1), 2) == (i, j));
        } else {
            lemma_witness(g, b, i, j, 4 * n + w1 + 0, 2);
            assert(partner_of(g, i, j) == (4 * n + w1, 2int));
            assert(partner_of(g, 4 * n + w1, 2) == (i, j));
        }
    } else {
        lemma_witness(g, b, i, j, 4 * n + 4 * w1 + h1 + y, 0);
        assert(partner_of(g, i, j) == (4 * n + 4 * w1 + h1 + y, 0int));
        assert(partner_of(g, 4 * n + 4 * w1 + h1 + y, 0) == (i, j));
    }
}

/// Partners for the three edges of an upper west-wall triangle.
proof fn lemma_partner_west_b(g: HeightGrid, b: u32, i: int, j: int)
    requires
        g.wf(),
        valid_dims(g),
        4 * nq(g) + 4 * wm1(g) + hm1(g) <= i < 4 * nq(g) + 4 * wm1(g) + 2 * hm1(g),
        0 <= j < 3,
    ensures
        edge_matched(g, b, i, j),
        edge_paired(g, b, i, j),
{
    let w1 = wm1(g);
    let h1 = hm1(g);
    let n = nq(g);
    lemma_mul_nonnegative(w1, h1);
    lemma_mul_basics(w1);
    let y = i - (4 * n + 4 * w1 + h1);
    if j == 0 {
        lemma_witness(g, b, i, j, 4 * n + 4 * w1 + y, 2);
        assert(partner_of(g, i, j) == (4 * n + 4 * w1 + y, 2int));
        assert(partner_of(g, 4 * n + 4 * w1 + y, 2) == (i, j));
    } else if j == 1 {
        lemma_idx_top_b(g, b, 0, y);
        lemma_witness(g, b, i, j, n + y * w1 + 0, 2);
        assert(partner_of(g, i, j) == (n + y * w1, 2int));
        assert(partner_of(g, n + y * w1, 2) == (i, j));
    } else {
        if y + 1 < h1 {
            lemma_witness(g, b, i, j, 4 * n + 4 * w1 + (y + 1), 1);
            assert(partner_of(g, i, j) == (4 * n + 4 * w1 + (y + 1), 1int));
            assert(partner_of(g, 4 * n + 4 * w1 + (y + 1), 1) == (i, j));
        } else {
            lemma_witness(g, b, i, j, 4 * n + 2 * w1, 1);
            assert(partner_of(g, i, j) == (4 * n + 2 * w1, 1int));
            assert(partner_of(g, 4 * n + 2 * w1, 1) == (i, j));
        }
    }
}

/// Partners for the three edges of a lower east-wall triangle.
proof fn lemma_partner_east_a(g: HeightGrid, b: u32, i: int, j: int)
    requires
        g.wf(),
        valid_dims(g),
        4 * nq(g) + 4 * wm1(g) + 2 * hm1(g) <= i < 4 * nq(g) + 4 * wm1(g) + 3 * hm1(g),
        0 <= j < 3,
    ensures
        edge_matched(g, b, i, j),
        edge_paired(g, b, i, j),
{
    let w1 = wm1(g);
    let h1 = hm1(g);
    let n = nq(g);
    lemma_mul_nonnegative(w1, h1);
    lemma_mul_basics(w1);
    let y = i - (4 * n + 4 * w1 + 2 * h1);
    if j == 0 {
        lemma_idx_base_a(g, b, w1 - 1, y);
        lemma_witness(g, b, i, j, 2 * n + y * w1 + (w1 - 1), 1);
        assert(partner_of(g, i, j) == (2 * n + y * w1 + (w1 - 1), 1int));
        assert(partner_of(g, 2 * n + y * w1 + (w1 - 1), 1) == (i, j));
    } else if j == 1 {
        if y + 1 < h1 {
            lemma_witness(g, b, i, j, 4 * n + 4 * w1 + 3 * h1 + (y + 1), 2);
            assert(partner_of(g, i, j) == (4 * n + 4 * w1 + 3 * h1 + (y + 1), 2int));
            assert(partner_of(g, 4 * n + 4 * w1 + 3 * h1 + (y + 1), 2) == (i, j));
        } else {
            lemma_witness(g, b, i, j, 4 * n + 3 * w1 + (w1 - 1), 2);
            assert(partner_of(g, i, j) == (4 * n + 3 * w1 + (w1 - 1), 2int));
            assert(partner_of(g, 4 * n + 3 * w1 + (w1 - 1), 2) == (i, j));
        }
    } else {
        lemma_witness(g, b, i, j, 4 * n + 4 * w1 + 3 * h1 + y, 0);
        assert(partner_of(g, i, j) == (4 * n + 4 * w1 + 3 * h1 + y, 0int));
        assert(partner_of(g, 4 * n + 4 * w1 + 3 * h1 + y, 0) == (i, j));
    }
}

/// Partners for the three edges of an upper east-wall triangle.
proof fn lemma_partner_east_b(g: HeightGrid, b: u32, i: int, j: int)
    requires
        g.wf(),
        valid_dims(g),
        4 * nq(g) + 4 * wm1(g) + 3 * hm1(g) <= i < triangle_count(g),
        0 <= j < 3,
    ensures
        edge_matched(g, b, i, j),
        edge_paired(g, b, i, j),
{
    let w1 = wm1(g);
    let h1 = hm1(g);
    let n = nq(g);
    lemma_mul_nonnegative(w1, h1);
    lemma_mul_basics(w1);
    let y = i - (4 * n + 4 * w1 + 3 * h1);
    if j == 0 {
        lemma_witness(g, b, i, j, 4 * n + 4 * w1 + 2 * h1 + y, 2);
        assert(partner_of(g, i, j) == (4 * n + 4 * w1 + 2 * h1 + y, 2int));
        assert(partner_of(g, 4 * n + 4 * w1 + 2 * h1 + y, 2) == (i, j));
    } else if j == 1 {
        lemma_idx_top_a(g, b, w1 - 1, y);
        lemma_witness(g, b, i, j, y * w1 + (w1 - 1), 1);
        assert(partner_of(g, i, j) == (y * w1 + (w1 - 1), 1int));
        assert(partner_of(g, y * w1 + (w1 - 1), 1) == (i, j));
    } else {
        if y > 0 {
            lemma_witness(g, b, i, j, 4 * n + 4 * w1 + 2 * h1 + (y - 1), 1);
            assert(partner_of(g, i, j) == (4 * n + 4 * w1 + 2 * h1 + (y - 1), 1int));
            assert(partner_of(g, 4 * n + 4 * w1 + 2 * h1 + (y - 1), 1) == (i, j));
        } else {
            lemma_witness(g, b, i, j, 4 * n + (w1 - 1), 1);
            assert(partner_of(g, i, j) == (4 * n + (w1 - 1), 1int));
            assert(partner_of(g, 4 * n + (w1 - 1), 1) == (i, j));
        }
    }
}

/// Finds the partner of one edge, whichever face its triangle belongs to.
pub proof fn lemma_edge_partner(g: HeightGrid, b: u32, i: int, j: int)
    requires
        g.wf(),
        valid_dims(g),
        0 <= i < triangle_count(g),
        0 <= j < 3,
    ensures
        edge_matched(g, b, i, j),
        edge_paired(g, b, i, j),
{
    let w1 = wm1(g);
    let h1 = hm1(g);
    let n = nq(g);
    lemma_mul_nonnegative(w1, h1);
    lemma_mul_basics(w1);
    if i < n {
        lemma_partner_top_a(g, b, i, j);
    } else if i < 2 * n {
        lemma_partner_top_b(g, b, i, j);
    } else if i < 3 * n {
        lemma_partner_base_a(g, b, i, j);
    } else if i < 4 * n {
        lemma_partner_base_b(g, b, i, j);
    } else if i < 4 * n + w1 {
        lemma_partner_south_a(g, b, i, j);
    } else if i < 4 * n + 2 * w1 {
        lemma_partner_south_b(g, b, i, j);
    } else if i < 4 * n + 3 * w1 {
        lemma_partner_north_a(g, b, i, j);
    } else if i < 4 * n + 4 * w1 {
        lemma_partner_north_b(g, b, i, j);
    } else if i < 4 * n + 4 * w1 + h1 {
        lemma_partner_west_a(g, b, i, j);
    } else if i < 4 * n + 4 * w1 + 2 * h1 {
        lemma_partner_west_b(g, b, i, j);
    } else if i < 4 * n + 4 * w1 + 3 * h1 {
        lemma_partner_east_a(g, b, i, j);
    } else {
        lemma_partner_east_b(g, b, i, j);
    }
}

/// Watertight closure: in the solid over any valid grid, every directed
/// edge of every triangle has a designated partner edge on a different
/// triangle that traverses it in the opposite direction, and partnering is
/// mutual — `partner_of` pairs the directed edges of the mesh off two by
/// two. No edge of the mesh is a boundary edge, and the two triangles
/// sharing an edge are wound consistently.
pub proof fn lemma_watertight(g: HeightGrid, b: u32)
    requires
        g.wf(),
        valid_dims(g),
    ensures
        forall|i: int, j: int|
            0 <= i < triangle_count(g) && 0 <= j < 3 ==> #[trigger] edge_paired(g, b, i, j),
{
    assert forall|i: int, j: int|
        0 <= i < triangle_count(g) && 0 <= j < 3 implies #[trigger] edge_paired(
        g,
        b,
        i,
        j,
    ) by {
        lemma_edge_partner(g, b, i, j);
    }
}

} // verus!
