use heightmap_to_stl::generate;
use heightmap_to_stl::HeightGrid;
use heightmap_to_stl::MeshError;
use heightmap_to_stl::Triangle;
use heightmap_to_stl::Vec3;

fn grid(w: usize, h: usize, vals: Vec<u32>) -> HeightGrid {
    HeightGrid::new(w, h, vals).unwrap()
}

fn flat_grid(w: usize, h: usize, v: u32) -> HeightGrid {
    grid(w, h, vec![v; w * h])
}

fn cross(a: Vec3, b: Vec3, c: Vec3) -> (i64, i64, i64) {
    let (e1x, e1y, e1z) = (b.x - a.x, b.y - a.y, b.z - a.z);
    let (e2x, e2y, e2z) = (c.x - a.x, c.y - a.y, c.z - a.z);
    (
        e1y * e2z - e1z * e2y,
        e1z * e2x - e1x * e2z,
        e1x * e2y - e1y * e2x,
    )
}

fn expected_count(w: i64, h: i64) -> usize {
    (4 * (w - 1) * (h - 1) + 4 * ((w - 1) + (h - 1))) as usize
}

#[test]
fn rejects_narrow_grid() {
    // A 1x5 grid cannot form a quad: rejected, never treated as wider.
    let g = grid(1, 5, vec![1, 2, 3, 4, 5]);
    assert_eq!(generate(&g, 3), Err(MeshError::InvalidInput));
    let g = grid(5, 1, vec![1, 2, 3, 4, 5]);
    assert_eq!(generate(&g, 3), Err(MeshError::InvalidInput));
    let g = grid(0, 0, vec![]);
    assert_eq!(generate(&g, 0), Err(MeshError::InvalidInput));
}

#[test]
fn rejects_mismatched_buffer() {
    assert!(HeightGrid::new(2, 2, vec![1, 2, 3]).is_err());
    assert!(HeightGrid::new(3, 2, vec![0; 7]).is_err());
    assert!(HeightGrid::new(2, 2, vec![1, 2, 3, 4]).is_ok());
}

#[test]
fn grid_getters() {
    let g = grid(3, 2, vec![9; 6]);
    assert_eq!(g.width(), 3);
    assert_eq!(g.height(), 2);
    assert_eq!(g.get(2, 1), 9);
}

#[test]
fn unit_box_triangle_count() {
    // The smallest grid gives 2 top + 2 base + 8 wall triangles.
    let g = flat_grid(2, 2, 5);
    let mesh = generate(&g, 1).unwrap();
    assert_eq!(mesh.len(), 12);
    let top = mesh.iter().filter(|t| t.normal.z > 0).count();
    let base = mesh.iter().filter(|t| t.normal.z < 0).count();
    let wall = mesh
        .iter()
        .filter(|t| t.normal.z == 0 && (t.normal.x != 0 || t.normal.y != 0))
        .count();
    assert_eq!(top, 2);
    assert_eq!(base, 2);
    assert_eq!(wall, 8);
}

#[test]
fn triangle_count_formula() {
    for &(w, h) in &[(2usize, 3usize), (3, 2), (4, 5), (7, 2), (6, 6)] {
        let g = flat_grid(w, h, 3);
        let mesh = generate(&g, 2).unwrap();
        assert_eq!(mesh.len(), expected_count(w as i64, h as i64));
    }
}

#[test]
fn flat_grid_is_a_box() {
    // Constant heights: the top is the plane z = 7 with unit normals up,
    // the base the plane z = -2 with unit normals down.
    let g = flat_grid(3, 3, 7);
    let mesh = generate(&g, 2).unwrap();
    let mut top = 0;
    let mut base = 0;
    for t in &mesh {
        if t.normal.z > 0 {
            assert_eq!((t.normal.x, t.normal.y, t.normal.z), (0, 0, 1));
            assert!(t.a.z == 7 && t.b.z == 7 && t.c.z == 7);
            top += 1;
        } else if t.normal.z < 0 {
            assert_eq!((t.normal.x, t.normal.y, t.normal.z), (0, 0, -1));
            assert!(t.a.z == -2 && t.b.z == -2 && t.c.z == -2);
            base += 1;
        }
    }
    assert_eq!(top, 8);
    assert_eq!(base, 8);
}

#[test]
fn scaling_heights_scales_relief_only() {
    let vals: Vec<u32> = (0..9).collect();
    let scaled: Vec<u32> = vals.iter().map(|v| v * 3).collect();
    let g1 = grid(3, 3, vals);
    let g2 = grid(3, 3, scaled);
    let b = 5;
    let m1 = generate(&g1, b).unwrap();
    let m2 = generate(&g2, b).unwrap();
    assert_eq!(m1.len(), m2.len());
    for (t1, t2) in m1.iter().zip(m2.iter()) {
        for (v1, v2) in [(t1.a, t2.a), (t1.b, t2.b), (t1.c, t2.c)] {
            assert_eq!(v1.x, v2.x);
            assert_eq!(v1.y, v2.y);
            if v1.z == -(b as i64) {
                assert_eq!(v2.z, v1.z);
            } else {
                assert_eq!(v2.z, 3 * v1.z);
            }
        }
    }
}

#[test]
fn base_triangles_unchanged_by_scaling() {
    let vals: Vec<u32> = (1..10).collect();
    let scaled: Vec<u32> = (1..10).map(|v| v * 4).collect();
    let m1 = generate(&grid(3, 3, vals), 2).unwrap();
    let m2 = generate(&grid(3, 3, scaled), 2).unwrap();
    let bases1: Vec<&Triangle> = m1.iter().filter(|t| t.normal.z < 0).collect();
    let bases2: Vec<&Triangle> = m2.iter().filter(|t| t.normal.z < 0).collect();
    assert_eq!(bases1.len(), 8);
    assert_eq!(bases1, bases2);
}

#[test]
fn every_edge_shared_in_reverse() {
    // Watertightness: each directed edge of each triangle appears reversed
    // on some other triangle.
    let vals = vec![3, 0, 7, 1, 4, 2, 9, 5, 6, 2, 8, 0];
    let g = grid(4, 3, vals);
    let mesh = generate(&g, 1).unwrap();
    let point = |v: Vec3| (v.x, v.y, v.z);
    for (i, t) in mesh.iter().enumerate() {
        for e in [(t.a, t.b), (t.b, t.c), (t.c, t.a)] {
            let rev = (point(e.1), point(e.0));
            let found = mesh.iter().enumerate().any(|(i2, t2)| {
                i2 != i
                    && [(t2.a, t2.b), (t2.b, t2.c), (t2.c, t2.a)]
                        .iter()
                        .any(|e2| (point(e2.0), point(e2.1)) == rev)
            });
            assert!(found, "edge of triangle {} has no reversed partner", i);
        }
    }
}

#[test]
fn every_edge_shared_exactly_twice() {
    // On a nondegenerate solid each undirected edge borders exactly two
    // triangles: every directed edge occurs once, its reverse once.
    let vals = vec![3, 1, 7, 1, 4, 2, 9, 5, 6];
    let g = grid(3, 3, vals);
    let mesh = generate(&g, 2).unwrap();
    let mut edges: Vec<((i64, i64, i64), (i64, i64, i64))> = Vec::new();
    let point = |v: Vec3| (v.x, v.y, v.z);
    for t in &mesh {
        for e in [(t.a, t.b), (t.b, t.c), (t.c, t.a)] {
            edges.push((point(e.0), point(e.1)));
        }
    }
    for e in &edges {
        let same = edges.iter().filter(|f| *f == e).count();
        let rev = edges.iter().filter(|f| **f == (e.1, e.0)).count();
        assert_eq!(same, 1);
        assert_eq!(rev, 1);
    }
}

#[test]
fn normals_follow_winding() {
    // The stored normal is the exact cross product of the edge vectors, so
    // it agrees with the winding under the right-hand rule.
    let vals = vec![0, 10, 5, 3, 8, 1];
    let g = grid(3, 2, vals);
    let mesh = generate(&g, 4).unwrap();
    for t in &mesh {
        assert_eq!((t.normal.x, t.normal.y, t.normal.z), cross(t.a, t.b, t.c));
    }
}

#[test]
fn walls_face_outward() {
    let g = flat_grid(3, 3, 6);
    let mesh = generate(&g, 2).unwrap();
    // Every wall triangle of a flat grid faces along exactly one axis,
    // away from the grid: x = 0 walls face -x, x = 2 walls face +x, and
    // likewise in y.
    for t in &mesh {
        if t.normal.z != 0 {
            continue;
        }
        if t.normal.x < 0 {
            assert!(t.a.x == 0 && t.b.x == 0 && t.c.x == 0);
        } else if t.normal.x > 0 {
            assert!(t.a.x == 2 && t.b.x == 2 && t.c.x == 2);
        } else if t.normal.y < 0 {
            assert!(t.a.y == 0 && t.b.y == 0 && t.c.y == 0);
        } else {
            assert!(t.normal.y > 0);
            assert!(t.a.y == 2 && t.b.y == 2 && t.c.y == 2);
        }
    }
}

#[test]
fn degenerate_walls_get_zero_normal() {
    // Height zero over base zero: the wall segments collapse to zero area
    // and are emitted with a zero normal, never anything undefined.
    let g = flat_grid(2, 2, 0);
    let mesh = generate(&g, 0).unwrap();
    assert_eq!(mesh.len(), 12);
    let zero = mesh
        .iter()
        .filter(|t| t.normal.x == 0 && t.normal.y == 0 && t.normal.z == 0)
        .count();
    assert_eq!(zero, 8);
}

#[test]
fn relief_samples_each_grid_point() {
    // data[x * height + y] is the height over (x, y); top vertices carry
    // exactly those values.
    let g = grid(2, 2, vec![10, 20, 30, 40]);
    let mesh = generate(&g, 1).unwrap();
    let height_at = |x: i64, y: i64| match (x, y) {
        (0, 0) => 10,
        (0, 1) => 20,
        (1, 0) => 30,
        (1, 1) => 40,
        _ => unreachable!(),
    };
    for t in &mesh {
        for v in [t.a, t.b, t.c] {
            if v.z >= 0 {
                assert_eq!(v.z, height_at(v.x, v.y));
            } else {
                assert_eq!(v.z, -1);
            }
        }
    }
}
