use meshgen::{
    extend_with_duplicates, resolve_seams, IcosphereTopology, TEX_HALF, TEX_ONE,
};

fn fixed(u: f32) -> u32 {
    (u as f64 * TEX_ONE as f64).round() as u32
}

fn gap(a: u32, b: u32) -> u32 {
    if a > b { a - b } else { b - a }
}

fn crossing_triangles(indices: &[u32], u: &[u32]) -> usize {
    indices
        .chunks(3)
        .filter(|c| {
            let (a, b, d) = (u[c[0] as usize], u[c[1] as usize], u[c[2] as usize]);
            gap(a, b) > TEX_HALF || gap(a, d) > TEX_HALF || gap(b, d) > TEX_HALF
        })
        .count()
}

#[test]
fn seam_triangle_gets_a_duplicate() {
    let u = vec![fixed(0.1), fixed(0.9), fixed(0.8)];
    let split = resolve_seams(&vec![0, 1, 2], &u);
    // pairs (0, 2) and (0, 1) both cross and both mark vertex 0
    assert_eq!(split.duplicates, vec![0, 0]);
    assert_eq!(split.indices, vec![3, 1, 2]);
    assert_eq!(split.u, vec![u[0], u[1], u[2], u[0] + TEX_ONE, u[0] + TEX_ONE]);
    assert_eq!(crossing_triangles(&split.indices, &split.u), 0);
}

#[test]
fn seam_redirect_only_where_triangle_reaches_past_half() {
    // vertex 0 is marked by the first triangle; the second triangle holds it
    // with vertices at most one half, so it keeps the original
    let u = vec![fixed(0.05), fixed(0.95), fixed(0.9), fixed(0.25), fixed(0.5)];
    let split = resolve_seams(&vec![0, 1, 2, 0, 3, 4], &u);
    assert_eq!(split.duplicates, vec![0, 0]);
    assert_eq!(split.indices, vec![5, 1, 2, 0, 3, 4]);
    assert_eq!(split.indices.len(), 6);
}

#[test]
fn seam_marks_smaller_u_of_each_pair() {
    // pair (1, 2) crosses: vertex 2 has the smaller U
    let u = vec![fixed(0.6), fixed(0.9), fixed(0.2)];
    let split = resolve_seams(&vec![0, 1, 2], &u);
    assert_eq!(split.duplicates, vec![2]);
    assert_eq!(split.indices, vec![0, 1, 3]);
    assert_eq!(split.u[3], u[2] + TEX_ONE);
}

#[test]
fn seam_gap_of_exactly_one_half_is_no_crossing() {
    let u = vec![0, TEX_HALF, TEX_HALF / 2];
    let split = resolve_seams(&vec![0, 1, 2], &u);
    assert!(split.duplicates.is_empty());
    assert_eq!(split.indices, vec![0, 1, 2]);
    assert_eq!(split.u, u);
}

#[test]
fn seam_without_crossing_changes_nothing() {
    let u = vec![fixed(0.1), fixed(0.2), fixed(0.3), fixed(0.4)];
    let idx = vec![0, 1, 2, 2, 1, 3];
    let split = resolve_seams(&idx, &u);
    assert!(split.duplicates.is_empty());
    assert_eq!(split.indices, idx);
    assert_eq!(split.u, u);
}

#[test]
fn seam_fix_can_fail_where_marked_vertex_is_near_unmarked() {
    // vertex 0 is marked by the first triangle, then redirected in the
    // second, which reaches past one half but lies close to vertex 0
    let u = vec![fixed(0.1), fixed(0.9), fixed(0.9), fixed(0.6), fixed(0.55)];
    let split = resolve_seams(&vec![0, 1, 2, 0, 3, 4], &u);
    assert_eq!(split.indices, vec![5, 1, 2, 5, 3, 4]);
    assert_eq!(crossing_triangles(&split.indices, &split.u), 1);
}

#[test]
fn extend_with_duplicates_copies_sources() {
    let mut attrs = vec!['a', 'b', 'c'];
    extend_with_duplicates(&mut attrs, &vec![2, 0, 2]);
    assert_eq!(attrs, vec!['a', 'b', 'c', 'c', 'a', 'c']);
}

fn sphere_u(levels: u32) -> (Vec<u32>, Vec<u32>) {
    let t = IcosphereTopology::build(true, levels).unwrap();
    let phi = (1.0 + 5.0f32.sqrt()) * 0.5;
    let inv = 1.0 / (phi * phi + 1.0).sqrt();
    let base = [
        [-1.0, phi, 0.0], [1.0, phi, 0.0], [0.0, 1.0, -phi], [0.0, 1.0, phi],
        [-phi, 0.0, -1.0], [-phi, 0.0, 1.0], [phi, 0.0, -1.0], [phi, 0.0, 1.0],
        [0.0, -1.0, -phi], [0.0, -1.0, phi], [-1.0, -phi, 0.0], [1.0, -phi, 0.0],
    ];
    let mut p: Vec<[f32; 3]> = base.iter().map(|v| [v[0] * inv, v[1] * inv, v[2] * inv]).collect();
    for &(a, b) in &t.midpoints {
        let (x, y) = (p[a as usize], p[b as usize]);
        let s = [x[0] + y[0], x[1] + y[1], x[2] + y[2]];
        let n = (s[0] * s[0] + s[1] * s[1] + s[2] * s[2]).sqrt();
        p.push([s[0] / n, s[1] / n, s[2] / n]);
    }
    let u = p
        .iter()
        .map(|q| {
            let u = q[2].atan2(q[0]) / (std::f32::consts::PI * 2.0) + 0.5;
            fixed(1.0 - u)
        })
        .collect();
    (t.indices, u)
}

#[test]
fn icosphere_seam_fix_leaves_no_crossing() {
    for levels in 0..4 {
        let (idx, u) = sphere_u(levels);
        assert!(crossing_triangles(&idx, &u) > 0);
        let split = resolve_seams(&idx, &u);
        assert_eq!(split.indices.len(), idx.len());
        assert_eq!(split.u.len(), u.len() + split.duplicates.len());
        assert_eq!(crossing_triangles(&split.indices, &split.u), 0);
    }
}

#[test]
fn icosahedron_seam_marks() {
    let (idx, u) = sphere_u(0);
    assert_eq!(u[0], 0);
    assert_eq!(u[1], TEX_HALF);
    let split = resolve_seams(&idx, &u);
    assert_eq!(split.duplicates[0], 0);
    assert_eq!(split.indices[0], 12);
    // the face (0, 3, 1) stays below one half and keeps vertex 0
    assert_eq!(&split.indices[3..6], &[0, 3, 1]);
}
