use meshgen::{icosahedron_indices, subdivide, IcosphereTopology, MeshError, MAX_ITERATIONS};

#[test]
fn icosahedron_has_twenty_faces_over_twelve_vertices() {
    let idx = icosahedron_indices();
    assert_eq!(idx.len(), 60);
    assert!(idx.iter().all(|&i| i < 12));
    for v in 0..12u32 {
        // every vertex of an icosahedron lies on five faces
        assert_eq!(idx.iter().filter(|&&i| i == v).count(), 5);
    }
}

#[test]
fn subdivide_one_triangle() {
    let sub = subdivide(&vec![0, 1, 2], 3);
    assert_eq!(sub.indices, vec![0, 3, 5, 1, 4, 3, 2, 5, 4, 3, 4, 5]);
    assert_eq!(sub.edges, vec![(0, 1), (1, 2), (0, 2)]);
}

#[test]
fn subdivide_numbers_midpoints_per_triangle() {
    let sub = subdivide(&vec![0, 1, 2, 2, 1, 3], 4);
    assert_eq!(sub.indices.len(), 24);
    assert_eq!(&sub.indices[12..], &[2, 7, 9, 1, 8, 7, 3, 9, 8, 7, 8, 9]);
    assert_eq!(sub.edges, vec![(0, 1), (1, 2), (0, 2), (2, 1), (1, 3), (2, 3)]);
}

#[test]
fn icosphere_counts_per_level() {
    let expected_vertices = [12usize, 72, 312, 1272];
    let mut pow = 1usize;
    for n in 0..4u32 {
        let t = IcosphereTopology::build(true, n).unwrap();
        assert_eq!(t.indices.len(), 3 * 20 * pow);
        assert_eq!(12 + t.midpoints.len(), expected_vertices[n as usize]);
        let vertex_count = (12 + t.midpoints.len()) as u32;
        assert!(t.indices.iter().all(|&i| i < vertex_count));
        pow *= 4;
    }
}

#[test]
fn icosphere_level_zero_is_the_icosahedron() {
    let t = IcosphereTopology::build(true, 0).unwrap();
    assert_eq!(t.indices, icosahedron_indices());
    assert!(t.midpoints.is_empty());
}

#[test]
fn icosphere_midpoints_precede() {
    let t = IcosphereTopology::build(true, 2).unwrap();
    for (k, &(a, b)) in t.midpoints.iter().enumerate() {
        assert!((a as usize) < 12 + k && (b as usize) < 12 + k);
    }
    assert_eq!(t.midpoints[0], (0, 1));
    assert_eq!(t.midpoints[1], (1, 2));
    assert_eq!(t.midpoints[2], (0, 2));
}

#[test]
fn icosphere_zero_radius_is_invalid() {
    let radius = 0.0f32;
    assert_eq!(
        IcosphereTopology::build(radius > 0.0, 2).err(),
        Some(MeshError::InvalidParameter)
    );
    let negative = -1.0f32;
    assert_eq!(
        IcosphereTopology::build(negative > 0.0, 0).err(),
        Some(MeshError::InvalidParameter)
    );
}

#[test]
fn icosphere_too_deep_is_refused() {
    assert_eq!(
        IcosphereTopology::build(true, MAX_ITERATIONS + 1).err(),
        Some(MeshError::ResourceLimitExceeded)
    );
    assert_eq!(
        IcosphereTopology::build(false, 100).err(),
        Some(MeshError::InvalidParameter)
    );
    let deepest = IcosphereTopology::build(true, MAX_ITERATIONS).unwrap();
    assert_eq!(deepest.indices.len(), 60 * 4096);
    assert_eq!(12 + deepest.midpoints.len(), 12 + 20 * 4095);
}
