use meshgen::{
    flatten, incidence_counts, AttributeFormat, DrawCall, MeshData, MeshError, QuadLayout,
    StepMode, VertexAttribute, VertexLayout, IcosphereTopology, TEX_ONE,
};

#[test]
fn quad_layout_corners_and_uvs() {
    let q = QuadLayout::build(true, true).unwrap();
    assert_eq!(q.corners.len(), 4);
    assert_eq!(q.indices, vec![0, 1, 2, 2, 3, 0]);
    assert_eq!(q.corners, vec![(-1, -1), (1, -1), (1, 1), (-1, 1)]);
    assert_eq!(q.tex_coords, vec![(0, 0), (TEX_ONE, 0), (TEX_ONE, TEX_ONE), (0, TEX_ONE)]);
}

#[test]
fn quad_two_by_two_scenario() {
    let (w, h) = (2.0f32, 2.0f32);
    let q = QuadLayout::build(w > 0.0, h > 0.0).unwrap();
    let positions: Vec<[f32; 3]> = q
        .corners
        .iter()
        .map(|&(sx, sy)| [w * 0.5 * sx as f32, h * 0.5 * sy as f32, 0.0])
        .collect();
    assert_eq!(positions, vec![[-1.0, -1.0, 0.0], [1.0, -1.0, 0.0], [1.0, 1.0, 0.0], [-1.0, 1.0, 0.0]]);
    let uvs: Vec<(f32, f32)> = q
        .tex_coords
        .iter()
        .map(|&(u, v)| (u as f32 / TEX_ONE as f32, v as f32 / TEX_ONE as f32))
        .collect();
    assert_eq!(uvs, vec![(0.0, 0.0), (1.0, 0.0), (1.0, 1.0), (0.0, 1.0)]);
    let mesh = MeshData::pack(positions, q.indices.clone(), true);
    assert_eq!(mesh.vertices.len(), 4);
    assert_eq!(mesh.indices.as_ref().map(|i| i.len()), Some(6));
    assert_eq!(mesh.element_count(), 6);
}

#[test]
fn quad_non_positive_extent_is_invalid() {
    assert_eq!(QuadLayout::build(false, true).err(), Some(MeshError::InvalidParameter));
    assert_eq!(QuadLayout::build(true, false).err(), Some(MeshError::InvalidParameter));
    let zero = 0.0f32;
    assert_eq!(QuadLayout::build(zero > 0.0, zero > 0.0).err(), Some(MeshError::InvalidParameter));
}

#[test]
fn icosphere_scenario_level_zero() {
    let t = IcosphereTopology::build(1.0f32 > 0.0, 0).unwrap();
    let vertices: Vec<u32> = (0..12 + t.midpoints.len() as u32).collect();
    let mesh = MeshData::pack(vertices, t.indices.clone(), true);
    assert_eq!(mesh.vertices.len(), 12);
    assert_eq!(mesh.indices.as_ref().unwrap().len(), 60);
    assert_eq!(mesh.element_count(), 60);
}

#[test]
fn flatten_follows_index_list() {
    let v = vec![10u32, 20, 30, 40];
    let idx = vec![0, 1, 2, 2, 3, 0];
    assert_eq!(flatten(&v, &idx), vec![10, 20, 30, 30, 40, 10]);
    assert!(flatten(&v, &vec![]).is_empty());
}

#[test]
fn unindexed_pack_matches_indexed_draw_order() {
    let v = vec!['p', 'q', 'r', 's'];
    let idx = vec![0, 1, 2, 2, 3, 0];
    let indexed = MeshData::pack(v.clone(), idx.clone(), true);
    let flat = MeshData::pack(v.clone(), idx.clone(), false);
    assert!(flat.indices.is_none());
    assert_eq!(flat.vertices.len(), indexed.indices.as_ref().unwrap().len());
    assert_eq!(flat.element_count(), indexed.element_count());
    let looked_up: Vec<char> = indexed
        .indices
        .as_ref()
        .unwrap()
        .iter()
        .map(|&i| indexed.vertices[i as usize])
        .collect();
    assert_eq!(flat.vertices, looked_up);
    assert_eq!(indexed.vertices, v);
}

#[test]
fn incidence_counts_start_at_one() {
    assert_eq!(incidence_counts(4, &vec![0, 1, 2, 2, 3, 0]), vec![3, 2, 3, 2]);
    assert_eq!(incidence_counts(3, &vec![]), vec![1, 1, 1]);
    assert_eq!(incidence_counts(5, &vec![0, 1, 2]), vec![2, 2, 2, 1, 1]);
}

#[test]
fn incidence_counts_on_icosahedron() {
    let t = IcosphereTopology::build(true, 0).unwrap();
    assert_eq!(incidence_counts(12, &t.indices), vec![6; 12]);
}

#[test]
fn mesh_vertex_layout_is_packed() {
    let l = VertexLayout::mesh_vertex();
    assert_eq!(l.array_stride, 56);
    assert_eq!(l.step_mode, StepMode::Vertex);
    let offsets: Vec<u64> = l.attributes.iter().map(|a| a.offset).collect();
    assert_eq!(offsets, vec![0, 12, 20, 32, 44]);
    let locations: Vec<u32> = l.attributes.iter().map(|a| a.shader_location).collect();
    assert_eq!(locations, vec![0, 1, 2, 3, 4]);
    assert_eq!(
        l.attributes[1],
        VertexAttribute { offset: 12, shader_location: 1, format: AttributeFormat::Float32x2 }
    );
}

#[test]
fn instance_layout_from_formats() {
    let f = vec![
        AttributeFormat::Float32x4,
        AttributeFormat::Float32x4,
        AttributeFormat::Float32x4,
        AttributeFormat::Float32x4,
        AttributeFormat::Float32x3,
        AttributeFormat::Float32x3,
        AttributeFormat::Float32x3,
    ];
    let l = VertexLayout::packed(&f, 5, StepMode::Instance);
    assert_eq!(l.array_stride, 100);
    assert_eq!(l.step_mode, StepMode::Instance);
    let offsets: Vec<u64> = l.attributes.iter().map(|a| a.offset).collect();
    assert_eq!(offsets, vec![0, 16, 32, 48, 64, 76, 88]);
    let locations: Vec<u32> = l.attributes.iter().map(|a| a.shader_location).collect();
    assert_eq!(locations, vec![5, 6, 7, 8, 9, 10, 11]);
    assert_eq!(AttributeFormat::Float32x2.byte_size(), 8);
}

#[test]
fn draw_call_follows_index_buffer() {
    assert_eq!(
        DrawCall::for_mesh(true, 60, 0, 100),
        DrawCall::Indexed { count: 60, instance_start: 0, instance_end: 100 }
    );
    assert_eq!(
        DrawCall::for_mesh(false, 960, 2, 3),
        DrawCall::Sequential { count: 960, instance_start: 2, instance_end: 3 }
    );
    assert_eq!(
        DrawCall::single(true, 6),
        DrawCall::Indexed { count: 6, instance_start: 0, instance_end: 1 }
    );
}
