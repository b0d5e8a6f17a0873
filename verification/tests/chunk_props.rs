use voxel_core::chunk::{Block, Chunk, ChunkError};
use voxel_core::fixed::SCALE;
use voxel_core::math::Vec3;

#[test]
fn block_has_24_vertices_and_36_indices() {
    let b = Block::new(Vec3 { x: 0, y: 0, z: 0 });
    assert_eq!(b.vertices.len(), 24);
    assert_eq!(b.indices.len(), 36);
    // first vertex: the near corner with (0, 0) texture coordinates
    assert_eq!(b.vertices[0].position, Vec3 { x: 0, y: 0, z: 0 });
    assert_eq!((b.vertices[0].u, b.vertices[0].v), (0, 0));
    // far top corner of the top face
    assert_eq!(b.vertices[22].position, Vec3 { x: SCALE, y: SCALE, z: SCALE });
    assert_eq!((b.vertices[22].u, b.vertices[22].v), (SCALE, 0));
    // winding pattern of the back face
    assert_eq!(&b.indices[0..6], &[2, 1, 0, 0, 3, 2]);
    // every index addresses one of the 24 vertices
    for &ix in b.indices.iter() {
        assert!(ix < 24);
    }
}

#[test]
fn block_offsets_follow_position() {
    let b = Block::new(Vec3 { x: 3 * SCALE, y: 0, z: -2 * SCALE });
    assert_eq!(b.vertices[0].position, Vec3 { x: 3 * SCALE, y: 0, z: -2 * SCALE });
    assert_eq!(
        b.vertices[6].position,
        Vec3 { x: 4 * SCALE, y: SCALE, z: -1 * SCALE },
    );
}

#[test]
fn grid_16_by_16_by_1_counts() {
    let mut c = Chunk::new(16, 16, 1);
    c.load_cubes(Vec3 { x: 0, y: 0, z: 0 });
    assert_eq!(c.cube_count, 256);
    assert_eq!(c.vertices.len(), 6144);
    assert_eq!(c.indices.len(), 9216);
    for &ix in c.indices.iter() {
        assert!(ix < 6144);
    }
}

#[test]
fn grid_emission_order_is_row_major() {
    let mut c = Chunk::new(2, 2, 2);
    c.load_cubes(Vec3 { x: 0, y: 0, z: 0 });
    assert_eq!(c.cube_count, 8);
    // cube i starts at vertex 24 * i; x varies fastest, then z, then y
    let corners: Vec<(i64, i64, i64)> = (0..8)
        .map(|i| {
            let p = c.vertices[24 * i].position;
            (p.x / SCALE, p.y / SCALE, p.z / SCALE)
        })
        .collect();
    assert_eq!(
        corners,
        vec![
            (0, 0, 0),
            (1, 0, 0),
            (0, 0, 1),
            (1, 0, 1),
            (0, 1, 0),
            (1, 1, 0),
            (0, 1, 1),
            (1, 1, 1),
        ],
    );
}

#[test]
fn grid_indices_are_biased_per_cube() {
    let mut c = Chunk::new(3, 1, 1);
    c.load_cubes(Vec3 { x: 0, y: 0, z: 0 });
    assert_eq!(c.indices.len(), 108);
    assert_eq!(c.indices[0], 2);
    assert_eq!(c.indices[36], 2 + 24);
    assert_eq!(c.indices[72], 2 + 48);
    assert_eq!(c.indices[107], 22 + 48);
}

#[test]
fn zero_width_grid_is_empty() {
    let mut c = Chunk::new(0, 16, 1);
    c.load_cubes(Vec3 { x: 0, y: 0, z: 0 });
    assert_eq!(c.cube_count, 0);
    assert_eq!(c.vertices.len(), 0);
    assert_eq!(c.indices.len(), 0);
}

#[test]
fn zero_depth_grid_is_empty() {
    let mut c = Chunk::new(16, 0, 1);
    c.load_cubes(Vec3 { x: 0, y: 0, z: 0 });
    assert_eq!(c.cube_count, 0);
    assert_eq!(c.vertices.len(), 0);
    assert_eq!(c.indices.len(), 0);
}

#[test]
fn overfilling_reports_capacity_exceeded() {
    let mut c = Chunk::new(1, 1, 1);
    assert_eq!(c.load_cube(&Vec3 { x: 0, y: 0, z: 0 }), Ok(()));
    assert_eq!(c.cube_count, 1);
    let before = c.vertices.len();
    assert_eq!(
        c.load_cube(&Vec3 { x: SCALE, y: 0, z: 0 }),
        Err(ChunkError::CapacityExceeded),
    );
    assert_eq!(c.cube_count, 1);
    assert_eq!(c.vertices.len(), before);
}

#[test]
fn flatten_interleaves_position_and_texture() {
    let mut c = Chunk::new(1, 1, 1);
    c.load_cubes(Vec3 { x: 2 * SCALE, y: 0, z: 0 });
    let flat = c.flatten();
    assert_eq!(flat.len(), 120);
    // vertex 0: position (2, 0, 0), uv (0, 0)
    assert_eq!(&flat[0..5], &[2 * SCALE, 0, 0, 0, 0]);
    // vertex 1: position (3, 0, 0), uv (1, 0)
    assert_eq!(&flat[5..10], &[3 * SCALE, 0, 0, SCALE, 0]);
    // vertex 2: position (3, 1, 0), uv (1, 1)
    assert_eq!(&flat[10..15], &[3 * SCALE, SCALE, 0, SCALE, SCALE]);
}
