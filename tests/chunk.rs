use voxels::coords::{IVec3, UVec3, CHUNK_SIZE, CHUNK_VOLUME};
use voxels::mesh::{TexCoord, Vertex};
use voxels::voxel_chunk::{voxel_world_positions, VoxelChunk};
use voxels::voxel_data::voxel_shapes;
use voxels::voxel_data::VoxelShape;

fn all() -> VoxelShape {
    VoxelShape::new(voxel_shapes::ALL)
}

#[test]
fn fresh_chunk_is_empty() {
    let chunk = VoxelChunk::new(IVec3::new(2, -3, 4));
    assert_eq!(chunk.position(), IVec3::new(2, -3, 4));
    for x in 0..CHUNK_SIZE {
        for y in 0..CHUNK_SIZE {
            for z in 0..CHUNK_SIZE {
                let v = chunk.voxel_at(&UVec3::new(x, y, z));
                assert_eq!(v.shape, VoxelShape::new(voxel_shapes::EMPTY));
            }
        }
    }
    assert_eq!(chunk.mesh().vertices.len(), 0);
    assert_eq!(chunk.mesh().indices.len(), 0);
}

#[test]
fn full_chunk_emits_only_boundary_faces() {
    let mut chunk = VoxelChunk::new(IVec3::new(0, 0, 0));
    chunk.fill_occupancy(&vec![true; CHUNK_VOLUME]);
    chunk.generate_mesh();
    assert_eq!(chunk.mesh().vertices.len(), 1536);
    assert_eq!(chunk.mesh().indices.len(), 2304);
}

#[test]
fn empty_chunk_emits_nothing() {
    let mut chunk = VoxelChunk::new(IVec3::new(0, 0, 0));
    chunk.fill_occupancy(&vec![false; CHUNK_VOLUME]);
    chunk.generate_mesh();
    assert_eq!(chunk.mesh().vertices.len(), 0);
    assert_eq!(chunk.mesh().indices.len(), 0);
}

#[test]
fn isolated_voxel_emits_six_quads() {
    let mut chunk = VoxelChunk::new(IVec3::new(0, 0, 0));
    chunk.set_voxel_shape(&UVec3::new(3, 3, 3), all());
    chunk.generate_mesh();
    let mesh = chunk.mesh();
    assert_eq!(mesh.vertices.len(), 24);
    assert_eq!(mesh.indices.len(), 36);
    assert_eq!(&mesh.indices[0..12], &[0, 2, 1, 1, 2, 3, 4, 6, 5, 5, 6, 7]);
    let north: Vec<IVec3> = mesh.vertices[0..4].iter().map(|v| v.position).collect();
    assert_eq!(
        north,
        vec![
            IVec3::new(4, 3, 4),
            IVec3::new(3, 3, 4),
            IVec3::new(4, 4, 4),
            IVec3::new(3, 4, 4)
        ]
    );
    assert_eq!(
        mesh.vertices[1],
        Vertex {
            position: IVec3::new(3, 3, 4),
            color: UVec3::new(1, 1, 1),
            normal: IVec3::new(0, 0, 1),
            uv: TexCoord { u: 1, v: 0 },
        }
    );
    let normals: Vec<IVec3> = mesh.vertices.iter().step_by(4).map(|v| v.normal).collect();
    assert_eq!(
        normals,
        vec![
            IVec3::new(0, 0, 1),
            IVec3::new(0, 0, -1),
            IVec3::new(1, 0, 0),
            IVec3::new(-1, 0, 0),
            IVec3::new(0, 1, 0),
            IVec3::new(0, -1, 0)
        ]
    );
    let bottom: Vec<IVec3> = mesh.vertices[20..24].iter().map(|v| v.position).collect();
    assert_eq!(
        bottom,
        vec![
            IVec3::new(3, 3, 4),
            IVec3::new(4, 3, 4),
            IVec3::new(3, 3, 3),
            IVec3::new(4, 3, 3)
        ]
    );
}

#[test]
fn voxel_at_corner_emits_six_quads() {
    let mut chunk = VoxelChunk::new(IVec3::new(-1, 0, 0));
    chunk.set_voxel_shape(&UVec3::new(7, 0, 7), all());
    chunk.generate_mesh();
    assert_eq!(chunk.mesh().vertices.len(), 24);
    assert_eq!(chunk.mesh().indices.len(), 36);
}

#[test]
fn adjacent_solid_voxels_hide_shared_faces() {
    let mut chunk = VoxelChunk::new(IVec3::new(0, 0, 0));
    chunk.set_voxel_shape(&UVec3::new(3, 3, 3), all());
    chunk.set_voxel_shape(&UVec3::new(3, 3, 4), all());
    chunk.generate_mesh();
    assert_eq!(chunk.mesh().vertices.len(), 40);
    assert_eq!(chunk.mesh().indices.len(), 60);
    assert!(chunk.mesh().indices.iter().all(|&i| (i as usize) < 40));
}

#[test]
fn partial_neighbour_hides_face_only_with_covering_octants() {
    let mut covered = VoxelChunk::new(IVec3::new(0, 0, 0));
    covered.set_voxel_shape(&UVec3::new(3, 3, 3), all());
    covered.set_voxel_shape(&UVec3::new(3, 3, 4), VoxelShape::new(voxel_shapes::SOUTH));
    covered.generate_mesh();
    assert_eq!(covered.mesh().vertices.len(), 40);

    let mut open = VoxelChunk::new(IVec3::new(0, 0, 0));
    open.set_voxel_shape(&UVec3::new(3, 3, 3), all());
    open.set_voxel_shape(&UVec3::new(3, 3, 4), VoxelShape::new(voxel_shapes::NORTH));
    open.generate_mesh();
    assert_eq!(open.mesh().vertices.len(), 44);
}

#[test]
fn regenerating_replaces_the_mesh() {
    let mut chunk = VoxelChunk::new(IVec3::new(0, 0, 0));
    chunk.set_voxel_shape(&UVec3::new(0, 0, 0), all());
    chunk.generate_mesh();
    chunk.generate_mesh();
    assert_eq!(chunk.mesh().vertices.len(), 24);
    chunk.set_voxel_shape(&UVec3::new(0, 0, 0), VoxelShape::new(voxel_shapes::EMPTY));
    chunk.generate_mesh();
    assert_eq!(chunk.mesh().vertices.len(), 0);
}

#[test]
fn scenespace_lookup_in_and_out_of_chunk() {
    let mut chunk = VoxelChunk::new(IVec3::new(-1, 2, 0));
    assert_eq!(chunk.scenespace_pos(), IVec3::new(-8, 16, 0));
    chunk.set_voxel_shape(&UVec3::new(7, 0, 5), all());
    let v = chunk.voxel_scenespace_at(&IVec3::new(-1, 16, 5)).unwrap();
    assert_eq!(v.shape, all());
    assert!(chunk.voxel_scenespace_at(&IVec3::new(0, 16, 5)).is_none());
    assert!(chunk.voxel_scenespace_at(&IVec3::new(-9, 16, 5)).is_none());
    assert!(chunk.voxel_scenespace_at(&IVec3::new(i32::MAX, i32::MIN, 0)).is_none());
    let w = chunk.voxel_scenespace_at_mut(&IVec3::new(-8, 23, 0)).unwrap();
    w.shape = VoxelShape::new(voxel_shapes::TOP);
    assert_eq!(chunk.voxel_at(&UVec3::new(0, 7, 0)).shape, VoxelShape::new(voxel_shapes::TOP));
    chunk.voxel_at_mut(&UVec3::new(1, 1, 1)).shape = all();
    assert_eq!(chunk.voxel_at(&UVec3::new(1, 1, 1)).shape, all());
}

#[test]
fn occupancy_fill_sets_all_or_empty() {
    let mut chunk = VoxelChunk::new(IVec3::new(0, 0, 0));
    let solid: Vec<bool> = (0..CHUNK_VOLUME).map(|i| i % 3 == 0).collect();
    chunk.fill_occupancy(&solid);
    // x outermost, z innermost: local (0, 0, 3) is entry 3, (1, 0, 0) is entry 64.
    assert_eq!(chunk.voxel_at(&UVec3::new(0, 0, 3)).shape, all());
    assert_eq!(chunk.voxel_at(&UVec3::new(0, 0, 1)).shape, VoxelShape::new(voxel_shapes::EMPTY));
    assert_eq!(chunk.voxel_at(&UVec3::new(1, 0, 0)).shape, VoxelShape::new(voxel_shapes::EMPTY));
    assert_eq!(chunk.voxel_at(&UVec3::new(1, 0, 2)).shape, all());
}

#[test]
fn world_positions_follow_voxel_order() {
    let positions = voxel_world_positions(&IVec3::new(-1, 2, 0));
    assert_eq!(positions.len(), CHUNK_VOLUME);
    assert_eq!(positions[0], IVec3::new(-8, 16, 0));
    assert_eq!(positions[1], IVec3::new(-8, 16, 1));
    assert_eq!(positions[8], IVec3::new(-8, 17, 0));
    assert_eq!(positions[64], IVec3::new(-7, 16, 0));
    assert_eq!(positions[511], IVec3::new(-1, 23, 7));
    let mut chunk = VoxelChunk::new(IVec3::new(-1, 2, 0));
    let solid: Vec<bool> = positions.iter().map(|p| p.x == -7 && p.z == 3).collect();
    chunk.fill_occupancy(&solid);
    let hit = chunk.voxel_scenespace_at(&IVec3::new(-7, 20, 3)).unwrap();
    assert_eq!(hit.shape, all());
    let miss = chunk.voxel_scenespace_at(&IVec3::new(-6, 20, 3)).unwrap();
    assert_eq!(miss.shape, VoxelShape::new(voxel_shapes::EMPTY));
}

#[test]
fn full_chunk_faces_lie_on_the_chunk_boundary() {
    let mut chunk = VoxelChunk::new(IVec3::new(3, -4, 5));
    chunk.fill_occupancy(&vec![true; CHUNK_VOLUME]);
    chunk.generate_mesh();
    let mesh = chunk.mesh();
    let mut per_normal = std::collections::HashMap::new();
    for quad in mesh.vertices.chunks(4) {
        let n = quad[0].normal;
        *per_normal.entry((n.x, n.y, n.z)).or_insert(0) += 1;
        for v in quad {
            let coord = |p: IVec3, axis: i32| if axis == 0 { p.x } else if axis == 1 { p.y } else { p.z };
            let (axis, sign) = if n.x != 0 { (0, n.x) } else if n.y != 0 { (1, n.y) } else { (2, n.z) };
            let expected = if sign > 0 { CHUNK_SIZE as i32 } else { 0 };
            assert_eq!(coord(v.position, axis), expected);
        }
    }
    assert_eq!(per_normal.len(), 6);
    assert!(per_normal.values().all(|&count| count == 64));
}
