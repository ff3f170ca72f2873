use voxels::coords::{IVec3, UVec3, CHUNK_VOLUME};
use voxels::voxel_data::voxel_shapes;
use voxels::voxel_data::VoxelShape;
use voxels::voxel_scene::VoxelScene;

fn all() -> VoxelShape {
    VoxelShape::new(voxel_shapes::ALL)
}

fn empty() -> VoxelShape {
    VoxelShape::new(voxel_shapes::EMPTY)
}

/// Only local voxel (0, 0, 0) of each chunk is solid.
fn single_voxel_rows(n: usize) -> Vec<Vec<bool>> {
    (0..n)
        .map(|_| (0..CHUNK_VOLUME).map(|i| i == 0).collect())
        .collect()
}

#[test]
fn new_scene_has_no_chunks() {
    let scene = VoxelScene::new();
    assert!(scene.chunk_positions().is_empty());
    assert!(scene.chunk_at(&IVec3::new(0, 0, 0)).is_none());
    assert!(scene.voxel_at(&IVec3::new(-5, 3, 2)).is_none());
}

#[test]
fn allocation_builds_empty_chunks_in_queue_order() {
    let mut scene = VoxelScene::new();
    scene.initialize_chunk(&IVec3::new(0, 0, 0));
    scene.initialize_chunk(&IVec3::new(-1, 0, 2));
    assert!(scene.chunk_positions().is_empty());
    scene.allocate_queued_chunks();
    assert_eq!(
        scene.chunk_positions(),
        vec![IVec3::new(0, 0, 0), IVec3::new(-1, 0, 2)]
    );
    let chunk = scene.chunk_at(&IVec3::new(-3, 7, 16)).unwrap();
    assert_eq!(chunk.position(), IVec3::new(-1, 0, 2));
    assert_eq!(chunk.mesh().vertices.len(), 0);
    assert_eq!(scene.voxel_at(&IVec3::new(-3, 7, 16)).unwrap().shape, empty());
    assert!(scene.chunk_at(&IVec3::new(8, 0, 0)).is_none());
}

#[test]
fn duplicate_queue_entries_give_one_chunk() {
    let mut scene = VoxelScene::new();
    scene.initialize_chunk(&IVec3::new(1, 1, 1));
    scene.initialize_chunk(&IVec3::new(2, 1, 1));
    scene.initialize_chunk(&IVec3::new(1, 1, 1));
    scene.allocate_queued_chunks();
    assert_eq!(
        scene.chunk_positions(),
        vec![IVec3::new(1, 1, 1), IVec3::new(2, 1, 1)]
    );
}

#[test]
fn requeued_chunk_is_replaced_by_an_empty_one() {
    let mut scene = VoxelScene::new();
    scene.initialize_chunk(&IVec3::new(0, 0, 0));
    scene.allocate_queued_chunks();
    scene.fill_and_mesh(&single_voxel_rows(1));
    assert_eq!(scene.voxel_at(&IVec3::new(0, 0, 0)).unwrap().shape, all());
    scene.initialize_chunk(&IVec3::new(0, 0, 0));
    scene.allocate_queued_chunks();
    assert_eq!(scene.chunk_positions().len(), 1);
    assert_eq!(scene.voxel_at(&IVec3::new(0, 0, 0)).unwrap().shape, empty());
}

#[test]
fn volume_is_queued_x_then_y_then_z() {
    let mut scene = VoxelScene::new();
    scene.initialize_volume(&UVec3::new(2, 1, 2));
    scene.allocate_queued_chunks();
    assert_eq!(
        scene.chunk_positions(),
        vec![
            IVec3::new(0, 0, 0),
            IVec3::new(0, 0, 1),
            IVec3::new(1, 0, 0),
            IVec3::new(1, 0, 1)
        ]
    );
}

#[test]
fn fill_and_mesh_meshes_every_chunk() {
    let mut scene = VoxelScene::new();
    scene.initialize_volume(&UVec3::new(1, 1, 3));
    scene.allocate_queued_chunks();
    scene.fill_and_mesh(&single_voxel_rows(3));
    for z in 0..3 {
        let p = IVec3::new(0, 0, 8 * z);
        assert_eq!(scene.voxel_at(&p).unwrap().shape, all());
        assert_eq!(scene.chunk_at(&p).unwrap().mesh().vertices.len(), 24);
        assert_eq!(scene.chunk_at(&p).unwrap().mesh().indices.len(), 36);
    }
}

#[test]
fn merged_chunks_are_offset_by_chunk_size() {
    let mut scene = VoxelScene::new();
    scene.initialize_chunk(&IVec3::new(0, 0, 0));
    scene.initialize_chunk(&IVec3::new(1, 0, 0));
    scene.allocate_queued_chunks();
    scene.fill_and_mesh(&single_voxel_rows(2));
    let merged = scene.combined_mesh().unwrap();
    assert_eq!(merged.vertices.len(), 48);
    assert_eq!(merged.indices.len(), 72);
    for j in 0..24 {
        let a = merged.vertices[j].position;
        let b = merged.vertices[24 + j].position;
        assert_eq!(b.x - a.x, 8);
        assert_eq!((b.y, b.z), (a.y, a.z));
    }
    assert!(merged.indices.iter().all(|&i| (i as usize) < merged.vertices.len()));
    assert_eq!(&merged.indices[36..42], &[24, 26, 25, 25, 26, 27]);
}

#[test]
fn merged_negative_chunk_moves_left() {
    let mut scene = VoxelScene::new();
    scene.initialize_chunk(&IVec3::new(-1, -2, 0));
    scene.allocate_queued_chunks();
    scene.fill_and_mesh(&single_voxel_rows(1));
    let merged = scene.combined_mesh().unwrap();
    assert_eq!(merged.vertices[0].position, IVec3::new(-7, -16, 1));
}

#[test]
fn same_queue_and_classification_give_same_grids() {
    let build = || {
        let mut scene = VoxelScene::new();
        scene.initialize_volume(&UVec3::new(2, 2, 1));
        scene.allocate_queued_chunks();
        let rows: Vec<Vec<bool>> = scene
            .chunk_positions()
            .iter()
            .map(|c| {
                (0..CHUNK_VOLUME)
                    .map(|i| {
                        let y = c.y * 8 + ((i / 8) % 8) as i32;
                        let x = c.x * 8 + (i / 64) as i32;
                        (x + y) % 5 < 2
                    })
                    .collect()
            })
            .collect();
        scene.fill_and_mesh(&rows);
        scene
    };
    let (a, b) = (build(), build());
    for x in 0..16 {
        for y in 0..16 {
            for z in 0..8 {
                let p = IVec3::new(x, y, z);
                assert_eq!(a.voxel_at(&p).unwrap().shape, b.voxel_at(&p).unwrap().shape);
            }
        }
    }
    let (ma, mb) = (a.combined_mesh().unwrap(), b.combined_mesh().unwrap());
    assert_eq!(ma.vertices, mb.vertices);
    assert_eq!(ma.indices, mb.indices);
}

#[test]
fn scene_voxel_writes_reach_the_chunk() {
    let mut scene = VoxelScene::new();
    scene.initialize_chunk(&IVec3::new(-1, 0, 0));
    scene.allocate_queued_chunks();
    scene.voxel_at_mut(&IVec3::new(-1, 2, 3)).unwrap().shape = all();
    let chunk = scene.chunk_at(&IVec3::new(-8, 0, 0)).unwrap();
    assert_eq!(chunk.voxel_at(&UVec3::new(7, 2, 3)).shape, all());
    assert!(scene.voxel_at_mut(&IVec3::new(0, 0, 0)).is_none());
    let chunk = scene.chunk_at_mut(&IVec3::new(-2, 1, 1)).unwrap();
    chunk.set_voxel_shape(&UVec3::new(6, 1, 1), all());
    chunk.generate_mesh();
    // Two isolated solid voxels: local (7, 2, 3) and (6, 1, 1).
    assert_eq!(scene.chunk_at(&IVec3::new(-2, 1, 1)).unwrap().mesh().vertices.len(), 48);
}
