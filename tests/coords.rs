use voxels::coords::{chunk_coord_of, local_coord_of, world_position, IVec3, UVec3, CHUNK_SIZE};

#[test]
fn floor_division_for_negative_positions() {
    assert_eq!(chunk_coord_of(&IVec3::new(-1, -8, -9)), IVec3::new(-1, -1, -2));
    assert_eq!(local_coord_of(&IVec3::new(-1, -8, -9)), UVec3::new(7, 0, 7));
    assert_eq!(chunk_coord_of(&IVec3::new(0, 7, 8)), IVec3::new(0, 0, 1));
    assert_eq!(local_coord_of(&IVec3::new(0, 7, 8)), UVec3::new(0, 7, 0));
}

#[test]
fn chunk_and_local_round_trip() {
    let samples = [
        IVec3::new(0, 0, 0),
        IVec3::new(-1, 5, 17),
        IVec3::new(-17, -64, 63),
        IVec3::new(i32::MIN, i32::MAX, -2),
        IVec3::new(1000, -1000, 9),
    ];
    for p in samples {
        let c = chunk_coord_of(&p);
        let l = local_coord_of(&p);
        assert!(l.x < CHUNK_SIZE && l.y < CHUNK_SIZE && l.z < CHUNK_SIZE);
        assert_eq!(world_position(&c, &l), p);
    }
}

#[test]
fn world_position_of_local_voxel() {
    let w = world_position(&IVec3::new(-2, 0, 3), &UVec3::new(1, 2, 7));
    assert_eq!(w, IVec3::new(-15, 2, 31));
}
