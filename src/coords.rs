use vstd::arithmetic::div_mod::lemma_fundamental_div_mod_converse;
use vstd::prelude::*;

verus! {

/// Edge length of a chunk, in voxels.
pub const CHUNK_SIZE: u32 = 8;

/// Number of voxels in a chunk.
pub const CHUNK_VOLUME: usize = 512;

/// A signed integer position: a world position, a chunk coordinate or an offset.
#[derive(Copy, Clone, PartialEq, Eq, Structural, Debug, Hash)]
pub struct IVec3 {
    pub x: i32,
    pub y: i32,
    pub z: i32,
}

/// An unsigned integer position, used for positions inside a chunk.
#[derive(Copy, Clone, PartialEq, Eq, Structural, Debug, Hash)]
pub struct UVec3 {
    pub x: u32,
    pub y: u32,
    pub z: u32,
}

impl IVec3 {
    pub fn new(x: i32, y: i32, z: i32) -> (r: IVec3)
        ensures
            r == (IVec3 { x, y, z }),
    {
        IVec3 { x, y, z }
    }
}

impl UVec3 {
    pub fn new(x: u32, y: u32, z: u32) -> (r: UVec3)
        ensures
            r == (UVec3 { x, y, z }),
    {
        UVec3 { x, y, z }
    }

    /// The position lies inside a chunk.
    pub open spec fn in_chunk(self) -> bool {
        self.x < CHUNK_SIZE && self.y < CHUNK_SIZE && self.z < CHUNK_SIZE
    }
}

/// Floor division of one world axis by the chunk size.
pub open spec fn floor_div(a: int) -> int {
    a / (CHUNK_SIZE as int)
}

/// Position along one axis inside its chunk, in `[0, CHUNK_SIZE)`.
pub open spec fn floor_mod(a: int) -> int {
    a % (CHUNK_SIZE as int)
}

/// The coordinate of the chunk that holds world position `p`.
pub open spec fn spec_chunk_coord_of(p: IVec3) -> IVec3 {
    IVec3 {
        x: floor_div(p.x as int) as i32,
        y: floor_div(p.y as int) as i32,
        z: floor_div(p.z as int) as i32,
    }
}

/// The position of world position `p` inside its chunk.
pub open spec fn spec_local_coord_of(p: IVec3) -> UVec3 {
    UVec3 {
        x: floor_mod(p.x as int) as u32,
        y: floor_mod(p.y as int) as u32,
        z: floor_mod(p.z as int) as u32,
    }
}

/// World position of the local position `l` of chunk `c`, on one axis.
pub open spec fn world_axis(c: i32, l: u32) -> int {
    c as int * (CHUNK_SIZE as int) + l as int
}

/// A chunk coordinate whose whole extent, far faces included, has i32 world coordinates.
pub open spec fn axis_in_range(c: i32) -> bool {
    i32::MIN <= c as int * (CHUNK_SIZE as int) && c as int * (CHUNK_SIZE as int) + (
    CHUNK_SIZE as int) <= i32::MAX
}

pub open spec fn chunk_in_range(c: IVec3) -> bool {
    axis_in_range(c.x) && axis_in_range(c.y) && axis_in_range(c.z)
}

/// The chunk coordinate that holds world position `p`, by floor division, so that
/// negative positions fall into negative chunks.
pub fn chunk_coord_of(p: &IVec3) -> (r: IVec3)
    ensures
        r == spec_chunk_coord_of(*p),
{
    let d = CHUNK_SIZE as i32;
    let x = match p.x.checked_div_euclid(d) {
        Some(v) => v,
        None => 0,
    };
    let y = match p.y.checked_div_euclid(d) {
        Some(v) => v,
        None => 0,
    };
    let z = match p.z.checked_div_euclid(d) {
        Some(v) => v,
        None => 0,
    };
    IVec3 { x, y, z }
}

/// The position of world position `p` inside its chunk.
pub fn local_coord_of(p: &IVec3) -> (r: UVec3)
    ensures
        r == spec_local_coord_of(*p),
        r.in_chunk(),
{
    let d = CHUNK_SIZE as i32;
    let x = match p.x.checked_rem_euclid(d) {
        Some(v) => v,
        None => 0,
    };
    let y = match p.y.checked_rem_euclid(d) {
        Some(v) => v,
        None => 0,
    };
    let z = match p.z.checked_rem_euclid(d) {
        Some(v) => v,
        None => 0,
    };
    UVec3 { x: x as u32, y: y as u32, z: z as u32 }
}

/// The world position of local position `local` in chunk `chunk`.
pub fn world_position(chunk: &IVec3, local: &UVec3) -> (r: IVec3)
    requires
        local.in_chunk(),
        i32::MIN <= world_axis(chunk.x, local.x) <= i32::MAX,
        i32::MIN <= world_axis(chunk.y, local.y) <= i32::MAX,
        i32::MIN <= world_axis(chunk.z, local.z) <= i32::MAX,
    ensures
        r.x == world_axis(chunk.x, local.x),
        r.y == world_axis(chunk.y, local.y),
        r.z == world_axis(chunk.z, local.z),
{
    let d = CHUNK_SIZE as i32;
    IVec3 {
        x: chunk.x * d + local.x as i32,
        y: chunk.y * d + local.y as i32,
        z: chunk.z * d + local.z as i32,
    }
}

proof fn lemma_axis_round_trip(a: i32)
    ensures
        0 <= floor_mod(a as int) < CHUNK_SIZE,
        i32::MIN <= floor_div(a as int) <= i32::MAX,
        floor_div(a as int) * (CHUNK_SIZE as int) + floor_mod(a as int) == a,
{
    let d = CHUNK_SIZE as int;
    vstd::arithmetic::div_mod::lemma_fundamental_div_mod(a as int, d);
    vstd::arithmetic::div_mod::lemma_div_pos_is_pos(a as int + 2147483648, d);
    assert(floor_div(a as int) >= i32::MIN) by {
        vstd::arithmetic::div_mod::lemma_div_is_ordered(i32::MIN as int, a as int, d);
    }
    assert(floor_div(a as int) <= i32::MAX) by {
        vstd::arithmetic::div_mod::lemma_div_is_ordered(a as int, i32::MAX as int, d);
    }
}

/// Splitting a world position into its chunk coordinate and its local position, then
/// joining them again, gives back the same position, negative positions included.
pub proof fn lemma_chunk_local_round_trip(p: IVec3)
    ensures
        spec_local_coord_of(p).in_chunk(),
        world_axis(spec_chunk_coord_of(p).x, spec_local_coord_of(p).x) == p.x,
        world_axis(spec_chunk_coord_of(p).y, spec_local_coord_of(p).y) == p.y,
        world_axis(spec_chunk_coord_of(p).z, spec_local_coord_of(p).z) == p.z,
{
    lemma_axis_round_trip(p.x);
    lemma_axis_round_trip(p.y);
    lemma_axis_round_trip(p.z);
}

/// Joining a chunk coordinate and a local position into a world position, then
/// splitting it again, gives back the same chunk coordinate and local position.
pub proof fn lemma_world_chunk_local_round_trip(c: IVec3, l: UVec3)
    requires
        chunk_in_range(c),
        l.in_chunk(),
    ensures
        ({
            let w = IVec3 {
                x: world_axis(c.x, l.x) as i32,
                y: world_axis(c.y, l.y) as i32,
                z: world_axis(c.z, l.z) as i32,
            };
            spec_chunk_coord_of(w) == c && spec_local_coord_of(w) == l
        }),
{
    let d = CHUNK_SIZE as int;
    let (wx, wy, wz) = (world_axis(c.x, l.x), world_axis(c.y, l.y), world_axis(c.z, l.z));
    lemma_fundamental_div_mod_converse(wx, d, c.x as int, l.x as int);
    lemma_fundamental_div_mod_converse(wy, d, c.y as int, l.y as int);
    lemma_fundamental_div_mod_converse(wz, d, c.z as int, l.z as int);
}

} // verus!
