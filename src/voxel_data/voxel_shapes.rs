use vstd::prelude::*;

verus! {

// Octant bits of the named shapes, for `VoxelShape::new`. Bit layout, low to high:
// bottom-south-west, bottom-north-west, bottom-north-east, bottom-south-east, then the
// same four corners on top.

pub const EMPTY: u8 = 0b0000_0000;
pub const ALL: u8 = 0b1111_1111;

pub const BOTTOM_SOUTH_WEST: u8 = 0b0000_0001;
pub const BOTTOM_NORTH_WEST: u8 = 0b0000_0010;
pub const BOTTOM_NORTH_EAST: u8 = 0b0000_0100;
pub const BOTTOM_SOUTH_EAST: u8 = 0b0000_1000;

pub const TOP_SOUTH_WEST: u8 = 0b0001_0000;
pub const TOP_NORTH_WEST: u8 = 0b0010_0000;
pub const TOP_NORTH_EAST: u8 = 0b0100_0000;
pub const TOP_SOUTH_EAST: u8 = 0b1000_0000;

pub const BOTTOM_WEST: u8 = 0b0000_0011;
pub const BOTTOM_NORTH: u8 = 0b0000_0110;
pub const BOTTOM_EAST: u8 = 0b0000_1100;
pub const BOTTOM_SOUTH: u8 = 0b0000_1001;

pub const TOP_WEST: u8 = 0b0011_0000;
pub const TOP_NORTH: u8 = 0b0110_0000;
pub const TOP_EAST: u8 = 0b1100_0000;
pub const TOP_SOUTH: u8 = 0b1001_0000;

pub const WEST: u8 = 0b0011_0011;
pub const NORTH: u8 = 0b0110_0110;
pub const EAST: u8 = 0b1100_1100;
pub const SOUTH: u8 = 0b1001_1001;

pub const BOTTOM: u8 = 0b0000_1111;
pub const TOP: u8 = 0b1111_0000;

} // verus!
