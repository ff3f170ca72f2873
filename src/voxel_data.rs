use vstd::prelude::*;

pub mod voxel_shapes;

verus! {

/// Occupancy of a voxel's eight octants, one bit per octant.
#[derive(Copy, Clone, PartialEq, Eq, Structural, Debug, Hash, Default)]
pub struct VoxelShape {
    /// One bit per octant, laid out as in `voxel_shapes`.
    pub data: u8,
}

impl VoxelShape {
    /// The shape with the given octant bits.
    pub fn new(data: u8) -> (r: VoxelShape)
        ensures
            r.data == data,
    {
        VoxelShape { data }
    }

    pub open spec fn spec_contains(self, shape: VoxelShape) -> bool {
        self.data & shape.data == shape.data
    }

    pub open spec fn spec_overlaps(self, shape: VoxelShape) -> bool {
        self.data & shape.data != 0
    }

    pub open spec fn spec_append(self, shape: VoxelShape) -> VoxelShape {
        VoxelShape { data: self.data | shape.data }
    }

    pub open spec fn spec_mask(self, shape: VoxelShape) -> VoxelShape {
        VoxelShape { data: self.data & shape.data }
    }

    /// Every octant of `shape` is occupied in `self`.
    pub fn contains(&self, shape: VoxelShape) -> (r: bool)
        ensures
            r == self.spec_contains(shape),
    {
        self.data & shape.data == shape.data
    }

    /// At least one octant is occupied in both shapes.
    pub fn overlaps(&self, shape: VoxelShape) -> (r: bool)
        ensures
            r == self.spec_overlaps(shape),
    {
        self.data & shape.data > 0
    }

    /// No octant is occupied in both shapes.
    pub fn available(&self, shape: VoxelShape) -> (r: bool)
        ensures
            r == (self.data & shape.data == 0),
            r == !self.spec_overlaps(shape),
    {
        self.data & shape.data == 0
    }

    /// The union of both shapes.
    pub fn append(self, shape: VoxelShape) -> (r: VoxelShape)
        ensures
            r == self.spec_append(shape),
    {
        VoxelShape { data: self.data | shape.data }
    }

    /// The intersection of both shapes.
    pub fn mask(self, shape: VoxelShape) -> (r: VoxelShape)
        ensures
            r == self.spec_mask(shape),
    {
        VoxelShape { data: self.data & shape.data }
    }
}

/// The union of two shapes contains the second one.
pub proof fn lemma_append_contains(a: VoxelShape, b: VoxelShape)
    ensures
        a.spec_append(b).spec_contains(b),
{
    let (x, y) = (a.data, b.data);
    assert((x | y) & y == y) by (bit_vector);
}

/// The intersection of two shapes overlaps the second one exactly when the two
/// shapes share an octant.
pub proof fn lemma_mask_overlaps(a: VoxelShape, b: VoxelShape)
    ensures
        a.spec_mask(b).spec_overlaps(b) == a.spec_overlaps(b),
{
    let (x, y) = (a.data, b.data);
    assert(((x & y) & y != 0) == (x & y != 0)) by (bit_vector);
}

/// The empty shape overlaps nothing.
pub proof fn lemma_empty_overlaps_nothing(x: VoxelShape)
    ensures
        !(VoxelShape { data: voxel_shapes::EMPTY }).spec_overlaps(x),
{
    let y = x.data;
    assert(0u8 & y == 0) by (bit_vector);
}

/// The state of one voxel.
#[derive(Copy, Clone, PartialEq, Eq, Structural, Debug)]
pub struct VoxelData {
    pub shape: VoxelShape,
}

} // verus!
