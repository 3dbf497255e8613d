//! Integer block positions and the six faces of a block.

use vstd::prelude::*;

verus! {

/// The bound on the absolute horizontal coordinate of a block position that the
/// library handles; within it every neighbour and offset used by the logic fits.
pub const HORIZONTAL_LIMIT: i32 = 0x4000_0000;

/// An absolute block position.
#[derive(Clone, Copy, Debug, PartialEq, Eq, Structural)]
pub struct BlockPos {
    pub x: i32,
    pub y: i32,
    pub z: i32,
}

impl BlockPos {
    pub fn new(x: i32, y: i32, z: i32) -> (r: BlockPos)
        ensures
            r == (BlockPos { x, y, z }),
    {
        BlockPos { x, y, z }
    }

    /// Whether the position lies within the handled coordinates, with room for the
    /// offsets that the generators add.
    pub open spec fn in_range(&self) -> bool {
        -HORIZONTAL_LIMIT <= self.x <= HORIZONTAL_LIMIT && -HORIZONTAL_LIMIT <= self.z
            <= HORIZONTAL_LIMIT && -HORIZONTAL_LIMIT <= self.y <= HORIZONTAL_LIMIT
    }

    /// Whether the position lies within a few chunks of the handled coordinates.
    pub open spec fn near_range(&self) -> bool {
        -HORIZONTAL_LIMIT - 64 <= self.x <= HORIZONTAL_LIMIT + 64 && -HORIZONTAL_LIMIT - 64
            <= self.z <= HORIZONTAL_LIMIT + 64 && -HORIZONTAL_LIMIT - 64 <= self.y
            <= HORIZONTAL_LIMIT + 64
    }

    /// The position moved by the given amounts.
    pub open spec fn spec_offset(&self, dx: int, dy: int, dz: int) -> BlockPos {
        BlockPos { x: (self.x + dx) as i32, y: (self.y + dy) as i32, z: (self.z + dz) as i32 }
    }

    pub fn offset(&self, dx: i32, dy: i32, dz: i32) -> (r: BlockPos)
        requires
            i32::MIN <= self.x + dx <= i32::MAX,
            i32::MIN <= self.y + dy <= i32::MAX,
            i32::MIN <= self.z + dz <= i32::MAX,
        ensures
            r == self.spec_offset(dx as int, dy as int, dz as int),
            r.x == self.x + dx,
            r.y == self.y + dy,
            r.z == self.z + dz,
    {
        BlockPos { x: self.x + dx, y: self.y + dy, z: self.z + dz }
    }
}

/// A face of a block, named by the axis and the direction it points to.
#[derive(Clone, Copy, Debug, PartialEq, Eq, Structural)]
pub enum Face {
    NegY,
    PosY,
    NegZ,
    PosZ,
    NegX,
    PosX,
}

impl Face {
    /// The unit offset toward the neighbour behind this face.
    pub open spec fn spec_delta(&self) -> (int, int, int) {
        match self {
            Face::NegY => (0, -1, 0),
            Face::PosY => (0, 1, 0),
            Face::NegZ => (0, 0, -1),
            Face::PosZ => (0, 0, 1),
            Face::NegX => (-1, 0, 0),
            Face::PosX => (1, 0, 0),
        }
    }

    pub fn delta(&self) -> (r: (i32, i32, i32))
        ensures
            (r.0 as int, r.1 as int, r.2 as int) == self.spec_delta(),
            -1 <= r.0 <= 1,
            -1 <= r.1 <= 1,
            -1 <= r.2 <= 1,
    {
        match self {
            Face::NegY => (0, -1, 0),
            Face::PosY => (0, 1, 0),
            Face::NegZ => (0, 0, -1),
            Face::PosZ => (0, 0, 1),
            Face::NegX => (-1, 0, 0),
            Face::PosX => (1, 0, 0),
        }
    }

    /// The four horizontal faces, in the legacy order.
    pub fn horizontal() -> (r: Vec<Face>)
        ensures
            r@ == seq![Face::NegZ, Face::PosZ, Face::NegX, Face::PosX],
    {
        vec![Face::NegZ, Face::PosZ, Face::NegX, Face::PosX]
    }
}

} // verus!
