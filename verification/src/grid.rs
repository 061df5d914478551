//! Integer geometry of the block grid: positions, faces, rotations, chunks.

use vstd::prelude::*;

verus! {

/// Edge length of a chunk, in blocks.
pub const CHUNK_SIZE: i32 = 16;

/// Number of chunks in the cube of side three around a chunk.
pub const NEIGHBORHOOD: usize = 27;

/// Coordinate of one voxel cell.
#[derive(Clone, Copy, Debug, PartialEq, Eq, Hash, Structural)]
pub struct BlockPosition {
    pub x: i32,
    pub y: i32,
    pub z: i32,
}

/// One of the six faces of a block. `Right` and `Left` look along the x
/// axis, `Top` and `Bottom` along y, `Front` and `Back` along z.
#[derive(Clone, Copy, Debug, PartialEq, Eq, Structural)]
pub enum BlockFace {
    Front,
    Back,
    Right,
    Left,
    Top,
    Bottom,
}

/// Orientation of a placed block, in quarter turns about the vertical axis.
#[derive(Clone, Copy, Debug, PartialEq, Eq, Structural)]
pub enum Rotation {
    Zero,
    Once,
    Twice,
    Thrice,
}

/// Whether `v` fits a signed 32-bit coordinate.
pub open spec fn fits_coordinate(v: int) -> bool {
    i32::MIN <= v <= i32::MAX
}

/// The largest multiple of the chunk size that is not above `v`.
pub open spec fn chunk_floor(v: int) -> int {
    16 * (v / 16)
}

/// The step that the `k`-th offset of a neighborhood axis takes: one chunk up,
/// one chunk down, then none.
pub open spec fn axis_step(k: int) -> int {
    if k == 0 {
        16
    } else if k == 1 {
        -16
    } else {
        0
    }
}

impl BlockFace {
    /// Whether the face is one of the four vertical sides of a block.
    pub open spec fn lateral(self) -> bool {
        self != BlockFace::Top && self != BlockFace::Bottom
    }

    /// The unit step `(dx, dy, dz)` that leads out of a block through this face.
    pub open spec fn normal(self) -> (int, int, int) {
        match self {
            BlockFace::Front => (0, 0, 1),
            BlockFace::Back => (0, 0, -1),
            BlockFace::Right => (1, 0, 0),
            BlockFace::Left => (-1, 0, 0),
            BlockFace::Top => (0, 1, 0),
            BlockFace::Bottom => (0, -1, 0),
        }
    }

    /// The rotation that a lateral face maps to; `None` for top and bottom.
    pub open spec fn rotation(self) -> Option<Rotation> {
        match self {
            BlockFace::Front => Some(Rotation::Zero),
            BlockFace::Right => Some(Rotation::Once),
            BlockFace::Back => Some(Rotation::Twice),
            BlockFace::Left => Some(Rotation::Thrice),
            BlockFace::Top => None,
            BlockFace::Bottom => None,
        }
    }

    /// Tells the four sides from top and bottom.
    pub fn is_lateral(self) -> (r: bool)
        ensures
            r == self.lateral(),
    {
        match self {
            BlockFace::Top => false,
            BlockFace::Bottom => false,
            _ => true,
        }
    }

    /// Maps a lateral face to the rotation that turns a block towards it.
    pub fn to_rotation(self) -> (r: Option<Rotation>)
        ensures
            r == self.rotation(),
            r is Some <==> self.lateral(),
    {
        match self {
            BlockFace::Front => Some(Rotation::Zero),
            BlockFace::Right => Some(Rotation::Once),
            BlockFace::Back => Some(Rotation::Twice),
            BlockFace::Left => Some(Rotation::Thrice),
            BlockFace::Top => None,
            BlockFace::Bottom => None,
        }
    }

    /// The position next to `position` on the side of this face, unless it
    /// would leave the coordinate range.
    pub fn shift_position(self, position: BlockPosition) -> (r: Option<BlockPosition>)
        ensures
            r == position.shifted(self),
    {
        match self {
            BlockFace::Front => match position.z.checked_add(1) {
                Some(z) => Some(BlockPosition { x: position.x, y: position.y, z }),
                None => None,
            },
            BlockFace::Back => match position.z.checked_sub(1) {
                Some(z) => Some(BlockPosition { x: position.x, y: position.y, z }),
                None => None,
            },
            BlockFace::Right => match position.x.checked_add(1) {
                Some(x) => Some(BlockPosition { x, y: position.y, z: position.z }),
                None => None,
            },
            BlockFace::Left => match position.x.checked_sub(1) {
                Some(x) => Some(BlockPosition { x, y: position.y, z: position.z }),
                None => None,
            },
            BlockFace::Top => match position.y.checked_add(1) {
                Some(y) => Some(BlockPosition { x: position.x, y, z: position.z }),
                None => None,
            },
            BlockFace::Bottom => match position.y.checked_sub(1) {
                Some(y) => Some(BlockPosition { x: position.x, y, z: position.z }),
                None => None,
            },
        }
    }
}

impl BlockPosition {
    /// The position moved by `(dx, dy, dz)`, if all three coordinates stay in range.
    pub open spec fn offset(self, dx: int, dy: int, dz: int) -> Option<BlockPosition> {
        if fits_coordinate(self.x + dx) && fits_coordinate(self.y + dy) && fits_coordinate(
            self.z + dz,
        ) {
            Some(
                BlockPosition {
                    x: (self.x + dx) as i32,
                    y: (self.y + dy) as i32,
                    z: (self.z + dz) as i32,
                },
            )
        } else {
            None
        }
    }

    /// The neighbor across `face`.
    pub open spec fn shifted(self, face: BlockFace) -> Option<BlockPosition> {
        self.offset(face.normal().0, face.normal().1, face.normal().2)
    }

    /// The corner of the chunk that holds this position.
    pub open spec fn chunk(self) -> BlockPosition {
        BlockPosition {
            x: chunk_floor(self.x as int) as i32,
            y: chunk_floor(self.y as int) as i32,
            z: chunk_floor(self.z as int) as i32,
        }
    }

    /// Whether the position is the corner of a chunk.
    pub open spec fn is_chunk(self) -> bool {
        self.x % 16 == 0 && self.y % 16 == 0 && self.z % 16 == 0
    }

    /// The `index`-th member of the neighborhood of this chunk. The x offset
    /// changes slowest and the z offset fastest; each runs through one chunk
    /// up, one chunk down, none.
    pub open spec fn neighbor(self, index: int) -> Option<BlockPosition> {
        self.offset(axis_step(index / 9), axis_step((index / 3) % 3), axis_step(index % 3))
    }

    /// The first `count` members of the neighborhood that lie in the
    /// coordinate range, in order.
    pub open spec fn neighbors_upto(self, count: nat) -> Seq<BlockPosition>
        decreases count,
    {
        if count == 0 {
            Seq::empty()
        } else {
            let before = self.neighbors_upto((count - 1) as nat);
            match self.neighbor(count - 1) {
                Some(p) => before.push(p),
                None => before,
            }
        }
    }

    /// All chunks that touch this chunk, and the chunk itself.
    pub open spec fn neighborhood(self) -> Seq<BlockPosition> {
        self.neighbors_upto(27)
    }

    /// The corner of the chunk that holds this position.
    pub fn chunk_position(self) -> (r: BlockPosition)
        ensures
            r == self.chunk(),
            r.is_chunk(),
            r.x <= self.x < r.x + 16,
            r.y <= self.y < r.y + 16,
            r.z <= self.z < r.z + 16,
    {
        BlockPosition {
            x: align_to_chunk(self.x),
            y: align_to_chunk(self.y),
            z: align_to_chunk(self.z),
        }
    }

    /// The chunks to search for objects around this chunk: the 27 chunks of
    /// the cube of side three, without those outside the coordinate range.
    pub fn chunk_neighborhood(self) -> (r: Vec<BlockPosition>)
        ensures
            r@ == self.neighborhood(),
            r@.len() <= 27,
    {
        let mut out: Vec<BlockPosition> = Vec::new();
        let mut index: usize = 0;
        while index < NEIGHBORHOOD
            invariant
                index <= 27,
                out@ == self.neighbors_upto(index as nat),
                out@.len() <= index,
            decreases 27 - index,
        {
            let next = self.chunk_neighbor(index);
            if let Some(p) = next {
                out.push(p);
            }
            index = index + 1;
        }
        out
    }

    /// The `index`-th member of the neighborhood, if it lies in the
    /// coordinate range.
    pub fn chunk_neighbor(self, index: usize) -> (r: Option<BlockPosition>)
        requires
            index < 27,
        ensures
            r == self.neighbor(index as int),
    {
        let dx: i64 = step_of(index / 9);
        let dy: i64 = step_of((index / 3) % 3);
        let dz: i64 = step_of(index % 3);
        let x: i64 = self.x as i64 + dx;
        let y: i64 = self.y as i64 + dy;
        let z: i64 = self.z as i64 + dz;
        if in_range(x) && in_range(y) && in_range(z) {
            Some(BlockPosition { x: x as i32, y: y as i32, z: z as i32 })
        } else {
            None
        }
    }
}

/// Rounds one coordinate down to the chunk boundary below it.
pub fn align_to_chunk(v: i32) -> (r: i32)
    ensures
        r == chunk_floor(v as int),
        r <= v < r + 16,
        r % 16 == 0,
{
    let r: i32 = v & !15i32;
    assert(v & !15i32 == 16 * ((v as int) / 16)) by (bit_vector);
    r
}

fn step_of(k: usize) -> (r: i64)
    ensures
        r == axis_step(k as int),
{
    if k == 0 {
        16
    } else if k == 1 {
        -16
    } else {
        0
    }
}

fn in_range(v: i64) -> (r: bool)
    ensures
        r == fits_coordinate(v as int),
{
    -2147483648 <= v && v <= 2147483647
}

} // verus!
