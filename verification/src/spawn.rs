//! The search for a place where a player can appear: two free blocks, one
//! above the other.

use vstd::prelude::*;
use crate::config::BlockId;
use crate::grid::BlockPosition;

verus! {

/// How a search through one chunk ended.
#[derive(Clone, Copy, Debug, PartialEq, Eq, Structural)]
pub enum SpawnSearch {
    /// The player can appear at this position.
    Found(BlockPosition),
    /// The chunk has no room; the search goes on in this chunk, the one above.
    Above(BlockPosition),
    /// The chunk has no room and none lies above it.
    Exhausted,
}

/// The number of blocks of `blocks` that lie in whole columns of sixteen.
pub open spec fn in_columns(blocks: Seq<BlockId>) -> int {
    16 * ((blocks.len() as int) / 16)
}

/// Whether the block at `index` and the block below it in its column are
/// both air. Blocks are stored column by column, bottom first.
pub open spec fn air_pair(blocks: Seq<BlockId>, air: BlockId, index: int) -> bool {
    &&& 0 < index < in_columns(blocks)
    &&& index % 16 != 0
    &&& blocks[index - 1] == air
    &&& blocks[index] == air
}

/// The first index at or after `from` at which two blocks of air meet.
pub open spec fn first_pair(blocks: Seq<BlockId>, air: BlockId, from: int) -> Option<int>
    decreases in_columns(blocks) - from,
{
    if from < 0 || from >= in_columns(blocks) {
        None
    } else if air_pair(blocks, air, from) {
        Some(from)
    } else {
        first_pair(blocks, air, from + 1)
    }
}

/// The block below the one at `index` of the chunk at `chunk`. The index
/// counts x in steps of 256, z in steps of 16 and y in steps of one.
pub open spec fn below(chunk: BlockPosition, index: int) -> Option<BlockPosition> {
    chunk.offset(index / 256, index % 16 - 1, (index / 16) % 16)
}

/// The outcome of the search through the chunk at `chunk`.
///
/// A chunk of nothing but air, stored as one block, has room at its corner.
/// Else the first two blocks of air on top of each other give the place,
/// the lower of the two. Without such a pair the search moves up one chunk.
pub open spec fn searched(chunk: BlockPosition, blocks: Seq<BlockId>, air: BlockId) -> SpawnSearch {
    let found = if blocks.len() == 1 && blocks[0] == air {
        Some(chunk)
    } else {
        match first_pair(blocks, air, 0) {
            Some(index) => below(chunk, index),
            None => None,
        }
    };
    match found {
        Some(position) => SpawnSearch::Found(position),
        None => match chunk.offset(0, 16, 0) {
            Some(above) => SpawnSearch::Above(above),
            None => SpawnSearch::Exhausted,
        },
    }
}

/// The first pair of air blocks is one, and there is none before it.
pub proof fn law_first_pair(blocks: Seq<BlockId>, air: BlockId, from: int)
    requires
        0 <= from,
    ensures
        match first_pair(blocks, air, from) {
            Some(index) => from <= index && air_pair(blocks, air, index) && forall|i: int|
                from <= i < index ==> !air_pair(blocks, air, i),
            None => forall|i: int| from <= i ==> !air_pair(blocks, air, i),
        },
    decreases in_columns(blocks) - from,
{
    if from < in_columns(blocks) && !air_pair(blocks, air, from) {
        law_first_pair(blocks, air, from + 1);
    }
}

fn position_below(chunk: BlockPosition, index: usize) -> (r: Option<BlockPosition>)
    ensures
        r == below(chunk, index as int),
{
    let x: i64 = chunk.x as i64 + (index / 256) as i64;
    let y: i64 = chunk.y as i64 + (index % 16) as i64 - 1;
    let z: i64 = chunk.z as i64 + ((index / 16) % 16) as i64;
    if -2147483648 <= x && x <= 2147483647 && -2147483648 <= y && y <= 2147483647 && -2147483648
        <= z && z <= 2147483647 {
        Some(BlockPosition { x: x as i32, y: y as i32, z: z as i32 })
    } else {
        None
    }
}

/// Searches the chunk at `chunk`, whose blocks are `blocks`, for a place
/// where a player can appear.
pub fn find_spawn(chunk: BlockPosition, blocks: &Vec<BlockId>, air: BlockId) -> (r: SpawnSearch)
    ensures
        r == searched(chunk, blocks@, air),
{
    let mut found: Option<BlockPosition> = None;
    if blocks.len() == 1 && blocks[0] == air {
        found = Some(chunk);
    } else {
        let limit: usize = 16 * (blocks.len() / 16);
        let mut index: usize = 0;
        let mut pair: Option<usize> = None;
        while index < limit
            invariant_except_break
                pair is None,
                first_pair(blocks@, air, 0) == first_pair(blocks@, air, index as int),
            invariant
                limit == in_columns(blocks@),
                limit <= blocks@.len(),
                index <= limit,
            ensures
                match pair {
                    Some(i) => first_pair(blocks@, air, 0) == Some(i as int),
                    None => first_pair(blocks@, air, 0) is None,
                },
            decreases limit - index,
        {
            if index % 16 != 0 && blocks[index - 1] == air && blocks[index] == air {
                pair = Some(index);
                break;
            }
            index = index + 1;
        }
        if let Some(i) = pair {
            found = position_below(chunk, i);
        }
    }
    match found {
        Some(position) => SpawnSearch::Found(position),
        None => match chunk.y.checked_add(16) {
            Some(y) => SpawnSearch::Above(BlockPosition { x: chunk.x, y, z: chunk.z }),
            None => SpawnSearch::Exhausted,
        },
    }
}

} // verus!
