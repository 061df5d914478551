//! The orientation of a newly placed block.

use vstd::prelude::*;
use crate::config::Placement;
use crate::grid::{BlockFace, BlockPosition, Rotation};

verus! {

/// The rotation that turns a block towards a player who stands `dx` blocks
/// along x and `dz` blocks along z from it. The axis of the larger distance
/// decides, x where both are equal. Towards positive z a block keeps its
/// unrotated state, for which no orientation is recorded.
pub open spec fn facing(dx: int, dz: int) -> Option<Rotation> {
    let ax = if dx < 0 {
        -dx
    } else {
        dx
    };
    let az = if dz < 0 {
        -dz
    } else {
        dz
    };
    if ax >= az {
        if dx > 0 {
            Some(Rotation::Once)
        } else {
            Some(Rotation::Thrice)
        }
    } else {
        if dz > 0 {
            None
        } else {
            Some(Rotation::Twice)
        }
    }
}

/// The orientation of a block with the given placement rules, placed by a
/// click on `face` of the block at `target` by a player who stands at
/// `player`.
///
/// Only a rotatable block, or one with a side transform that is attached to
/// a side, gets an orientation. Hung from a ceiling or stood on a floor
/// where its rules allow that, it turns towards the player; attached to a
/// side, it takes the rotation of that side where its rules ask for it.
pub open spec fn orientation(
    placement: Placement,
    face: BlockFace,
    player: BlockPosition,
    target: BlockPosition,
) -> Option<Rotation> {
    if placement.rotatable || (placement.side_transform && face.lateral()) {
        if (face == BlockFace::Bottom && placement.ceiling) || (face == BlockFace::Top
            && placement.floor) {
            facing(player.x - target.x, player.z - target.z)
        } else if face.lateral() && placement.sides {
            face.rotation()
        } else {
            None
        }
    } else {
        None
    }
}

/// Computes the rotation that turns a block towards the player.
pub fn face_player(player: BlockPosition, target: BlockPosition) -> (r: Option<Rotation>)
    ensures
        r == facing(player.x - target.x, player.z - target.z),
{
    let dx: i64 = player.x as i64 - target.x as i64;
    let dz: i64 = player.z as i64 - target.z as i64;
    let ax: i64 = if dx < 0 {
        -dx
    } else {
        dx
    };
    let az: i64 = if dz < 0 {
        -dz
    } else {
        dz
    };
    if ax >= az {
        if dx > 0 {
            Some(Rotation::Once)
        } else {
            Some(Rotation::Thrice)
        }
    } else {
        if dz > 0 {
            None
        } else {
            Some(Rotation::Twice)
        }
    }
}

/// Computes the orientation of a newly placed block.
pub fn placement_orientation(
    placement: &Placement,
    face: BlockFace,
    player: BlockPosition,
    target: BlockPosition,
) -> (r: Option<Rotation>)
    ensures
        r == orientation(*placement, face, player, target),
{
    let lateral: bool = face.is_lateral();
    if placement.rotatable || (placement.side_transform && lateral) {
        let hangs: bool = match face {
            BlockFace::Bottom => placement.ceiling,
            _ => false,
        };
        let stands: bool = match face {
            BlockFace::Top => placement.floor,
            _ => false,
        };
        if hangs || stands {
            face_player(player, target)
        } else if lateral && placement.sides {
            face.to_rotation()
        } else {
            None
        }
    } else {
        None
    }
}

/// A block that is neither rotatable nor allowed on ceilings or floors gets
/// no orientation from a click on a top face.
pub proof fn law_plain_block_unoriented(
    placement: Placement,
    player: BlockPosition,
    target: BlockPosition,
)
    requires
        !placement.rotatable,
        !placement.ceiling,
        !placement.floor,
    ensures
        orientation(placement, BlockFace::Top, player, target) is None,
{
}

/// A side-oriented block that is attached to a side takes the rotation of
/// that side.
pub proof fn law_side_block_takes_face(
    placement: Placement,
    face: BlockFace,
    player: BlockPosition,
    target: BlockPosition,
)
    requires
        placement.rotatable || placement.side_transform,
        placement.sides,
        face.lateral(),
    ensures
        orientation(placement, face, player, target) == face.rotation(),
        orientation(placement, face, player, target) is Some,
{
}

/// A block that turns towards the player gets one of three rotations, or
/// keeps its unrotated state where the player stands farther along positive
/// z than along x.
pub proof fn law_facing(dx: int, dz: int)
    ensures
        facing(dx, dz) is None <==> dz > 0 && dz > dx && dz > -dx,
        facing(dx, dz) != Some(Rotation::Zero),
{
}

} // verus!
