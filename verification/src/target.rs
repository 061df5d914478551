//! Target resolution: which of the things that a ray meets is the nearest.
//!
//! The host casts the ray, against the block grid and against the volumes of
//! the objects in the chunks around the player, and reports what it met with
//! distances in millionths of a block. The choice among those is made here.

use vstd::prelude::*;
use crate::breaking::BlockBreakingEvent;
use crate::config::{BlockId, Held, ObjectId, PlayerId};
use crate::grid::{BlockFace, BlockPosition};

verus! {

/// The first block that the ray meets.
#[derive(Clone, Copy, Debug, PartialEq, Eq, Structural)]
pub struct BlockHit {
    pub position: BlockPosition,
    pub block: BlockId,
    /// The face through which the ray enters the block.
    pub face: BlockFace,
    pub distance: u64,
}

/// The block that an object stands for.
#[derive(Clone, Copy, Debug, PartialEq, Eq, Structural)]
pub struct BlockTag {
    pub position: BlockPosition,
    pub block: BlockId,
}

/// An object whose volume the ray meets.
#[derive(Clone, Copy, Debug, PartialEq, Eq, Structural)]
pub struct ObjectHit {
    pub object: ObjectId,
    pub distance: u64,
    /// The block that the object is attached to, if any.
    pub tag: Option<BlockTag>,
    /// Whether the object collects the players who interact with it.
    pub sink: bool,
}

/// What a player does with the ray: the primary action breaks, the secondary
/// action interacts or places.
#[derive(Clone, Copy, Debug, PartialEq, Eq, Structural)]
pub enum Action {
    Primary,
    Secondary,
}

/// The outcome of a ray cast.
#[derive(Clone, Copy, Debug, PartialEq, Eq, Structural)]
pub enum HitResult {
    Miss,
    Block(BlockHit),
    Object(ObjectHit),
}

/// Whether an object is a candidate for `action` within `reach`. Breaking
/// aims at blocks, so only objects that stand for a block count for the
/// primary action.
pub open spec fn eligible(hit: ObjectHit, reach: u64, action: Action) -> bool {
    hit.distance <= reach && (action == Action::Primary ==> hit.tag is Some)
}

/// The nearest candidate among the first `count` objects; of several at the
/// same distance, the first.
pub open spec fn nearest_upto(objects: Seq<ObjectHit>, reach: u64, action: Action, count: nat) -> Option<
    ObjectHit,
>
    decreases count,
{
    if count == 0 {
        None
    } else {
        let before = nearest_upto(objects, reach, action, (count - 1) as nat);
        let next = objects[count - 1];
        if eligible(next, reach, action) && (before matches Some(b) ==> next.distance
            < b.distance) {
            Some(next)
        } else {
            before
        }
    }
}

/// Whether the object wins against the block. At equal distances the block
/// wins for the primary action and the object for the secondary action.
pub open spec fn object_first(object: ObjectHit, block: BlockHit, action: Action) -> bool {
    match action {
        Action::Primary => object.distance < block.distance,
        Action::Secondary => object.distance <= block.distance,
    }
}

/// The target of a ray: the nearer of the block hit and the nearest object,
/// each counted only within `reach`.
pub open spec fn resolved(
    block: Option<BlockHit>,
    objects: Seq<ObjectHit>,
    reach: u64,
    action: Action,
) -> HitResult {
    let object = nearest_upto(objects, reach, action, objects.len());
    let block = match block {
        Some(b) => if b.distance <= reach {
            Some(b)
        } else {
            None
        },
        None => None,
    };
    match (block, object) {
        (Some(b), Some(o)) => if object_first(o, b, action) {
            HitResult::Object(o)
        } else {
            HitResult::Block(b)
        },
        (Some(b), None) => HitResult::Block(b),
        (None, Some(o)) => HitResult::Object(o),
        (None, None) => HitResult::Miss,
    }
}

impl HitResult {
    /// The distance of the target, if there is one.
    pub open spec fn distance(self) -> Option<u64> {
        match self {
            HitResult::Miss => None,
            HitResult::Block(b) => Some(b.distance),
            HitResult::Object(o) => Some(o.distance),
        }
    }
}

/// The nearest candidate is a candidate, no candidate is nearer, and none of
/// those before it in the list is as near.
pub proof fn lemma_nearest(objects: Seq<ObjectHit>, reach: u64, action: Action, count: nat)
    requires
        count <= objects.len(),
    ensures
        nearest_upto(objects, reach, action, count) is None <==> forall|i: int|
            0 <= i < count ==> !eligible(#[trigger] objects[i], reach, action),
        nearest_upto(objects, reach, action, count) matches Some(n) ==> {
            &&& eligible(n, reach, action)
            &&& exists|i: int|
                0 <= i < count && #[trigger] objects[i] == n && forall|j: int|
                    0 <= j < i && eligible(#[trigger] objects[j], reach, action)
                        ==> objects[j].distance > n.distance
            &&& forall|i: int|
                0 <= i < count && eligible(#[trigger] objects[i], reach, action) ==> n.distance
                    <= objects[i].distance
        },
    decreases count,
{
    if count > 0 {
        let less = (count - 1) as nat;
        lemma_nearest(objects, reach, action, less);
        let before = nearest_upto(objects, reach, action, less);
        let after = nearest_upto(objects, reach, action, count);
        let next = objects[count - 1];
        if after is Some {
            let n = after->0;
            if eligible(next, reach, action) && (before matches Some(b) ==> next.distance
                < b.distance) {
                assert(objects[count - 1] == n);
                assert forall|j: int|
                    0 <= j < count - 1 && eligible(
                        #[trigger] objects[j],
                        reach,
                        action,
                    ) implies objects[j].distance > n.distance by {
                    assert(before is Some);
                }
            } else {
                assert(before == Some(n));
                let i = choose|i: int|
                    0 <= i < less && #[trigger] objects[i] == n && forall|j: int|
                        0 <= j < i && eligible(#[trigger] objects[j], reach, action)
                            ==> objects[j].distance > n.distance;
                assert(0 <= i < count && objects[i] == n);
            }
        }
    }
}

/// The resolved target is the globally nearest candidate: there is none
/// exactly when nothing lies within reach, and nothing within reach is
/// nearer than it.
pub proof fn law_resolved_is_nearest(
    block: Option<BlockHit>,
    objects: Seq<ObjectHit>,
    reach: u64,
    action: Action,
)
    ensures
        resolved(block, objects, reach, action) is Miss <==> (block matches Some(b) ==> b.distance
            > reach) && forall|i: int|
            0 <= i < objects.len() ==> !eligible(#[trigger] objects[i], reach, action),
        resolved(block, objects, reach, action).distance() matches Some(d) ==> {
            &&& d <= reach
            &&& block matches Some(b) ==> d <= b.distance
            &&& forall|i: int|
                0 <= i < objects.len() && eligible(#[trigger] objects[i], reach, action) ==> d
                    <= objects[i].distance
        },
        resolved(block, objects, reach, action) matches HitResult::Block(b) ==> block == Some(b),
        resolved(block, objects, reach, action) matches HitResult::Object(o) ==> objects.contains(
            o,
        ) && eligible(o, reach, action),
{
    lemma_nearest(objects, reach, action, objects.len());
}

/// Picks the nearest candidate among `objects`.
pub fn nearest_object(objects: &Vec<ObjectHit>, reach: u64, action: Action) -> (r: Option<
    ObjectHit,
>)
    ensures
        r == nearest_upto(objects@, reach, action, objects@.len()),
{
    let mut best: Option<ObjectHit> = None;
    let mut index: usize = 0;
    while index < objects.len()
        invariant
            index <= objects@.len(),
            best == nearest_upto(objects@, reach, action, index as nat),
        decreases objects@.len() - index,
    {
        let next: ObjectHit = objects[index];
        let counts: bool = next.distance <= reach && match action {
            Action::Primary => next.tag.is_some(),
            Action::Secondary => true,
        };
        if counts {
            match best {
                Some(b) => {
                    if next.distance < b.distance {
                        best = Some(next);
                    }
                },
                None => {
                    best = Some(next);
                },
            }
        }
        index = index + 1;
    }
    best
}

/// Resolves the target of a ray from what the host's ray casts met.
pub fn resolve(block: Option<BlockHit>, objects: &Vec<ObjectHit>, reach: u64, action: Action) -> (r:
    HitResult)
    ensures
        r == resolved(block, objects@, reach, action),
{
    let object = nearest_object(objects, reach, action);
    let block = match block {
        Some(b) => if b.distance <= reach {
            Some(b)
        } else {
            None
        },
        None => None,
    };
    match (block, object) {
        (Some(b), Some(o)) => {
            let object_wins: bool = match action {
                Action::Primary => o.distance < b.distance,
                Action::Secondary => o.distance <= b.distance,
            };
            if object_wins {
                HitResult::Object(o)
            } else {
                HitResult::Block(b)
            }
        },
        (Some(b), None) => HitResult::Block(b),
        (None, Some(o)) => HitResult::Object(o),
        (None, None) => HitResult::Miss,
    }
}

/// A primary action with what the host's ray casts met for it.
#[derive(Clone, Debug)]
pub struct PrimaryClick {
    pub player: PlayerId,
    /// What the player holds in the hand.
    pub held: Held,
    pub block_hit: Option<BlockHit>,
    /// The objects that the ray meets, in the order in which the host found
    /// them in the chunks around the player.
    pub objects: Vec<ObjectHit>,
}

/// The block that a primary action aims at.
pub open spec fn aimed_at(target: HitResult) -> Option<BlockTag> {
    match target {
        HitResult::Miss => None,
        HitResult::Block(b) => Some(BlockTag { position: b.position, block: b.block }),
        HitResult::Object(o) => o.tag,
    }
}

/// The breaking event that a primary action causes, if it reaches a block.
pub open spec fn hit_of(click: PrimaryClick, reach: u64) -> Option<BlockBreakingEvent> {
    match aimed_at(resolved(click.block_hit, click.objects@, reach, Action::Primary)) {
        Some(tag) => Some(
            BlockBreakingEvent {
                player: click.player,
                position: tag.position,
                block: tag.block,
                held: click.held,
            },
        ),
        None => None,
    }
}

/// The breaking events of the first `count` clicks, in order.
pub open spec fn hits_upto(clicks: Seq<PrimaryClick>, reach: u64, count: nat) -> Seq<
    BlockBreakingEvent,
>
    decreases count,
{
    if count == 0 {
        Seq::empty()
    } else {
        let before = hits_upto(clicks, reach, (count - 1) as nat);
        match hit_of(clicks[count - 1], reach) {
            Some(event) => before.push(event),
            None => before,
        }
    }
}

/// Turns one primary action into the breaking event it causes.
pub fn handle_left_click(click: &PrimaryClick, reach: u64) -> (r: Option<BlockBreakingEvent>)
    ensures
        r == hit_of(*click, reach),
{
    let tag: Option<BlockTag> = match resolve(
        click.block_hit,
        &click.objects,
        reach,
        Action::Primary,
    ) {
        HitResult::Miss => None,
        HitResult::Block(b) => Some(BlockTag { position: b.position, block: b.block }),
        HitResult::Object(o) => o.tag,
    };
    match tag {
        Some(t) => Some(
            BlockBreakingEvent {
                player: click.player,
                position: t.position,
                block: t.block,
                held: click.held,
            },
        ),
        None => None,
    }
}

/// Turns the primary actions of a tick into breaking events, in order.
/// Actions that reach nothing within `reach` cause none.
pub fn handle_left_clicks(clicks: &Vec<PrimaryClick>, reach: u64) -> (r: Vec<BlockBreakingEvent>)
    ensures
        r@ == hits_upto(clicks@, reach, clicks@.len()),
        r@.len() <= clicks@.len(),
{
    let mut events: Vec<BlockBreakingEvent> = Vec::new();
    let mut index: usize = 0;
    while index < clicks.len()
        invariant
            index <= clicks@.len(),
            events@ == hits_upto(clicks@, reach, index as nat),
            events@.len() <= index,
        decreases clicks@.len() - index,
    {
        if let Some(event) = handle_left_click(&clicks[index], reach) {
            events.push(event);
        }
        index = index + 1;
    }
    events
}

} // verus!
