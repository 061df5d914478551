//! The secondary action: interact with what the ray meets, or use and place
//! the item in hand.

use vstd::prelude::*;
use crate::config::{BlockId, Blocks, Command, ItemConfig, Items, ObjectId, Placement, PlayerId};
use crate::grid::BlockPosition;
use crate::inventory::ItemStack;
use crate::placement::{orientation, placement_orientation};
use crate::target::{resolve, resolved, Action, BlockHit, HitResult, ObjectHit};

verus! {

/// The players who interacted with an object, in the order in which they
/// did, until the owner of the object reads them.
#[derive(Debug, Default)]
pub struct HandInteractions {
    player_entities: Vec<PlayerId>,
}

impl View for HandInteractions {
    type V = Seq<PlayerId>;

    closed spec fn view(&self) -> Seq<PlayerId> {
        self.player_entities@
    }
}

impl HandInteractions {
    /// A queue without players.
    pub fn new() -> (r: Self)
        ensures
            r@ == Seq::<PlayerId>::empty(),
    {
        HandInteractions { player_entities: Vec::new() }
    }

    /// Takes the players out of the queue, first come first.
    pub fn read(&mut self) -> (r: Vec<PlayerId>)
        ensures
            r@ == old(self)@,
            final(self)@ == Seq::<PlayerId>::empty(),
    {
        let mut taken: Vec<PlayerId> = Vec::new();
        core::mem::swap(&mut self.player_entities, &mut taken);
        taken
    }

    /// Appends a player to the queue.
    pub fn push(&mut self, player_entity: PlayerId)
        ensures
            final(self)@ == old(self)@.push(player_entity),
    {
        self.player_entities.push(player_entity);
    }
}

/// The object that belongs to a block, such as the store of a chest.
#[derive(Clone, Copy, Debug, PartialEq, Eq, Structural)]
pub struct BlockEntity {
    pub object: ObjectId,
    /// Whether the object collects the players who interact with it.
    pub sink: bool,
}

/// A secondary action with what the host read from the world for it.
#[derive(Clone, Debug)]
pub struct SecondaryClick {
    pub player: PlayerId,
    /// The block in which the player stands.
    pub player_position: BlockPosition,
    pub block_hit: Option<BlockHit>,
    /// The objects whose bounding volumes the ray meets, in the order in
    /// which the host found them in the chunks around the player.
    pub objects: Vec<ObjectHit>,
    /// The object that belongs to the block that was hit, if any.
    pub block_entity: Option<BlockEntity>,
    /// The block across the face that was hit, if that position is loaded.
    pub neighbor: Option<BlockId>,
}

/// What a secondary action leads to: commands for the host, and the stack
/// that is left in the player's hand.
pub struct Response {
    pub commands: Seq<Command>,
    pub stack: ItemStack,
}

/// The position where a block placed against `hit` goes: that of the block
/// hit where it is replaceable, else the position across the face hit,
/// where the block there is replaceable. `None` where neither is.
pub open spec fn destination(hit: BlockHit, neighbor: Option<BlockId>, blocks: Blocks) -> Option<
    BlockPosition,
> {
    if blocks.replaceable(hit.block) {
        Some(hit.position)
    } else {
        match (hit.position.shifted(hit.face), neighbor) {
            (Some(next), Some(there)) => if blocks.replaceable(there) {
                Some(next)
            } else {
                None
            },
            _ => None,
        }
    }
}

/// The block that the item of `config` places, where the table knows it.
pub open spec fn placed_by(config: Option<ItemConfig>, blocks: Blocks) -> Option<BlockId> {
    match config {
        Some(c) => match c.block {
            Some(b) => if blocks.knows(b) {
                Some(b)
            } else {
                None
            },
            None => None,
        },
        None => None,
    }
}

/// The notice to the use handler of the item of `config`, if it has one.
pub open spec fn use_notice(config: Option<ItemConfig>, player: PlayerId, hit: BlockHit) -> Seq<
    Command,
> {
    match config {
        Some(c) => match c.use_handler {
            Some(handler) => seq![
                Command::NotifyUse { handler, player, block: hit.block, position: hit.position },
            ],
            None => Seq::empty(),
        },
        None => Seq::empty(),
    }
}

/// The effect of using the item in hand on the block that was hit: the use
/// handler of the item is told, and where the item places a block and there
/// is room for it, one item is used up and the block is placed.
pub open spec fn used(
    click: SecondaryClick,
    hit: BlockHit,
    stack: ItemStack,
    blocks: Blocks,
    items: Items,
) -> Response {
    if stack.empty() {
        Response { commands: Seq::empty(), stack }
    } else {
        let config = items.config(stack.item->0);
        let notice = use_notice(config, click.player, hit);
        match (destination(hit, click.neighbor, blocks), placed_by(config, blocks)) {
            (Some(position), Some(block)) => Response {
                commands: notice.push(
                    Command::SetBlock {
                        position,
                        block,
                        orientation: orientation(
                            blocks.configs@[block as int].placement,
                            hit.face,
                            click.player_position,
                            hit.position,
                        ),
                    },
                ),
                stack: stack.without(1),
            },
            _ => Response { commands: notice, stack },
        }
    }
}

/// The effect of a secondary action by a player with `stack` in hand.
///
/// An object that the ray meets no farther away than the block takes the
/// action: the player joins its queue if it has one, and nothing else
/// happens. Else the action goes to the block that was hit: to the queue of
/// its block entity if that has one, and otherwise to the item in hand.
pub open spec fn interacted(
    click: SecondaryClick,
    stack: ItemStack,
    blocks: Blocks,
    items: Items,
    reach: u64,
) -> Response {
    match resolved(click.block_hit, click.objects@, reach, Action::Secondary) {
        HitResult::Miss => Response { commands: Seq::empty(), stack },
        HitResult::Object(o) => Response {
            commands: if o.sink {
                seq![Command::Enqueue { sink: o.object, player: click.player }]
            } else {
                Seq::empty()
            },
            stack,
        },
        HitResult::Block(hit) => match click.block_entity {
            Some(entity) => if entity.sink {
                Response {
                    commands: seq![Command::Enqueue { sink: entity.object, player: click.player }],
                    stack,
                }
            } else {
                used(click, hit, stack, blocks, items)
            },
            None => used(click, hit, stack, blocks, items),
        },
    }
}

/// Finds the position where a block placed against `hit` goes.
pub fn placement_position(hit: &BlockHit, neighbor: Option<BlockId>, blocks: &Blocks) -> (r: Option<
    BlockPosition,
>)
    ensures
        r == destination(*hit, neighbor, *blocks),
{
    if blocks.is_replaceable(hit.block) {
        Some(hit.position)
    } else {
        match (hit.face.shift_position(hit.position), neighbor) {
            (Some(next), Some(there)) => if blocks.is_replaceable(there) {
                Some(next)
            } else {
                None
            },
            _ => None,
        }
    }
}

fn use_item(
    click: &SecondaryClick,
    hit: &BlockHit,
    stack: &mut ItemStack,
    blocks: &Blocks,
    items: &Items,
) -> (commands: Vec<Command>)
    ensures
        commands@ == used(*click, *hit, *old(stack), *blocks, *items).commands,
        *final(stack) == used(*click, *hit, *old(stack), *blocks, *items).stack,
{
    let mut commands: Vec<Command> = Vec::new();
    let item = match stack.held() {
        crate::config::Held::Item(item) => item,
        _ => {
            return commands;
        },
    };
    let config: Option<ItemConfig> = items.get(item);
    let mut places: Option<BlockId> = None;
    if let Some(c) = config {
        if let Some(handler) = c.use_handler {
            commands.push(
                Command::NotifyUse {
                    handler,
                    player: click.player,
                    block: hit.block,
                    position: hit.position,
                },
            );
        }
        places = c.block;
    }
    let position = match placement_position(hit, click.neighbor, blocks) {
        Some(p) => p,
        None => {
            return commands;
        },
    };
    let block: BlockId = match places {
        Some(b) => b,
        None => {
            return commands;
        },
    };
    let placement: Placement = match blocks.get(block) {
        Some(c) => c.placement,
        None => {
            return commands;
        },
    };
    stack.subtract(1);
    commands.push(
        Command::SetBlock {
            position,
            block,
            orientation: placement_orientation(
                &placement,
                hit.face,
                click.player_position,
                hit.position,
            ),
        },
    );
    commands
}

/// Decides one secondary action of a player with `stack` in hand. Returns
/// the commands for the host; `stack` loses the item that was used up.
pub fn handle_right_click(
    click: &SecondaryClick,
    stack: &mut ItemStack,
    blocks: &Blocks,
    items: &Items,
    reach: u64,
) -> (commands: Vec<Command>)
    ensures
        commands@ == interacted(*click, *old(stack), *blocks, *items, reach).commands,
        *final(stack) == interacted(*click, *old(stack), *blocks, *items, reach).stack,
{
    match resolve(click.block_hit, &click.objects, reach, Action::Secondary) {
        HitResult::Miss => Vec::new(),
        HitResult::Object(o) => {
            let mut commands: Vec<Command> = Vec::new();
            if o.sink {
                commands.push(Command::Enqueue { sink: o.object, player: click.player });
            }
            commands
        },
        HitResult::Block(hit) => {
            if let Some(entity) = click.block_entity {
                if entity.sink {
                    let mut commands: Vec<Command> = Vec::new();
                    commands.push(Command::Enqueue { sink: entity.object, player: click.player });
                    return commands;
                }
            }
            use_item(click, &hit, stack, blocks, items)
        },
    }
}

/// The stack that a player has in hand.
#[derive(Clone, Copy, Debug, PartialEq, Eq, Structural)]
pub struct Hand {
    pub player: PlayerId,
    pub stack: ItemStack,
}

/// The index of the first hand at or after `from` that belongs to `player`.
pub open spec fn hand_of(hands: Seq<Hand>, player: PlayerId, from: int) -> Option<int>
    decreases hands.len() - from,
{
    if from < 0 || from >= hands.len() {
        None
    } else if hands[from].player == player {
        Some(from)
    } else {
        hand_of(hands, player, from + 1)
    }
}

/// What the secondary actions of a tick lead to: commands for the host, and
/// what is left in the players' hands.
pub struct Round {
    pub commands: Seq<Command>,
    pub hands: Seq<Hand>,
}

/// The effect of the first `count` secondary actions, in order. The action
/// of a player without a hand in `hands` is dropped.
pub open spec fn interacted_all(
    clicks: Seq<SecondaryClick>,
    hands: Seq<Hand>,
    count: nat,
    blocks: Blocks,
    items: Items,
    reach: u64,
) -> Round
    decreases count,
{
    if count == 0 {
        Round { commands: Seq::empty(), hands }
    } else {
        let before = interacted_all(clicks, hands, (count - 1) as nat, blocks, items, reach);
        let click = clicks[count - 1];
        match hand_of(before.hands, click.player, 0) {
            Some(slot) => {
                let response = interacted(click, before.hands[slot].stack, blocks, items, reach);
                Round {
                    commands: before.commands + response.commands,
                    hands: before.hands.update(
                        slot,
                        Hand { player: click.player, stack: response.stack },
                    ),
                }
            },
            None => before,
        }
    }
}

fn find_hand(hands: &Vec<Hand>, player: PlayerId) -> (r: Option<usize>)
    ensures
        match r {
            Some(slot) => hand_of(hands@, player, 0) == Some(slot as int) && slot < hands@.len(),
            None => hand_of(hands@, player, 0) is None,
        },
{
    let mut index: usize = 0;
    while index < hands.len()
        invariant
            index <= hands@.len(),
            hand_of(hands@, player, 0) == hand_of(hands@, player, index as int),
        decreases hands@.len() - index,
    {
        if hands[index].player == player {
            return Some(index);
        }
        index = index + 1;
    }
    None
}

/// Decides the secondary actions of a tick, in order. Each player acts with
/// the stack that `hands` holds for them, which loses what was used up; the
/// action of a player without a hand is dropped.
pub fn handle_right_clicks(
    clicks: &Vec<SecondaryClick>,
    hands: &mut Vec<Hand>,
    blocks: &Blocks,
    items: &Items,
    reach: u64,
) -> (commands: Vec<Command>)
    ensures
        commands@ == interacted_all(
            clicks@,
            old(hands)@,
            clicks@.len(),
            *blocks,
            *items,
            reach,
        ).commands,
        final(hands)@ == interacted_all(
            clicks@,
            old(hands)@,
            clicks@.len(),
            *blocks,
            *items,
            reach,
        ).hands,
        final(hands)@.len() == old(hands)@.len(),
{
    let mut commands: Vec<Command> = Vec::new();
    let mut index: usize = 0;
    while index < clicks.len()
        invariant
            index <= clicks@.len(),
            hands@.len() == old(hands)@.len(),
            commands@ == interacted_all(
                clicks@,
                old(hands)@,
                index as nat,
                *blocks,
                *items,
                reach,
            ).commands,
            hands@ == interacted_all(
                clicks@,
                old(hands)@,
                index as nat,
                *blocks,
                *items,
                reach,
            ).hands,
        decreases clicks@.len() - index,
    {
        let click = &clicks[index];
        if let Some(slot) = find_hand(hands, click.player) {
            let mut stack: ItemStack = hands[slot].stack;
            let mut step = handle_right_click(click, &mut stack, blocks, items, reach);
            commands.append(&mut step);
            hands.set(slot, Hand { player: click.player, stack });
        }
        index = index + 1;
    }
    commands
}

} // verus!
