//! What the rules read from block and item configuration, and the commands
//! they hand back to the host.

use vstd::prelude::*;
use crate::grid::{BlockPosition, Rotation};

verus! {

/// Identifies a block type: its index in the block table.
pub type BlockId = u16;

/// Identifies an item type: its index in the item table.
pub type ItemId = u32;

/// Handle of a player.
pub type PlayerId = u64;

/// Handle of an object in the world.
pub type ObjectId = u64;

/// Identifies a kind of tool, such as the one name that all pickaxes share.
pub type ToolKind = u32;

/// Tool efficiency is counted in thousandths; this is the factor one.
pub const BASE_EFFICIENCY: u32 = 1000;

/// What makes an item a tool.
#[derive(Clone, Copy, Debug, PartialEq, Eq, Structural)]
pub struct Tool {
    pub kind: ToolKind,
    /// Factor on the breaking rate, in thousandths.
    pub efficiency: u32,
}

/// The items that a broken block leaves behind.
#[derive(Clone, Copy, Debug, PartialEq, Eq, Structural)]
pub struct ItemDrop {
    pub item: ItemId,
    pub count: u32,
}

/// One row of a drop table: what a block drops when broken with a tool of
/// kind `tool`, or with no tool where `tool` is `None`.
#[derive(Clone, Copy, Debug, PartialEq, Eq, Structural)]
pub struct DropRule {
    pub tool: Option<ToolKind>,
    pub drop: ItemDrop,
}

/// How a block type may be oriented when it is placed.
#[derive(Clone, Copy, Debug, PartialEq, Eq, Structural)]
pub struct Placement {
    /// The block turns to face the player who places it.
    pub rotatable: bool,
    /// The block looks different when attached to the side of another block.
    pub side_transform: bool,
    /// The block may hang from the bottom face of another block.
    pub ceiling: bool,
    /// The block may stand on the top face of another block.
    pub floor: bool,
    /// The block takes its orientation from the side it is attached to.
    pub sides: bool,
}

/// What the rules read from the configuration of a block type.
#[derive(Clone, Debug)]
pub struct BlockConfig {
    /// Milliseconds that a bare hand needs to break the block; `None` marks
    /// a block that cannot be broken.
    pub hardness: Option<u32>,
    /// Whether another block may be placed in its stead.
    pub replaceable: bool,
    pub placement: Placement,
    /// The drop table; the first row for the tool at hand counts.
    pub drops: Vec<DropRule>,
}

/// What the rules read from the configuration of an item type.
#[derive(Clone, Copy, Debug, PartialEq, Eq, Structural)]
pub struct ItemConfig {
    pub tool: Option<Tool>,
    /// The block that the item places.
    pub block: Option<BlockId>,
    /// The object that is told when the item is used.
    pub use_handler: Option<ObjectId>,
}

/// The table of block types, indexed by `BlockId`.
#[derive(Clone, Debug)]
pub struct Blocks {
    pub configs: Vec<BlockConfig>,
    /// The block that takes the place of a broken one.
    pub empty: BlockId,
}

/// The table of item types, indexed by `ItemId`.
#[derive(Clone, Debug)]
pub struct Items {
    pub configs: Vec<ItemConfig>,
}

/// What a player holds in the hand, as far as the host could tell.
#[derive(Clone, Copy, Debug, PartialEq, Eq, Structural)]
pub enum Held {
    /// The player has no inventory, or no such slot in it.
    Unknown,
    /// The slot in hand is empty.
    Empty,
    /// The slot in hand holds at least one item of this type.
    Item(ItemId),
}

/// A change that the host applies to the world once the tick's events have
/// been decided.
#[derive(Clone, Copy, Debug, PartialEq, Eq, Structural)]
pub enum Command {
    /// Replace the block at `position`.
    SetBlock { position: BlockPosition, block: BlockId, orientation: Option<Rotation> },
    /// Put a stack of items on the ground at `position`.
    SpawnGroundItem { item: ItemId, count: u32, position: BlockPosition },
    /// Create the proxy that shows how far the block at `position` is
    /// broken; it starts hidden.
    SpawnProxy { position: BlockPosition },
    /// Make the proxy at `position` visible with the look of breaking stage
    /// `stage`.
    ShowStage { position: BlockPosition, stage: u8 },
    /// Remove the proxy at `position`.
    DespawnProxy { position: BlockPosition },
    /// Append `player` to the interaction queue of `sink`.
    Enqueue { sink: ObjectId, player: PlayerId },
    /// Tell `handler` that `player` used the item in hand on a block.
    NotifyUse { handler: ObjectId, player: PlayerId, block: BlockId, position: BlockPosition },
}

/// The first row at or after `from` that is keyed by `tool`.
pub open spec fn first_rule(rules: Seq<DropRule>, tool: Option<ToolKind>, from: int) -> Option<
    ItemDrop,
>
    decreases rules.len() - from,
{
    if from < 0 || from >= rules.len() {
        None
    } else if rules[from].tool == tool {
        Some(rules[from].drop)
    } else {
        first_rule(rules, tool, from + 1)
    }
}

/// The efficiency that a tool contributes: its own where that is positive,
/// else the factor one.
pub open spec fn efficiency_of(tool: Option<Tool>) -> int {
    match tool {
        Some(t) => if t.efficiency > 0 {
            t.efficiency as int
        } else {
            BASE_EFFICIENCY as int
        },
        None => BASE_EFFICIENCY as int,
    }
}

impl Blocks {
    /// Whether the table knows `block`.
    pub open spec fn knows(&self, block: BlockId) -> bool {
        (block as int) < self.configs@.len()
    }

    /// The breaking time of `block`; `None` where it is unbreakable or unknown.
    pub open spec fn hardness(&self, block: BlockId) -> Option<u32> {
        if self.knows(block) {
            self.configs@[block as int].hardness
        } else {
            None
        }
    }

    /// Whether `block` may be replaced by a placed block.
    pub open spec fn replaceable(&self, block: BlockId) -> bool {
        self.knows(block) && self.configs@[block as int].replaceable
    }

    /// What `block` drops when broken with `tool`.
    pub open spec fn drop_for(&self, block: BlockId, tool: Option<Tool>) -> Option<ItemDrop> {
        if self.knows(block) {
            first_rule(
                self.configs@[block as int].drops@,
                match tool {
                    Some(t) => Some(t.kind),
                    None => None,
                },
                0,
            )
        } else {
            None
        }
    }

    /// The configuration of `block`, if the table knows it.
    pub fn get(&self, block: BlockId) -> (r: Option<&BlockConfig>)
        ensures
            r is Some <==> self.knows(block),
            r matches Some(c) ==> *c == self.configs@[block as int],
    {
        let index: usize = block as usize;
        if index < self.configs.len() {
            Some(&self.configs[index])
        } else {
            None
        }
    }

    /// Looks up the breaking time of `block`.
    pub fn hardness_of(&self, block: BlockId) -> (r: Option<u32>)
        ensures
            r == self.hardness(block),
    {
        match self.get(block) {
            Some(config) => config.hardness,
            None => None,
        }
    }

    /// Tells whether a placed block may take the place of `block`.
    pub fn is_replaceable(&self, block: BlockId) -> (r: bool)
        ensures
            r == self.replaceable(block),
    {
        match self.get(block) {
            Some(config) => config.replaceable,
            None => false,
        }
    }

    /// Resolves the drop of `block` for the tool at hand.
    pub fn resolve_drop(&self, block: BlockId, tool: Option<Tool>) -> (r: Option<ItemDrop>)
        ensures
            r == self.drop_for(block, tool),
    {
        let key: Option<ToolKind> = match tool {
            Some(t) => Some(t.kind),
            None => None,
        };
        match self.get(block) {
            Some(config) => {
                let mut index: usize = 0;
                while index < config.drops.len()
                    invariant
                        index <= config.drops@.len(),
                        self.drop_for(block, tool) == first_rule(
                            config.drops@,
                            key,
                            index as int,
                        ),
                    decreases config.drops@.len() - index,
                {
                    let rule: DropRule = config.drops[index];
                    if rule.tool == key {
                        return Some(rule.drop);
                    }
                    index = index + 1;
                }
                None
            },
            None => None,
        }
    }
}

impl Items {
    /// The tool that `held` is, if it is one.
    pub open spec fn tool_of(&self, held: Held) -> Option<Tool> {
        match held {
            Held::Item(item) => if (item as int) < self.configs@.len() {
                self.configs@[item as int].tool
            } else {
                None
            },
            _ => None,
        }
    }

    /// The configuration of `item`, if the table knows it.
    pub open spec fn config(&self, item: ItemId) -> Option<ItemConfig> {
        if (item as int) < self.configs@.len() {
            Some(self.configs@[item as int])
        } else {
            None
        }
    }

    /// The configuration of `item`, if the table knows it.
    pub fn get(&self, item: ItemId) -> (r: Option<ItemConfig>)
        ensures
            r == self.config(item),
    {
        let index: usize = item as usize;
        if index < self.configs.len() {
            Some(self.configs[index])
        } else {
            None
        }
    }

    /// The tool in hand, if the held item is one.
    pub fn active_tool(&self, held: Held) -> (r: Option<Tool>)
        ensures
            r == self.tool_of(held),
    {
        match held {
            Held::Item(item) => match self.get(item) {
                Some(config) => config.tool,
                None => None,
            },
            _ => None,
        }
    }
}

/// The factor, in thousandths, by which `tool` speeds up breaking. A missing
/// tool, or one whose efficiency is not positive, counts as the factor one.
pub fn tool_efficiency(tool: Option<Tool>) -> (r: u32)
    ensures
        r == efficiency_of(tool),
        r > 0,
{
    match tool {
        Some(t) => if t.efficiency > 0 {
            t.efficiency
        } else {
            BASE_EFFICIENCY
        },
        None => BASE_EFFICIENCY,
    }
}

} // verus!
