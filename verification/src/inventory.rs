//! Item stacks and what a player carries.

use vstd::prelude::*;
use crate::config::{Held, ItemId};

verus! {

/// Number of slots of a player's inventory.
pub const INVENTORY_SLOTS: usize = 36;

/// A number of items of one type. A stack without a type, or of size zero,
/// is empty.
#[derive(Clone, Copy, Debug, PartialEq, Eq, Structural)]
pub struct ItemStack {
    pub item: Option<ItemId>,
    pub size: u32,
}

impl ItemStack {
    /// Whether the stack holds nothing.
    pub open spec fn empty(self) -> bool {
        self.item is None || self.size == 0
    }

    /// What a hand that holds this stack holds.
    pub open spec fn in_hand(self) -> Held {
        if self.empty() {
            Held::Empty
        } else {
            Held::Item(self.item->0)
        }
    }

    /// The stack with `amount` items taken away; it loses its type with its
    /// last item.
    pub open spec fn without(self, amount: u32) -> ItemStack {
        if self.empty() || amount >= self.size {
            ItemStack { item: None, size: 0 }
        } else {
            ItemStack { item: self.item, size: (self.size - amount) as u32 }
        }
    }

    /// A stack of `size` items of type `item`.
    pub fn new(item: ItemId, size: u32) -> (r: Self)
        ensures
            r == (ItemStack { item: Some(item), size }),
    {
        ItemStack { item: Some(item), size }
    }

    /// The stack that holds nothing.
    pub fn none() -> (r: Self)
        ensures
            r == (ItemStack { item: None, size: 0 }),
            r.empty(),
    {
        ItemStack { item: None, size: 0 }
    }

    /// Tells whether the stack holds nothing.
    pub fn is_empty(&self) -> (r: bool)
        ensures
            r == self.empty(),
    {
        self.item.is_none() || self.size == 0
    }

    /// Tells what a hand that holds this stack holds.
    pub fn held(&self) -> (r: Held)
        ensures
            r == self.in_hand(),
    {
        match self.item {
            Some(item) => if self.size == 0 {
                Held::Empty
            } else {
                Held::Item(item)
            },
            None => Held::Empty,
        }
    }

    /// Takes `amount` items from the stack, or all it has if those are fewer.
    pub fn subtract(&mut self, amount: u32)
        ensures
            *final(self) == old(self).without(amount),
    {
        if self.item.is_none() || amount >= self.size {
            self.item = None;
            self.size = 0;
        } else {
            self.size = self.size - amount;
        }
    }
}

/// The slots of a player's inventory.
#[derive(Clone, Debug)]
pub struct Inventory(pub Vec<ItemStack>);

impl Inventory {
    /// What the player holds when slot `equipped` is in hand; `Unknown`
    /// where the inventory has no such slot.
    pub open spec fn in_hand(self, equipped: EquippedItem) -> Held {
        if equipped.0 < self.0@.len() {
            self.0@[equipped.0 as int].in_hand()
        } else {
            Held::Unknown
        }
    }

    /// Tells what the player holds when slot `equipped` is in hand.
    pub fn held(&self, equipped: &EquippedItem) -> (r: Held)
        ensures
            r == self.in_hand(*equipped),
    {
        if equipped.0 < self.0.len() {
            self.0[equipped.0].held()
        } else {
            Held::Unknown
        }
    }

    /// The stack in slot `equipped`, if there is such a slot.
    pub fn stack(&self, equipped: &EquippedItem) -> (r: Option<ItemStack>)
        ensures
            r == if equipped.0 < self.0@.len() {
                Some(self.0@[equipped.0 as int])
            } else {
                None
            },
    {
        if equipped.0 < self.0.len() {
            Some(self.0[equipped.0])
        } else {
            None
        }
    }

    /// Puts `stack` into slot `equipped`. Without such a slot nothing changes.
    pub fn put(&mut self, equipped: &EquippedItem, stack: ItemStack)
        ensures
            final(self).0@ == if equipped.0 < old(self).0@.len() {
                old(self).0@.update(equipped.0 as int, stack)
            } else {
                old(self).0@
            },
    {
        if equipped.0 < self.0.len() {
            self.0.set(equipped.0, stack);
        }
    }
}

impl Default for Inventory {
    /// An inventory of 36 empty slots.
    fn default() -> (r: Self)
        ensures
            r.0@.len() == 36,
            forall|i: int| 0 <= i < 36 ==> #[trigger] r.0@[i] == (ItemStack { item: None, size: 0 }),
    {
        let mut slots: Vec<ItemStack> = Vec::new();
        let mut index: usize = 0;
        while index < INVENTORY_SLOTS
            invariant
                index <= 36,
                slots@.len() == index,
                forall|i: int|
                    0 <= i < index ==> #[trigger] slots@[i] == (ItemStack { item: None, size: 0 }),
            decreases 36 - index,
        {
            slots.push(ItemStack::none());
            index = index + 1;
        }
        Inventory(slots)
    }
}

/// What a player wears: helmet, chestplate, leggings, boots.
#[derive(Clone, Copy, Debug, PartialEq, Eq, Structural)]
pub struct Equipment {
    pub helmet: ItemStack,
    pub chestplate: ItemStack,
    pub leggings: ItemStack,
    pub boots: ItemStack,
}

impl Default for Equipment {
    /// Nothing worn.
    fn default() -> (r: Self)
        ensures
            r.helmet == (ItemStack { item: None, size: 0 }),
            r.chestplate == (ItemStack { item: None, size: 0 }),
            r.leggings == (ItemStack { item: None, size: 0 }),
            r.boots == (ItemStack { item: None, size: 0 }),
    {
        Equipment {
            helmet: ItemStack::none(),
            chestplate: ItemStack::none(),
            leggings: ItemStack::none(),
            boots: ItemStack::none(),
        }
    }
}

/// The inventory slot that a player has in hand.
#[derive(Clone, Copy, Debug, PartialEq, Eq, Structural)]
pub struct EquippedItem(pub usize);

impl Default for EquippedItem {
    /// The first slot.
    fn default() -> (r: Self)
        ensures
            r.0 == 0,
    {
        EquippedItem(0)
    }
}

} // verus!
