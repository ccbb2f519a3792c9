//! What the ghost has collected over the whole game.

use vstd::prelude::*;

verus! {

/// What a house gives to a visitor.
#[derive(Debug, PartialEq, Eq)]
pub enum LootType {
    Candy,
    RareItem(String),
    SpecialTreat(String),
}

/// The running totals of the game: the candies collected so far and the
/// rarer finds, in the order in which they were made.
#[derive(Debug, PartialEq, Eq)]
pub struct PlayerInventory {
    pub candies: u32,
    pub rare_items: Vec<LootType>,
}

/// One more than `count`, as far as 32 bits go.
pub open spec fn one_more(count: u32) -> u32 {
    if count < u32::MAX {
        (count + 1) as u32
    } else {
        count
    }
}

/// The list of finds after `loot` was collected: candy leaves no entry.
pub open spec fn with_find(items: Seq<LootType>, loot: LootType) -> Seq<LootType> {
    if loot is Candy {
        items
    } else {
        items.push(loot)
    }
}

impl Clone for LootType {
    fn clone(&self) -> (r: LootType)
        ensures
            r.same_as(*self),
    {
        match self {
            LootType::Candy => LootType::Candy,
            LootType::RareItem(name) => LootType::RareItem(name.clone()),
            LootType::SpecialTreat(name) => LootType::SpecialTreat(name.clone()),
        }
    }
}

impl LootType {
    /// Whether two loots are of the same kind and carry the same name.
    pub open spec fn same_as(self, other: LootType) -> bool {
        match (self, other) {
            (LootType::Candy, LootType::Candy) => true,
            (LootType::RareItem(a), LootType::RareItem(b)) => a@ == b@,
            (LootType::SpecialTreat(a), LootType::SpecialTreat(b)) => a@ == b@,
            _ => false,
        }
    }


    /// Whether the loot is plain candy.
    pub fn is_candy(&self) -> (r: bool)
        ensures
            r == (*self is Candy),
    {
        match self {
            LootType::Candy => true,
            _ => false,
        }
    }
}

impl PlayerInventory {
    /// An empty inventory.
    pub fn new() -> (inventory: PlayerInventory)
        ensures
            inventory.candies == 0,
            inventory.rare_items@ == Seq::<LootType>::empty(),
    {
        PlayerInventory { candies: 0, rare_items: Vec::new() }
    }

    /// Records one completed visit: the candy count grows by one, and a
    /// find that is not candy joins the list. Returns the new count.
    pub fn collect(&mut self, loot: LootType) -> (count: u32)
        ensures
            final(self).candies == one_more(old(self).candies),
            final(self).rare_items@ == with_find(old(self).rare_items@, loot),
            count == final(self).candies,
    {
        if self.candies < u32::MAX {
            self.candies = self.candies + 1;
        }
        if !loot.is_candy() {
            self.rare_items.push(loot);
        }
        self.candies
    }

    /// Takes over a loaded inventory. Where loading gave nothing, the
    /// inventory stays as it is.
    pub fn restore(&mut self, loaded: Option<PlayerInventory>)
        ensures
            loaded matches Some(inventory) ==> *final(self) == inventory,
            loaded is None ==> *final(self) == *old(self),
    {
        match loaded {
            Some(inventory) => {
                *self = inventory;
            },
            None => {},
        }
    }
}

} // verus!
