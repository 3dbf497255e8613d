//! Item stacks and the item identifiers that the library's logic names.

use vstd::prelude::*;

verus! {

pub const COAL: u16 = 263;
pub const DIAMOND: u16 = 264;
pub const IRON_INGOT: u16 = 265;
pub const STRING: u16 = 287;
pub const GUNPOWDER: u16 = 289;
pub const WHEAT_SEEDS: u16 = 295;
pub const WHEAT: u16 = 296;
pub const BREAD: u16 = 297;
pub const FLINT: u16 = 318;
pub const GOLD_APPLE: u16 = 322;
pub const SIGN: u16 = 323;
pub const WOOD_DOOR: u16 = 324;
pub const BUCKET: u16 = 325;
pub const SADDLE: u16 = 329;
pub const IRON_DOOR: u16 = 330;
pub const REDSTONE: u16 = 331;
pub const SNOWBALL: u16 = 332;
pub const CLAY: u16 = 337;
pub const SUGAR_CANES: u16 = 338;
pub const GLOWSTONE_DUST: u16 = 348;
pub const DYE: u16 = 351;
pub const BED: u16 = 355;
pub const REPEATER: u16 = 356;
pub const RECORD_13: u16 = 2256;
pub const RECORD_CAT: u16 = 2257;

/// A stack of items: an item (or block) id, a count and a damage or variant value.
#[derive(Clone, Copy, Debug, PartialEq, Eq, Structural)]
pub struct ItemStack {
    pub id: u16,
    pub size: u16,
    pub damage: u16,
}

/// The empty stack, the sentinel of an empty inventory slot.
pub open spec fn empty_stack() -> ItemStack {
    ItemStack { id: 0, size: 0, damage: 0 }
}

impl ItemStack {
    /// The empty stack.
    pub fn empty() -> (r: ItemStack)
        ensures
            r == empty_stack(),
    {
        ItemStack { id: 0, size: 0, damage: 0 }
    }

    /// A single item with the given damage.
    pub fn new_single(id: u16, damage: u16) -> (r: ItemStack)
        ensures
            r == (ItemStack { id, size: 1, damage }),
    {
        ItemStack { id, size: 1, damage }
    }

    /// Several items with the given damage.
    pub fn new_sized(id: u16, damage: u16, size: u16) -> (r: ItemStack)
        ensures
            r == (ItemStack { id, size, damage }),
    {
        ItemStack { id, size, damage }
    }

    /// A single block item, the metadata going to the damage value.
    pub fn new_block(id: u8, metadata: u8) -> (r: ItemStack)
        ensures
            r == (ItemStack { id: id as u16, size: 1, damage: metadata as u16 }),
    {
        ItemStack { id: id as u16, size: 1, damage: metadata as u16 }
    }

    pub open spec fn spec_is_empty(&self) -> bool {
        self.id == 0 || self.size == 0
    }

    /// Whether this stack holds nothing: no item, or a count of zero.
    pub fn is_empty(&self) -> (r: bool)
        ensures
            r == self.spec_is_empty(),
    {
        self.id == 0 || self.size == 0
    }

    /// This stack, or `None` where it is empty.
    pub fn to_non_empty(&self) -> (r: Option<ItemStack>)
        ensures
            r == (if self.spec_is_empty() { None } else { Some(*self) }),
    {
        if self.is_empty() {
            None
        } else {
            Some(*self)
        }
    }
}

} // verus!
