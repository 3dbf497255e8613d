//! Block entities: the extra state that some blocks carry.

use vstd::prelude::*;

use crate::block;
use crate::entity::EntityKind;
use crate::geom::Face;
use crate::item::empty_stack;
use crate::item::ItemStack;

verus! {

/// The number of slots of a chest.
pub const CHEST_SLOTS: usize = 27;

/// The number of slots of a dispenser.
pub const DISPENSER_SLOTS: usize = 9;

#[derive(Clone, Debug)]
pub struct ChestBlockEntity {
    pub inv: Vec<ItemStack>,
}

#[derive(Clone, Debug)]
pub struct FurnaceBlockEntity {
    pub input_stack: ItemStack,
    pub fuel_stack: ItemStack,
    pub output_stack: ItemStack,
    pub burn_remaining_ticks: u16,
    pub burn_max_ticks: u16,
    pub smelt_ticks: u16,
}

#[derive(Clone, Debug)]
pub struct DispenserBlockEntity {
    pub inv: Vec<ItemStack>,
}

#[derive(Clone, Debug)]
pub struct SpawnerBlockEntity {
    pub entity_kind: EntityKind,
    pub remaining_ticks: u32,
}

#[derive(Clone, Debug)]
pub struct NoteBlockBlockEntity {
    pub note: u8,
}

#[derive(Clone, Debug)]
pub struct PistonBlockEntity {
    pub block: u8,
    pub metadata: u8,
    pub face: Face,
    pub extending: bool,
}

#[derive(Clone, Debug)]
pub struct SignBlockEntity {
    pub lines: Vec<String>,
}

#[derive(Clone, Debug)]
pub struct JukeboxBlockEntity {
    pub record: u32,
}

/// All kinds of block entities.
#[derive(Clone, Debug)]
pub enum BlockEntity {
    Chest(ChestBlockEntity),
    Furnace(FurnaceBlockEntity),
    Dispenser(DispenserBlockEntity),
    Spawner(SpawnerBlockEntity),
    NoteBlock(NoteBlockBlockEntity),
    Piston(PistonBlockEntity),
    Sign(SignBlockEntity),
    Jukebox(JukeboxBlockEntity),
}

/// Whether a block with id `id` may carry the block entity `be`.
pub open spec fn kind_matches(id: u8, be: BlockEntity) -> bool {
    match be {
        BlockEntity::Chest(_) => id == block::CHEST,
        BlockEntity::Furnace(_) => id == block::FURNACE || id == block::FURNACE_LIT,
        BlockEntity::Dispenser(_) => id == block::DISPENSER,
        BlockEntity::Spawner(_) => id == block::SPAWNER,
        BlockEntity::NoteBlock(_) => id == block::NOTE_BLOCK,
        BlockEntity::Piston(_) => id == block::PISTON_MOVING,
        BlockEntity::Sign(_) => id == block::SIGN || id == block::WALL_SIGN,
        BlockEntity::Jukebox(_) => id == block::JUKEBOX,
    }
}

impl BlockEntity {
    /// Whether a block with id `id` may carry this block entity.
    pub fn matches_block(&self, id: u8) -> (r: bool)
        ensures
            r == kind_matches(id, *self),
    {
        match self {
            BlockEntity::Chest(_) => id == block::CHEST,
            BlockEntity::Furnace(_) => id == block::FURNACE || id == block::FURNACE_LIT,
            BlockEntity::Dispenser(_) => id == block::DISPENSER,
            BlockEntity::Spawner(_) => id == block::SPAWNER,
            BlockEntity::NoteBlock(_) => id == block::NOTE_BLOCK,
            BlockEntity::Piston(_) => id == block::PISTON_MOVING,
            BlockEntity::Sign(_) => id == block::SIGN || id == block::WALL_SIGN,
            BlockEntity::Jukebox(_) => id == block::JUKEBOX,
        }
    }
}

impl ChestBlockEntity {
    /// An empty chest.
    pub fn new() -> (r: ChestBlockEntity)
        ensures
            r.inv@.len() == CHEST_SLOTS,
            forall|i: int| 0 <= i < CHEST_SLOTS ==> r.inv@[i] == empty_stack(),
    {
        ChestBlockEntity { inv: vec![ItemStack::empty(); CHEST_SLOTS] }
    }
}

impl SpawnerBlockEntity {
    /// A spawner of the given kind, that spawns for the first time after 20 ticks.
    pub fn new(entity_kind: EntityKind) -> (r: SpawnerBlockEntity)
        ensures
            r.entity_kind == entity_kind,
            r.remaining_ticks == 20,
    {
        SpawnerBlockEntity { entity_kind, remaining_ticks: 20 }
    }
}

} // verus!
