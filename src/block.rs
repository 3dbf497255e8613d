//! Block identifiers, their materials and the layout of their metadata.

use vstd::prelude::*;

verus! {

pub const AIR: u8 = 0;
pub const STONE: u8 = 1;
pub const GRASS: u8 = 2;
pub const DIRT: u8 = 3;
pub const COBBLESTONE: u8 = 4;
pub const WOOD: u8 = 5;
pub const SAPLING: u8 = 6;
pub const BEDROCK: u8 = 7;
pub const WATER_MOVING: u8 = 8;
pub const WATER_STILL: u8 = 9;
pub const LAVA_MOVING: u8 = 10;
pub const LAVA_STILL: u8 = 11;
pub const SAND: u8 = 12;
pub const GRAVEL: u8 = 13;
pub const GOLD_ORE: u8 = 14;
pub const IRON_ORE: u8 = 15;
pub const COAL_ORE: u8 = 16;
pub const LOG: u8 = 17;
pub const LEAVES: u8 = 18;
pub const SPONGE: u8 = 19;
pub const GLASS: u8 = 20;
pub const LAPIS_ORE: u8 = 21;
pub const LAPIS_BLOCK: u8 = 22;
pub const DISPENSER: u8 = 23;
pub const SANDSTONE: u8 = 24;
pub const NOTE_BLOCK: u8 = 25;
pub const BED: u8 = 26;
pub const POWERED_RAIL: u8 = 27;
pub const DETECTOR_RAIL: u8 = 28;
pub const STICKY_PISTON: u8 = 29;
pub const COBWEB: u8 = 30;
pub const TALL_GRASS: u8 = 31;
pub const DEAD_BUSH: u8 = 32;
pub const PISTON: u8 = 33;
pub const PISTON_EXT: u8 = 34;
pub const WOOL: u8 = 35;
pub const PISTON_MOVING: u8 = 36;
pub const DANDELION: u8 = 37;
pub const POPPY: u8 = 38;
pub const BROWN_MUSHROOM: u8 = 39;
pub const RED_MUSHROOM: u8 = 40;
pub const GOLD_BLOCK: u8 = 41;
pub const IRON_BLOCK: u8 = 42;
pub const DOUBLE_SLAB: u8 = 43;
pub const SLAB: u8 = 44;
pub const BRICK: u8 = 45;
pub const TNT: u8 = 46;
pub const BOOKSHELF: u8 = 47;
pub const MOSSY_COBBLESTONE: u8 = 48;
pub const OBSIDIAN: u8 = 49;
pub const TORCH: u8 = 50;
pub const FIRE: u8 = 51;
pub const SPAWNER: u8 = 52;
pub const WOOD_STAIR: u8 = 53;
pub const CHEST: u8 = 54;
pub const REDSTONE: u8 = 55;
pub const DIAMOND_ORE: u8 = 56;
pub const DIAMOND_BLOCK: u8 = 57;
pub const CRAFTING_TABLE: u8 = 58;
pub const WHEAT: u8 = 59;
pub const FARMLAND: u8 = 60;
pub const FURNACE: u8 = 61;
pub const FURNACE_LIT: u8 = 62;
pub const SIGN: u8 = 63;
pub const WOOD_DOOR: u8 = 64;
pub const LADDER: u8 = 65;
pub const RAIL: u8 = 66;
pub const COBBLESTONE_STAIR: u8 = 67;
pub const WALL_SIGN: u8 = 68;
pub const LEVER: u8 = 69;
pub const WOOD_PRESSURE_PLATE: u8 = 70;
pub const IRON_DOOR: u8 = 71;
pub const STONE_PRESSURE_PLATE: u8 = 72;
pub const REDSTONE_ORE: u8 = 73;
pub const REDSTONE_ORE_LIT: u8 = 74;
pub const REDSTONE_TORCH: u8 = 75;
pub const REDSTONE_TORCH_LIT: u8 = 76;
pub const BUTTON: u8 = 77;
pub const SNOW: u8 = 78;
pub const ICE: u8 = 79;
pub const SNOW_BLOCK: u8 = 80;
pub const CACTUS: u8 = 81;
pub const CLAY: u8 = 82;
pub const SUGAR_CANES: u8 = 83;
pub const JUKEBOX: u8 = 84;
pub const FENCE: u8 = 85;
pub const PUMPKIN: u8 = 86;
pub const NETHERRACK: u8 = 87;
pub const SOULSAND: u8 = 88;
pub const GLOWSTONE: u8 = 89;
pub const PORTAL: u8 = 90;
pub const PUMPKIN_LIT: u8 = 91;
pub const CAKE: u8 = 92;
pub const REPEATER: u8 = 93;
pub const REPEATER_LIT: u8 = 94;
pub const LOCKED_CHEST: u8 = 95;
pub const TRAPDOOR: u8 = 96;

/// The material of a block, which decides how it collides and flows.
#[derive(Clone, Copy, Debug, PartialEq, Eq, Structural)]
pub enum Material {
    Air,
    Rock,
    Grass,
    Ground,
    Wood,
    Plant,
    Water,
    Lava,
    Sand,
    Iron,
    Leaves,
    Sponge,
    Glass,
    Cloth,
    Circuit,
    Piston,
    Cobweb,
    Tnt,
    Fire,
    SnowLayer,
    Ice,
    SnowBlock,
    Cactus,
    Clay,
    Pumpkin,
    Portal,
    Cake,
}

/// The material of each block id; an id that names no block is air.
pub open spec fn material_of(id: u8) -> Material {
    if id == STONE ||
        id == COBBLESTONE ||
        id == BEDROCK ||
        id == GOLD_ORE ||
        id == IRON_ORE ||
        id == COAL_ORE ||
        id == LAPIS_ORE ||
        id == DISPENSER ||
        id == SANDSTONE ||
        id == DOUBLE_SLAB ||
        id == SLAB ||
        id == BRICK ||
        id == MOSSY_COBBLESTONE ||
        id == OBSIDIAN ||
        id == SPAWNER ||
        id == DIAMOND_ORE ||
        id == FURNACE ||
        id == FURNACE_LIT ||
        id == COBBLESTONE_STAIR ||
        id == STONE_PRESSURE_PLATE ||
        id == REDSTONE_ORE ||
        id == REDSTONE_ORE_LIT ||
        id == NETHERRACK {
        Material::Rock
    } else if id == GRASS {
        Material::Grass
    } else if id == DIRT ||
        id == FARMLAND {
        Material::Ground
    } else if id == WOOD ||
        id == LOG ||
        id == NOTE_BLOCK ||
        id == BOOKSHELF ||
        id == WOOD_STAIR ||
        id == CHEST ||
        id == CRAFTING_TABLE ||
        id == SIGN ||
        id == WOOD_DOOR ||
        id == WALL_SIGN ||
        id == WOOD_PRESSURE_PLATE ||
        id == JUKEBOX ||
        id == FENCE ||
        id == LOCKED_CHEST ||
        id == TRAPDOOR {
        Material::Wood
    } else if id == SAPLING ||
        id == TALL_GRASS ||
        id == DEAD_BUSH ||
        id == DANDELION ||
        id == POPPY ||
        id == BROWN_MUSHROOM ||
        id == RED_MUSHROOM ||
        id == WHEAT ||
        id == SUGAR_CANES {
        Material::Plant
    } else if id == WATER_MOVING ||
        id == WATER_STILL {
        Material::Water
    } else if id == LAVA_MOVING ||
        id == LAVA_STILL {
        Material::Lava
    } else if id == SAND ||
        id == GRAVEL ||
        id == SOULSAND {
        Material::Sand
    } else if id == GOLD_BLOCK ||
        id == IRON_BLOCK ||
        id == LAPIS_BLOCK ||
        id == DIAMOND_BLOCK ||
        id == IRON_DOOR {
        Material::Iron
    } else if id == LEAVES {
        Material::Leaves
    } else if id == SPONGE {
        Material::Sponge
    } else if id == GLASS ||
        id == GLOWSTONE {
        Material::Glass
    } else if id == BED ||
        id == WOOL {
        Material::Cloth
    } else if id == POWERED_RAIL ||
        id == DETECTOR_RAIL ||
        id == RAIL ||
        id == TORCH ||
        id == REDSTONE ||
        id == LADDER ||
        id == LEVER ||
        id == REDSTONE_TORCH ||
        id == REDSTONE_TORCH_LIT ||
        id == BUTTON ||
        id == REPEATER ||
        id == REPEATER_LIT {
        Material::Circuit
    } else if id == STICKY_PISTON ||
        id == PISTON ||
        id == PISTON_EXT ||
        id == PISTON_MOVING {
        Material::Piston
    } else if id == COBWEB {
        Material::Cobweb
    } else if id == TNT {
        Material::Tnt
    } else if id == FIRE {
        Material::Fire
    } else if id == SNOW {
        Material::SnowLayer
    } else if id == ICE {
        Material::Ice
    } else if id == SNOW_BLOCK {
        Material::SnowBlock
    } else if id == CACTUS {
        Material::Cactus
    } else if id == CLAY {
        Material::Clay
    } else if id == PUMPKIN ||
        id == PUMPKIN_LIT {
        Material::Pumpkin
    } else if id == PORTAL {
        Material::Portal
    } else if id == CAKE {
        Material::Cake
    } else {
        Material::Air
    }
}

/// The material of a block id.
pub fn material(id: u8) -> (r: Material)
    ensures
        r == material_of(id),
{
    if id == STONE ||
        id == COBBLESTONE ||
        id == BEDROCK ||
        id == GOLD_ORE ||
        id == IRON_ORE ||
        id == COAL_ORE ||
        id == LAPIS_ORE ||
        id == DISPENSER ||
        id == SANDSTONE ||
        id == DOUBLE_SLAB ||
        id == SLAB ||
        id == BRICK ||
        id == MOSSY_COBBLESTONE ||
        id == OBSIDIAN ||
        id == SPAWNER ||
        id == DIAMOND_ORE ||
        id == FURNACE ||
        id == FURNACE_LIT ||
        id == COBBLESTONE_STAIR ||
        id == STONE_PRESSURE_PLATE ||
        id == REDSTONE_ORE ||
        id == REDSTONE_ORE_LIT ||
        id == NETHERRACK {
        Material::Rock
    } else if id == GRASS {
        Material::Grass
    } else if id == DIRT ||
        id == FARMLAND {
        Material::Ground
    } else if id == WOOD ||
        id == LOG ||
        id == NOTE_BLOCK ||
        id == BOOKSHELF ||
        id == WOOD_STAIR ||
        id == CHEST ||
        id == CRAFTING_TABLE ||
        id == SIGN ||
        id == WOOD_DOOR ||
        id == WALL_SIGN ||
        id == WOOD_PRESSURE_PLATE ||
        id == JUKEBOX ||
        id == FENCE ||
        id == LOCKED_CHEST ||
        id == TRAPDOOR {
        Material::Wood
    } else if id == SAPLING ||
        id == TALL_GRASS ||
        id == DEAD_BUSH ||
        id == DANDELION ||
        id == POPPY ||
        id == BROWN_MUSHROOM ||
        id == RED_MUSHROOM ||
        id == WHEAT ||
        id == SUGAR_CANES {
        Material::Plant
    } else if id == WATER_MOVING ||
        id == WATER_STILL {
        Material::Water
    } else if id == LAVA_MOVING ||
        id == LAVA_STILL {
        Material::Lava
    } else if id == SAND ||
        id == GRAVEL ||
        id == SOULSAND {
        Material::Sand
    } else if id == GOLD_BLOCK ||
        id == IRON_BLOCK ||
        id == LAPIS_BLOCK ||
        id == DIAMOND_BLOCK ||
        id == IRON_DOOR {
        Material::Iron
    } else if id == LEAVES {
        Material::Leaves
    } else if id == SPONGE {
        Material::Sponge
    } else if id == GLASS ||
        id == GLOWSTONE {
        Material::Glass
    } else if id == BED ||
        id == WOOL {
        Material::Cloth
    } else if id == POWERED_RAIL ||
        id == DETECTOR_RAIL ||
        id == RAIL ||
        id == TORCH ||
        id == REDSTONE ||
        id == LADDER ||
        id == LEVER ||
        id == REDSTONE_TORCH ||
        id == REDSTONE_TORCH_LIT ||
        id == BUTTON ||
        id == REPEATER ||
        id == REPEATER_LIT {
        Material::Circuit
    } else if id == STICKY_PISTON ||
        id == PISTON ||
        id == PISTON_EXT ||
        id == PISTON_MOVING {
        Material::Piston
    } else if id == COBWEB {
        Material::Cobweb
    } else if id == TNT {
        Material::Tnt
    } else if id == FIRE {
        Material::Fire
    } else if id == SNOW {
        Material::SnowLayer
    } else if id == ICE {
        Material::Ice
    } else if id == SNOW_BLOCK {
        Material::SnowBlock
    } else if id == CACTUS {
        Material::Cactus
    } else if id == CLAY {
        Material::Clay
    } else if id == PUMPKIN ||
        id == PUMPKIN_LIT {
        Material::Pumpkin
    } else if id == PORTAL {
        Material::Portal
    } else if id == CAKE {
        Material::Cake
    } else {
        Material::Air
    }
}

impl Material {
    /// Whether entities collide with a block of this material.
    pub open spec fn spec_is_solid(&self) -> bool {
        !(*self == Material::Air || *self == Material::Water || *self == Material::Lava
            || *self == Material::Plant || *self == Material::Fire || *self == Material::Circuit
            || *self == Material::SnowLayer || *self == Material::Portal)
    }

    /// Whether a block of this material is a fluid.
    pub open spec fn spec_is_fluid(&self) -> bool {
        *self == Material::Water || *self == Material::Lava
    }

    pub fn is_solid(&self) -> (r: bool)
        ensures
            r == self.spec_is_solid(),
    {
        match self {
            Material::Air | Material::Water | Material::Lava | Material::Plant | Material::Fire
            | Material::Circuit | Material::SnowLayer | Material::Portal => false,
            _ => true,
        }
    }

    pub fn is_fluid(&self) -> (r: bool)
        ensures
            r == self.spec_is_fluid(),
    {
        match self {
            Material::Water | Material::Lava => true,
            _ => false,
        }
    }
}

/// Whether the bed metadata is that of the head piece.
pub open spec fn bed_is_head(metadata: u8) -> bool {
    metadata & 8 != 0
}

/// Whether the door metadata is that of the upper half.
pub open spec fn door_is_upper(metadata: u8) -> bool {
    metadata & 8 != 0
}

/// Whether the door metadata is that of an open door.
pub open spec fn door_is_open(metadata: u8) -> bool {
    metadata & 4 != 0
}

/// Whether a button or a lever metadata is that of an active one.
pub open spec fn is_active(metadata: u8) -> bool {
    metadata & 8 != 0
}

/// Whether a trapdoor metadata is that of an open one.
pub open spec fn trapdoor_is_open(metadata: u8) -> bool {
    metadata & 4 != 0
}

/// The delay index of a repeater, in `0..4`.
pub open spec fn repeater_delay(metadata: u8) -> u8 {
    (metadata >> 2u8) & 3
}

/// The metadata with the flag bit `bit` set to `on`, the other bits kept.
pub open spec fn with_flag(metadata: u8, bit: u8, on: bool) -> u8 {
    if on {
        metadata | bit
    } else {
        metadata & !bit
    }
}

/// The metadata of a repeater with the given delay index, the facing bits kept.
pub open spec fn with_repeater_delay(metadata: u8, delay: u8) -> u8 {
    (metadata & 3) | ((delay & 3) << 2u8)
}

pub fn is_bed_head(metadata: u8) -> (r: bool)
    ensures
        r == bed_is_head(metadata),
{
    metadata & 8 != 0
}

pub fn is_door_upper(metadata: u8) -> (r: bool)
    ensures
        r == door_is_upper(metadata),
{
    metadata & 8 != 0
}

pub fn is_door_open(metadata: u8) -> (r: bool)
    ensures
        r == door_is_open(metadata),
{
    metadata & 4 != 0
}

pub fn is_switch_active(metadata: u8) -> (r: bool)
    ensures
        r == is_active(metadata),
{
    metadata & 8 != 0
}

pub fn is_trapdoor_open(metadata: u8) -> (r: bool)
    ensures
        r == trapdoor_is_open(metadata),
{
    metadata & 4 != 0
}

pub fn get_repeater_delay(metadata: u8) -> (r: u8)
    ensures
        r == repeater_delay(metadata),
        r < 4,
{
    let r = (metadata >> 2u8) & 3;
    assert((metadata >> 2u8) & 3 < 4) by (bit_vector);
    r
}

/// Set or clear the flag bit `bit` of a metadata.
pub fn set_flag(metadata: u8, bit: u8, on: bool) -> (r: u8)
    ensures
        r == with_flag(metadata, bit, on),
{
    if on {
        metadata | bit
    } else {
        metadata & !bit
    }
}

pub fn set_repeater_delay(metadata: u8, delay: u8) -> (r: u8)
    ensures
        r == with_repeater_delay(metadata, delay),
{
    (metadata & 3) | ((delay & 3) << 2u8)
}

} // verus!
