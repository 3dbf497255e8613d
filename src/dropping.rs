//! What a broken block drops: how many tries, and the stack of each try.

use vstd::prelude::*;

use crate::block;
use crate::block::bed_is_head;
use crate::block::door_is_upper;
use crate::item;
use crate::item::empty_stack;
use crate::item::ItemStack;
use crate::rand::bits_from;
use crate::rand::int_bounded;
use crate::rand::lcg_next;
use crate::rand::JavaRandom;

verus! {

/// Blocks that never drop anything, whatever their metadata.
pub open spec fn never_drops(id: u8) -> bool {
    id == block::AIR || id == block::BOOKSHELF || id == block::CAKE || id == block::FIRE
        || id == block::WATER_MOVING || id == block::WATER_STILL || id == block::LAVA_MOVING
        || id == block::LAVA_STILL || id == block::GLASS || id == block::ICE
        || id == block::SPAWNER || id == block::PISTON_EXT || id == block::PISTON_MOVING
        || id == block::PORTAL || id == block::SNOW || id == block::TNT
}

/// The generator state after, and the number of tries of, the drop of block `id`
/// from generator state `s`.
pub open spec fn drop_tries_of(s: u64, id: u8) -> (u64, u8) {
    if never_drops(id) {
        (s, 0)
    } else if id == block::CLAY || id == block::SNOW_BLOCK {
        (s, 4)
    } else if id == block::GLOWSTONE {
        (int_bounded(s, 3).0, (2 + int_bounded(s, 3).1) as u8)
    } else if id == block::LEAVES {
        (int_bounded(s, 20).0, if int_bounded(s, 20).1 != 0 { 0 } else { 1 })
    } else if id == block::LAPIS_ORE {
        (int_bounded(s, 5).0, (4 + int_bounded(s, 5).1) as u8)
    } else if id == block::REDSTONE_ORE || id == block::REDSTONE_ORE_LIT {
        (int_bounded(s, 2).0, (4 + int_bounded(s, 2).1) as u8)
    } else if id == block::DOUBLE_SLAB {
        (s, 2)
    } else {
        (s, 1)
    }
}

/// A single item.
pub open spec fn single(id: u16, damage: u16) -> ItemStack {
    ItemStack { id, size: 1, damage }
}

/// A single block item.
pub open spec fn block_item(id: u8, metadata: u8) -> ItemStack {
    ItemStack { id: id as u16, size: 1, damage: metadata as u16 }
}

/// The stack of one try that needs no draw, for a block other than gravel and tall grass.
pub open spec fn fixed_drop(id: u8, metadata: u8) -> ItemStack {
    if id == block::BED {
        if bed_is_head(metadata) { empty_stack() } else { single(item::BED, 0) }
    } else if id == block::WHEAT {
        if metadata != 7 { empty_stack() } else { single(item::WHEAT, 0) }
    } else if id == block::WOOD_DOOR || id == block::IRON_DOOR {
        if door_is_upper(metadata) {
            empty_stack()
        } else if id == block::WOOD_DOOR {
            single(item::WOOD_DOOR, 0)
        } else {
            single(item::IRON_DOOR, 0)
        }
    } else if id == block::CAKE || id == block::DEAD_BUSH || id == block::WATER_MOVING
        || id == block::WATER_STILL || id == block::LAVA_MOVING || id == block::LAVA_STILL
        || id == block::SPAWNER || id == block::PISTON_EXT || id == block::PISTON_MOVING {
        empty_stack()
    } else if id == block::CLAY {
        single(item::CLAY, 0)
    } else if id == block::FARMLAND || id == block::GRASS {
        block_item(block::DIRT, 0)
    } else if id == block::FURNACE || id == block::FURNACE_LIT {
        block_item(block::FURNACE, 0)
    } else if id == block::GLOWSTONE {
        single(item::GLOWSTONE_DUST, 0)
    } else if id == block::LEAVES || id == block::SAPLING {
        block_item(block::SAPLING, metadata & 3)
    } else if id == block::COAL_ORE {
        single(item::COAL, 0)
    } else if id == block::DIAMOND_ORE {
        single(item::DIAMOND, 0)
    } else if id == block::REDSTONE_ORE || id == block::REDSTONE_ORE_LIT || id == block::REDSTONE {
        single(item::REDSTONE, 0)
    } else if id == block::LAPIS_ORE {
        single(item::DYE, 4)
    } else if id == block::REPEATER || id == block::REPEATER_LIT {
        single(item::REPEATER, 0)
    } else if id == block::REDSTONE_TORCH || id == block::REDSTONE_TORCH_LIT {
        block_item(block::REDSTONE_TORCH_LIT, 0)
    } else if id == block::SUGAR_CANES {
        single(item::SUGAR_CANES, 0)
    } else if id == block::SIGN || id == block::WALL_SIGN {
        single(item::SIGN, 0)
    } else if id == block::SNOW_BLOCK || id == block::SNOW {
        single(item::SNOWBALL, 0)
    } else if id == block::SLAB || id == block::DOUBLE_SLAB {
        block_item(block::SLAB, metadata)
    } else if id == block::STONE {
        block_item(block::COBBLESTONE, 0)
    } else if id == block::COBWEB {
        single(item::STRING, 0)
    } else if id == block::LOG || id == block::WOOL {
        block_item(id, metadata)
    } else {
        block_item(id, 0)
    }
}

/// The generator state after, and the stack of, one drop try of block `id` with
/// `metadata` from generator state `s`.
pub open spec fn drop_stack_of(s: u64, id: u8, metadata: u8) -> (u64, ItemStack) {
    if id == block::GRAVEL {
        let (s2, v) = int_bounded(s, 10);
        (s2, if v == 0 { single(item::FLINT, 0) } else { block_item(block::GRAVEL, 0) })
    } else if id == block::TALL_GRASS {
        let (s2, v) = int_bounded(s, 8);
        (s2, if v == 0 { single(item::WHEAT_SEEDS, 0) } else { empty_stack() })
    } else {
        (s, fixed_drop(id, metadata))
    }
}

/// The number of drop tries of a broken block; some blocks draw it at random.
pub fn drop_tries(rand: &mut JavaRandom, id: u8, metadata: u8) -> (r: u8)
    ensures
        (final(rand)@, r) == drop_tries_of(old(rand)@, id),
{
    if id == block::AIR || id == block::BOOKSHELF || id == block::CAKE || id == block::FIRE
        || id == block::WATER_MOVING || id == block::WATER_STILL || id == block::LAVA_MOVING
        || id == block::LAVA_STILL || id == block::GLASS || id == block::ICE
        || id == block::SPAWNER || id == block::PISTON_EXT || id == block::PISTON_MOVING
        || id == block::PORTAL || id == block::SNOW || id == block::TNT {
        0
    } else if id == block::CLAY || id == block::SNOW_BLOCK {
        4
    } else if id == block::GLOWSTONE {
        2 + rand.next_int_bounded(3) as u8
    } else if id == block::LEAVES {
        if rand.next_int_bounded(20) != 0 { 0 } else { 1 }
    } else if id == block::LAPIS_ORE {
        4 + rand.next_int_bounded(5) as u8
    } else if id == block::REDSTONE_ORE || id == block::REDSTONE_ORE_LIT {
        4 + rand.next_int_bounded(2) as u8
    } else if id == block::DOUBLE_SLAB {
        2
    } else {
        1
    }
}

fn fixed_stack(id: u8, metadata: u8) -> (r: ItemStack)
    ensures
        r == fixed_drop(id, metadata),
{
    if id == block::BED {
        if block::is_bed_head(metadata) { ItemStack::empty() } else { ItemStack::new_single(item::BED, 0) }
    } else if id == block::WHEAT {
        if metadata != 7 { ItemStack::empty() } else { ItemStack::new_single(item::WHEAT, 0) }
    } else if id == block::WOOD_DOOR || id == block::IRON_DOOR {
        if block::is_door_upper(metadata) {
            ItemStack::empty()
        } else if id == block::WOOD_DOOR {
            ItemStack::new_single(item::WOOD_DOOR, 0)
        } else {
            ItemStack::new_single(item::IRON_DOOR, 0)
        }
    } else if id == block::CAKE || id == block::DEAD_BUSH || id == block::WATER_MOVING
        || id == block::WATER_STILL || id == block::LAVA_MOVING || id == block::LAVA_STILL
        || id == block::SPAWNER || id == block::PISTON_EXT || id == block::PISTON_MOVING {
        ItemStack::empty()
    } else if id == block::CLAY {
        ItemStack::new_single(item::CLAY, 0)
    } else if id == block::FARMLAND || id == block::GRASS {
        ItemStack::new_block(block::DIRT, 0)
    } else if id == block::FURNACE || id == block::FURNACE_LIT {
        ItemStack::new_block(block::FURNACE, 0)
    } else if id == block::GLOWSTONE {
        ItemStack::new_single(item::GLOWSTONE_DUST, 0)
    } else if id == block::LEAVES || id == block::SAPLING {
        ItemStack::new_block(block::SAPLING, metadata & 3)
    } else if id == block::COAL_ORE {
        ItemStack::new_single(item::COAL, 0)
    } else if id == block::DIAMOND_ORE {
        ItemStack::new_single(item::DIAMOND, 0)
    } else if id == block::REDSTONE_ORE || id == block::REDSTONE_ORE_LIT || id == block::REDSTONE {
        ItemStack::new_single(item::REDSTONE, 0)
    } else if id == block::LAPIS_ORE {
        ItemStack::new_single(item::DYE, 4)
    } else if id == block::REPEATER || id == block::REPEATER_LIT {
        ItemStack::new_single(item::REPEATER, 0)
    } else if id == block::REDSTONE_TORCH || id == block::REDSTONE_TORCH_LIT {
        ItemStack::new_block(block::REDSTONE_TORCH_LIT, 0)
    } else if id == block::SUGAR_CANES {
        ItemStack::new_single(item::SUGAR_CANES, 0)
    } else if id == block::SIGN || id == block::WALL_SIGN {
        ItemStack::new_single(item::SIGN, 0)
    } else if id == block::SNOW_BLOCK || id == block::SNOW {
        ItemStack::new_single(item::SNOWBALL, 0)
    } else if id == block::SLAB || id == block::DOUBLE_SLAB {
        ItemStack::new_block(block::SLAB, metadata)
    } else if id == block::STONE {
        ItemStack::new_block(block::COBBLESTONE, 0)
    } else if id == block::COBWEB {
        ItemStack::new_single(item::STRING, 0)
    } else if id == block::LOG || id == block::WOOL {
        ItemStack::new_block(id, metadata)
    } else {
        ItemStack::new_block(id, 0)
    }
}

/// The stack that one drop try of a broken block gives; gravel and tall grass draw it.
pub fn drop_stack(rand: &mut JavaRandom, id: u8, metadata: u8) -> (r: ItemStack)
    ensures
        (final(rand)@, r) == drop_stack_of(old(rand)@, id, metadata),
{
    if id == block::GRAVEL {
        if rand.next_int_bounded(10) == 0 {
            ItemStack::new_single(item::FLINT, 0)
        } else {
            ItemStack::new_block(block::GRAVEL, 0)
        }
    } else if id == block::TALL_GRASS {
        if rand.next_int_bounded(8) == 0 {
            ItemStack::new_single(item::WHEAT_SEEDS, 0)
        } else {
            ItemStack::empty()
        }
    } else {
        fixed_stack(id, metadata)
    }
}

/// A stack dropped from a broken block, with the random draws that place it: three
/// 24-bit draws for its offset in the block and two 53-bit draws for its horizontal
/// velocity, in the order they are drawn.
#[derive(Clone, Copy, Debug, PartialEq, Eq, Structural)]
pub struct ItemDrop {
    pub stack: ItemStack,
    pub offset_x: i32,
    pub offset_y: i32,
    pub offset_z: i32,
    pub vel_x: u64,
    pub vel_z: u64,
}

/// The draws of a 53-bit value from state `s`.
pub open spec fn double_bits_of(s: u64) -> (u64, u64) {
    (lcg_next(lcg_next(s)), (bits_from(s, 26) as int * 0x800_0000 + bits_from(lcg_next(s), 27) as int) as u64)
}

/// The state after, and the drop of, spawning `stack` from state `s`.
pub open spec fn spawn_of(s: u64, stack: ItemStack) -> (u64, ItemDrop) {
    let s1 = lcg_next(s);
    let s2 = lcg_next(s1);
    let s3 = lcg_next(s2);
    let (s4, vx) = double_bits_of(s3);
    let (s5, vz) = double_bits_of(s4);
    (s5, ItemDrop {
        stack,
        offset_x: bits_from(s, 24),
        offset_y: bits_from(s1, 24),
        offset_z: bits_from(s2, 24),
        vel_x: vx,
        vel_z: vz,
    })
}

/// The state after `tries` drop tries from state `s`, and the drops: each try drops
/// where its 24-bit chance draw is at most `threshold` and its stack is not empty, and
/// then draws where the stack goes.
pub open spec fn drops_from(s: u64, id: u8, metadata: u8, threshold: i32, tries: nat) -> (u64, Seq<ItemDrop>)
    decreases tries,
{
    if tries == 0 {
        (s, Seq::empty())
    } else {
        let (s1, prev) = drops_from(s, id, metadata, threshold, (tries - 1) as nat);
        let s2 = lcg_next(s1);
        if bits_from(s1, 24) <= threshold {
            let (s3, stack) = drop_stack_of(s2, id, metadata);
            if stack.spec_is_empty() {
                (s3, prev)
            } else {
                let (s4, d) = spawn_of(s3, stack);
                (s4, prev.push(d))
            }
        } else {
            (s2, prev)
        }
    }
}

/// The state after, and the drops of, breaking block `id` with `metadata` from state `s`.
pub open spec fn drops_of(s: u64, id: u8, metadata: u8, threshold: i32) -> (u64, Seq<ItemDrop>) {
    drops_from(drop_tries_of(s, id).0, id, metadata, threshold, drop_tries_of(s, id).1 as nat)
}

fn draw_spawn(rand: &mut JavaRandom, stack: ItemStack) -> (r: ItemDrop)
    ensures
        (final(rand)@, r) == spawn_of(old(rand)@, stack),
{
    let x = rand.next_bits(24);
    let y = rand.next_bits(24);
    let z = rand.next_bits(24);
    let vx = rand.next_double_bits();
    let vz = rand.next_double_bits();
    ItemDrop { stack, offset_x: x, offset_y: y, offset_z: z, vel_x: vx, vel_z: vz }
}

/// The drops of a broken block. A try drops where its chance draw, 24 random bits, is
/// at most `threshold`: a drop chance `c` in `0..=1` is the threshold `floor(c * 2^24)`.
pub fn drop_stacks(rand: &mut JavaRandom, id: u8, metadata: u8, threshold: i32) -> (r: Vec<ItemDrop>)
    ensures
        (final(rand)@, r@) == drops_of(old(rand)@, id, metadata, threshold),
{
    let tries = drop_tries(rand, id, metadata);
    let ghost start = rand@;
    let mut out: Vec<ItemDrop> = Vec::new();
    let mut i: u8 = 0;
    while i < tries
        invariant
            i <= tries,
            (rand@, out@) == drops_from(start, id, metadata, threshold, i as nat),
        decreases tries - i,
    {
        if rand.next_bits(24) <= threshold {
            let stack = drop_stack(rand, id, metadata);
            if !stack.is_empty() {
                let d = draw_spawn(rand, stack);
                out.push(d);
            }
        }
        i = i + 1;
    }
    out
}

} // verus!
