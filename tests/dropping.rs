use mc173::block;
use mc173::dropping::{drop_stack, drop_stacks, drop_tries};
use mc173::item::{self, ItemStack};
use mc173::rand::JavaRandom;

#[test]
fn fixed_tries() {
    let mut rand = JavaRandom::new(0);
    assert_eq!(drop_tries(&mut rand, block::AIR, 0), 0);
    assert_eq!(drop_tries(&mut rand, block::GLASS, 0), 0);
    assert_eq!(drop_tries(&mut rand, block::CLAY, 0), 4);
    assert_eq!(drop_tries(&mut rand, block::SNOW_BLOCK, 0), 4);
    assert_eq!(drop_tries(&mut rand, block::DOUBLE_SLAB, 0), 2);
    assert_eq!(drop_tries(&mut rand, block::STONE, 0), 1);
    assert_eq!(rand.state(), JavaRandom::new(0).state());
}

#[test]
fn random_tries_draw_from_the_generator() {
    let mut rand = JavaRandom::new(0);
    let mut reference = JavaRandom::new(0);
    let t = drop_tries(&mut rand, block::GLOWSTONE, 0);
    assert_eq!(t as i32, 2 + reference.next_int_bounded(3));
    let t = drop_tries(&mut rand, block::LAPIS_ORE, 0);
    assert_eq!(t as i32, 4 + reference.next_int_bounded(5));
    let t = drop_tries(&mut rand, block::REDSTONE_ORE, 0);
    assert_eq!(t as i32, 4 + reference.next_int_bounded(2));
    let t = drop_tries(&mut rand, block::LEAVES, 0);
    assert_eq!(t, if reference.next_int_bounded(20) != 0 { 0 } else { 1 });
    assert_eq!(rand.state(), reference.state());
}

#[test]
fn stacks_of_common_blocks() {
    let mut rand = JavaRandom::new(0);
    assert_eq!(drop_stack(&mut rand, block::STONE, 0), ItemStack::new_block(block::COBBLESTONE, 0));
    assert_eq!(drop_stack(&mut rand, block::GRASS, 0), ItemStack::new_block(block::DIRT, 0));
    assert_eq!(drop_stack(&mut rand, block::WOOL, 5), ItemStack::new_block(block::WOOL, 5));
    assert_eq!(drop_stack(&mut rand, block::LEAVES, 6), ItemStack::new_block(block::SAPLING, 2));
    assert_eq!(drop_stack(&mut rand, block::LAPIS_ORE, 0), ItemStack::new_single(item::DYE, 4));
    assert_eq!(drop_stack(&mut rand, block::REDSTONE_TORCH, 0), ItemStack::new_block(block::REDSTONE_TORCH_LIT, 0));
    assert_eq!(drop_stack(&mut rand, block::COBBLESTONE, 3), ItemStack::new_block(block::COBBLESTONE, 0));
}

#[test]
fn stacks_that_depend_on_metadata() {
    let mut rand = JavaRandom::new(0);
    assert!(drop_stack(&mut rand, block::BED, 8).is_empty());
    assert_eq!(drop_stack(&mut rand, block::BED, 0), ItemStack::new_single(item::BED, 0));
    assert!(drop_stack(&mut rand, block::WHEAT, 6).is_empty());
    assert_eq!(drop_stack(&mut rand, block::WHEAT, 7), ItemStack::new_single(item::WHEAT, 0));
    assert!(drop_stack(&mut rand, block::WOOD_DOOR, 8).is_empty());
    assert_eq!(drop_stack(&mut rand, block::IRON_DOOR, 0), ItemStack::new_single(item::IRON_DOOR, 0));
    assert!(drop_stack(&mut rand, block::LAVA_STILL, 0).is_empty());
}

#[test]
fn gravel_and_tall_grass_draw() {
    let mut rand = JavaRandom::new(0);
    let mut reference = JavaRandom::new(0);
    for _ in 0..50 {
        let s = drop_stack(&mut rand, block::GRAVEL, 0);
        if reference.next_int_bounded(10) == 0 {
            assert_eq!(s, ItemStack::new_single(item::FLINT, 0));
        } else {
            assert_eq!(s, ItemStack::new_block(block::GRAVEL, 0));
        }
        let s = drop_stack(&mut rand, block::TALL_GRASS, 0);
        if reference.next_int_bounded(8) == 0 {
            assert_eq!(s, ItemStack::new_single(item::WHEAT_SEEDS, 0));
        } else {
            assert!(s.is_empty());
        }
    }
}

#[test]
fn item_stack_helpers() {
    assert!(ItemStack::empty().is_empty());
    assert!(ItemStack::new_sized(item::STRING, 0, 0).is_empty());
    assert_eq!(ItemStack::empty().to_non_empty(), None);
    let s = ItemStack::new_sized(item::STRING, 0, 3);
    assert_eq!(s.to_non_empty(), Some(s));
}

#[test]
fn drops_draw_chance_stack_and_placement_in_order() {
    let mut rand = JavaRandom::new(12);
    let mut reference = JavaRandom::new(12);
    let drops = drop_stacks(&mut rand, block::GLOWSTONE, 0, 1 << 24);
    let tries = drop_tries(&mut reference, block::GLOWSTONE, 0);
    assert_eq!(drops.len(), tries as usize);
    for d in &drops {
        assert!(reference.next_bits(24) <= 1 << 24);
        assert_eq!(drop_stack(&mut reference, block::GLOWSTONE, 0), d.stack);
        assert_eq!(d.stack, ItemStack::new_single(item::GLOWSTONE_DUST, 0));
        assert_eq!(d.offset_x, reference.next_bits(24));
        assert_eq!(d.offset_y, reference.next_bits(24));
        assert_eq!(d.offset_z, reference.next_bits(24));
        assert_eq!(d.vel_x, reference.next_double_bits());
        assert_eq!(d.vel_z, reference.next_double_bits());
    }
    assert_eq!(rand.state(), reference.state());
}

#[test]
fn zero_chance_drops_nothing_and_empty_stacks_are_skipped() {
    let mut rand = JavaRandom::new(12);
    assert!(drop_stacks(&mut rand, block::STONE, 0, -1).is_empty());
    let mut rand = JavaRandom::new(12);
    assert!(drop_stacks(&mut rand, block::BED, 8, 1 << 24).is_empty());
    let mut rand = JavaRandom::new(12);
    assert!(drop_stacks(&mut rand, block::GLASS, 0, 1 << 24).is_empty());
    assert_eq!(rand.state(), JavaRandom::new(12).state());
}
