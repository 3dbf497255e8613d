use mc173::block;
use mc173::block_entity::BlockEntity;
use mc173::chunk::{Chunk, ChunkView, CHUNK_SIZE};
use mc173::entity::{calc_size, EntityKind, Size};
use mc173::gen::dungeon::DungeonGenerator;
use mc173::gen::lake::{LakeGenerator, LakeMask};
use mc173::gen::source::{ChunkGenerator, GeneratorChunkSource, POPULATED_ALL};
use mc173::geom::BlockPos;
use mc173::item::{self, ItemStack};
use mc173::rand::JavaRandom;
use mc173::world::{Dimension, World, WorldView};

/// A chunk of stone up to height `top`, exclusive, and air above.
fn stone_chunk(top: usize) -> Chunk {
    let mut chunk = Chunk::new();
    for i in 0..CHUNK_SIZE {
        if i % 128 < top {
            chunk.blocks[i] = block::STONE;
        }
    }
    chunk
}

fn stone_world(top: usize) -> World {
    let mut world = World::new(Dimension::Overworld);
    for cx in -1..=1 {
        for cz in -1..=1 {
            world.insert_chunk(cx, cz, stone_chunk(top));
        }
    }
    world
}

#[test]
fn spawner_kinds_follow_the_draw() {
    let gen = DungeonGenerator::new();
    let mut rand = JavaRandom::new(3);
    let mut reference = JavaRandom::new(3);
    for _ in 0..100 {
        let kind = gen.gen_spawner_entity(&mut rand);
        let expected = match reference.next_int_bounded(4) {
            0 => EntityKind::Skeleton,
            3 => EntityKind::Spider,
            _ => EntityKind::Zombie,
        };
        assert_eq!(kind, expected);
    }
}

#[test]
fn chest_loot_is_from_the_table() {
    let gen = DungeonGenerator::new();
    let mut rand = JavaRandom::new(11);
    let allowed = [
        item::SADDLE, item::IRON_INGOT, item::BREAD, item::GUNPOWDER, item::STRING, item::BUCKET,
        item::GOLD_APPLE, item::REDSTONE, item::RECORD_13, item::RECORD_CAT, item::DYE,
    ];
    for _ in 0..500 {
        let stack = gen.gen_chest_stack(&mut rand);
        if !stack.is_empty() {
            assert!(allowed.contains(&stack.id));
            assert!(stack.size >= 1 && stack.size <= 4);
        }
    }
    let mut rand = JavaRandom::new(0);
    let first = JavaRandom::new(0).next_int_bounded(11);
    assert_eq!(first, 0);
    assert_eq!(gen.gen_chest_stack(&mut rand), ItemStack::new_single(item::SADDLE, 0));
}

#[test]
fn dungeon_needs_a_solid_floor() {
    let mut gen = DungeonGenerator::new();
    let mut world = World::new(Dimension::Overworld);
    world.insert_chunk(0, 0, Chunk::new());
    let mut rand = JavaRandom::new(1);
    assert!(!gen.generate(&mut world, BlockPos::new(8, 40, 8), &mut rand));
    assert_eq!(world.get_block(BlockPos::new(8, 40, 8)), Some((block::AIR, 0)));
    assert!(world.drain_events().is_empty());
}

#[test]
fn dungeon_in_solid_stone_without_opening_is_refused() {
    let mut gen = DungeonGenerator::new();
    let mut world = stone_world(100);
    let mut rand = JavaRandom::new(1);
    assert!(!gen.generate(&mut world, BlockPos::new(8, 40, 8), &mut rand));
}

#[test]
fn dungeon_with_one_opening_is_built() {
    let mut gen = DungeonGenerator::new();
    let mut world = stone_world(100);
    let pos = BlockPos::new(8, 40, 8);
    for dx in [3, 4] {
        world.set_block(BlockPos::new(8 - dx, 40, 8), block::AIR, 0);
        world.set_block(BlockPos::new(8 - dx, 41, 8), block::AIR, 0);
    }
    let mut rand = JavaRandom::new(5);
    assert!(gen.generate(&mut world, pos, &mut rand));
    assert_eq!(world.get_block(pos), Some((block::SPAWNER, 0)));
    match world.get_block_entity(pos) {
        Some(BlockEntity::Spawner(s)) => assert!(matches!(s.entity_kind, EntityKind::Skeleton | EntityKind::Zombie | EntityKind::Spider)),
        _ => panic!("no spawner"),
    }
    assert_eq!(world.get_block(BlockPos::new(9, 41, 9)), Some((block::AIR, 0)));
    let floor = world.get_block(BlockPos::new(8, 39, 8)).unwrap().0;
    assert!(floor == block::COBBLESTONE || floor == block::MOSSY_COBBLESTONE);
}

fn three_cell_mask() -> LakeMask {
    let mut mask = LakeMask::new();
    mask.fill(8, 3, 8);
    mask.fill(9, 3, 8);
    mask.fill(8, 4, 8);
    mask
}

#[test]
fn lava_lake_fills_exactly_its_mask() {
    let mut world = stone_world(70);
    let mut before = Vec::new();
    for x in -8..24 {
        for z in -8..24 {
            for y in 50..70 {
                before.push(world.get_block(BlockPos::new(x, y, z)));
            }
        }
    }
    let mut gen = LakeGenerator::new(block::LAVA_STILL);
    let base = BlockPos::new(-8, 56, -8);
    let mut rand = JavaRandom::new(1);
    assert!(gen.generate_at(&mut world, base, &three_cell_mask(), &mut rand));
    let lava = [BlockPos::new(0, 59, 0), BlockPos::new(1, 59, 0)];
    let air = BlockPos::new(0, 60, 0);
    let mut i = 0;
    for x in -8..24 {
        for z in -8..24 {
            for y in 50..70 {
                let pos = BlockPos::new(x, y, z);
                let now = world.get_block(pos);
                if lava.contains(&pos) {
                    assert_eq!(now, Some((block::LAVA_STILL, 0)));
                } else if pos == air {
                    assert_eq!(now, Some((block::AIR, 0)));
                } else {
                    assert_eq!(now, before[i], "bleed at {:?}", pos);
                }
                i += 1;
            }
        }
    }
}

#[test]
fn lake_refused_where_its_edge_leaks() {
    let mut world = stone_world(70);
    let mut gen = LakeGenerator::new(block::WATER_STILL);
    let base = BlockPos::new(-8, 56, -8);
    world.set_block(BlockPos::new(2, 59, 0), block::AIR, 0);
    let mut rand = JavaRandom::new(1);
    assert!(!gen.generate_at(&mut world, base, &three_cell_mask(), &mut rand));
    assert_eq!(world.get_block(BlockPos::new(0, 59, 0)), Some((block::STONE, 0)));
}

#[test]
fn lake_base_is_under_the_ground() {
    let world = stone_world(64);
    let gen = LakeGenerator::new(block::WATER_STILL);
    assert_eq!(gen.find_base(&world, BlockPos::new(8, 80, 8)), BlockPos::new(0, 59, 0));
    let empty = World::new(Dimension::Overworld);
    assert_eq!(gen.find_base(&empty, BlockPos::new(8, 80, 8)), BlockPos::new(0, -4, 0));
}

#[test]
fn water_lake_turns_dirt_under_air_to_grass() {
    let mut world = stone_world(70);
    world.set_block(BlockPos::new(0, 59, 0), block::DIRT, 0);
    let mut mask = LakeMask::new();
    mask.fill(8, 4, 8);
    mask.fill(8, 5, 8);
    let mut gen = LakeGenerator::new(block::WATER_STILL);
    let mut rand = JavaRandom::new(1);
    assert!(gen.generate_at(&mut world, BlockPos::new(-8, 56, -8), &mask, &mut rand));
    assert_eq!(world.get_block(BlockPos::new(0, 60, 0)), Some((block::AIR, 0)));
    assert_eq!(world.get_block(BlockPos::new(0, 59, 0)), Some((block::GRASS, 0)));
}

struct FlatGenerator;

impl ChunkGenerator for FlatGenerator {
    type Cache = u32;

    // The two models below exist for the verifier only; nothing calls them.
    fn terrain_of(&self, _cx: i32, _cz: i32) -> ChunkView {
        unreachable!()
    }

    fn populated_of(&self, _cx: i32, _cz: i32, _world: WorldView) -> WorldView {
        unreachable!()
    }

    fn generate(&self, _cx: i32, _cz: i32, chunk: &mut Chunk, cache: &mut u32) {
        *cache += 1;
        for i in 0..CHUNK_SIZE {
            if i % 128 < 60 {
                chunk.blocks[i] = block::STONE;
            }
        }
    }

    fn populate(&self, cx: i32, cz: i32, world: &mut World, _cache: &mut u32) {
        // One marker in each chunk of the group, around the group's centre.
        for (dx, dz) in [(15, 15), (16, 15), (15, 16), (16, 16)] {
            world.set_block(BlockPos::new(cx * 16 + dx, 60, cz * 16 + dz), block::GLOWSTONE, 0);
        }
    }
}

#[test]
fn loaded_chunk_is_fully_populated_and_leaves() {
    let mut source = GeneratorChunkSource::new(FlatGenerator, 0);
    assert_eq!(source.populated_mask(0, 0), 0);
    let chunk = source.load(0, 0);
    assert!(!source.is_staged(0, 0));
    assert_eq!(source.populated_mask(0, 0), 0);
    assert_eq!(chunk.blocks[0], block::STONE);
    // Each of the four groups that hold the chunk left its marker in it.
    let markers = (0..CHUNK_SIZE).filter(|&i| chunk.blocks[i] == block::GLOWSTONE).count();
    assert_eq!(markers, 4);
    assert!(source.is_staged(1, 1));
    assert_eq!(source.populated_mask(1, 1), 1);
    assert_eq!(source.populated_mask(1, 0), 1 | 4);
    assert_eq!(source.populated_mask(-1, -1), 8);
    let next = source.load(1, 0);
    assert!(!source.is_staged(1, 0));
    assert_eq!(next.blocks[0], block::STONE);
    assert_ne!(source.populated_mask(2, 0), POPULATED_ALL);
}

#[test]
fn sizes_in_hundredths() {
    assert_eq!(calc_size(EntityKind::Pig, false, 0), Size { width: 90, height: 90, centered: false });
    assert_eq!(calc_size(EntityKind::Item, false, 0), Size { width: 25, height: 25, centered: true });
    assert_eq!(calc_size(EntityKind::Human, true, 0), Size { width: 20, height: 20, centered: false });
    assert_eq!(calc_size(EntityKind::Human, false, 0), Size { width: 60, height: 180, centered: false });
    assert_eq!(calc_size(EntityKind::Slime, false, 4), Size { width: 240, height: 240, centered: false });
    assert_eq!(calc_size(EntityKind::Giant, false, 0), Size { width: 360, height: 1080, centered: false });
}

#[test]
fn lake_across_chunk_borders_changes_only_its_box() {
    let mut world = stone_world(70);
    let base = BlockPos::new(-8, 56, -8);
    let mut mask = LakeMask::new();
    for dx in 2..14 {
        for dz in 2..14 {
            mask.fill(dx, 3, dz);
        }
    }
    let mut gen = LakeGenerator::new(block::WATER_STILL);
    let mut rand = JavaRandom::new(4);
    assert!(gen.generate_at(&mut world, base, &mask, &mut rand));
    assert_eq!(world.get_block(BlockPos::new(-6, 59, -6)), Some((block::WATER_STILL, 0)));
    assert_eq!(world.get_block(BlockPos::new(5, 59, 5)), Some((block::WATER_STILL, 0)));
    assert_eq!(world.get_block(BlockPos::new(-7, 59, -7)), Some((block::STONE, 0)));
    assert_eq!(world.get_block(BlockPos::new(-6, 60, -6)), Some((block::STONE, 0)));
    assert_eq!(world.get_block(BlockPos::new(-9, 59, 0)), Some((block::STONE, 0)));
}

#[test]
fn loading_at_negative_coordinates() {
    let mut source = GeneratorChunkSource::new(FlatGenerator, 0);
    let chunk = source.load(-5, -7);
    assert!(!source.is_staged(-5, -7));
    let markers = (0..CHUNK_SIZE).filter(|&i| chunk.blocks[i] == block::GLOWSTONE).count();
    assert_eq!(markers, 4);
    assert_eq!(source.populated_mask(-4, -6), 1);
    assert_eq!(source.populated_mask(-6, -8), 8);
}
