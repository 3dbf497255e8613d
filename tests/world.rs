use mc173::block;
use mc173::block_entity::{BlockEntity, ChestBlockEntity, SpawnerBlockEntity};
use mc173::chunk::{calc_chunk_pos, calc_local_index, split_coord, Chunk};
use mc173::entity::EntityKind;
use mc173::geom::BlockPos;
use mc173::world::{Dimension, Event, Weather, World};

fn world_with_chunk() -> World {
    let mut world = World::new(Dimension::Overworld);
    world.insert_chunk(0, 0, Chunk::new());
    world
}

#[test]
fn chunk_coordinates_floor() {
    assert_eq!(split_coord(0), (0, 0));
    assert_eq!(split_coord(15), (0, 15));
    assert_eq!(split_coord(16), (1, 0));
    assert_eq!(split_coord(-1), (-1, 15));
    assert_eq!(split_coord(-16), (-1, 0));
    assert_eq!(split_coord(-17), (-2, 15));
    assert_eq!(calc_chunk_pos(BlockPos::new(-1, 70, 33)), (-1, 2));
    assert_eq!(calc_local_index(BlockPos::new(1, 2, 3)), 1 * 2048 + 3 * 128 + 2);
}

#[test]
fn blocks_read_back_and_unloaded_reads_nothing() {
    let mut world = world_with_chunk();
    let pos = BlockPos::new(3, 64, 5);
    assert_eq!(world.get_block(pos), Some((block::AIR, 0)));
    assert_eq!(world.set_block(pos, block::STONE, 0x13), Some((block::AIR, 0)));
    assert_eq!(world.get_block(pos), Some((block::STONE, 3)));
    assert_eq!(world.get_block(BlockPos::new(3, 65, 5)), Some((block::AIR, 0)));
    assert_eq!(world.get_block(BlockPos::new(16, 64, 5)), None);
    assert_eq!(world.get_block(BlockPos::new(3, 128, 5)), None);
    assert_eq!(world.get_block(BlockPos::new(3, -1, 5)), None);
    assert_eq!(world.set_block(BlockPos::new(-1, 64, 5), block::STONE, 0), None);
    assert!(world.is_block_air(BlockPos::new(-1, 64, 5)));
    assert!(world.is_block(pos, block::STONE));
    assert!(world.get_block_material(pos).is_solid());
    let events = world.drain_events();
    assert_eq!(events, vec![Event::Block { pos, id: block::STONE, metadata: 3 }]);
    assert!(world.drain_events().is_empty());
}

#[test]
fn block_entity_follows_its_block() {
    let mut world = world_with_chunk();
    let pos = BlockPos::new(1, 10, 1);
    world.set_block_entity(pos, BlockEntity::Chest(ChestBlockEntity::new()));
    assert!(world.get_block_entity(pos).is_none());
    world.set_block(pos, block::CHEST, 0);
    world.set_block_entity(pos, BlockEntity::Chest(ChestBlockEntity::new()));
    assert!(matches!(world.get_block_entity(pos), Some(BlockEntity::Chest(_))));
    world.set_block(pos, block::CHEST, 2);
    assert!(world.get_block_entity(pos).is_some());
    world.set_block(pos, block::STONE, 0);
    assert!(world.get_block_entity(pos).is_none());
    world.set_block(pos, block::SPAWNER, 0);
    world.set_block_entity(pos, BlockEntity::Spawner(SpawnerBlockEntity::new(EntityKind::Pig)));
    assert!(BlockEntity::Chest(ChestBlockEntity::new()).matches_block(block::CHEST));
    assert!(!BlockEntity::Chest(ChestBlockEntity::new()).matches_block(block::FURNACE));
}

#[test]
fn scheduling_twice_keeps_one_tick() {
    let mut world = world_with_chunk();
    let pos = BlockPos::new(0, 5, 0);
    world.schedule_tick(pos, block::BUTTON, 20);
    world.schedule_tick(pos, block::BUTTON, 5);
    world.schedule_tick(pos, block::LEVER, 3);
    for _ in 0..3 {
        assert!(world.tick().is_empty() || world.time() == 3);
    }
    assert_eq!(world.time(), 3);
    let mut due = Vec::new();
    for _ in 0..30 {
        due.extend(world.tick());
    }
    let buttons = due.iter().filter(|t| t.pos == pos && t.block == block::BUTTON).count();
    assert_eq!(buttons, 1);
}

#[test]
fn due_ticks_come_in_due_order_then_insertion_order() {
    let mut world = world_with_chunk();
    world.schedule_tick(BlockPos::new(0, 1, 0), block::WATER_MOVING, 5);
    world.schedule_tick(BlockPos::new(0, 2, 0), block::WATER_MOVING, 2);
    world.schedule_tick(BlockPos::new(0, 3, 0), block::WATER_MOVING, 5);
    world.schedule_tick(BlockPos::new(0, 4, 0), block::WATER_MOVING, 1);
    world.set_time(10);
    let due = world.drain_due_ticks();
    let heights: Vec<i32> = due.iter().map(|t| t.pos.y).collect();
    assert_eq!(heights, vec![4, 2, 1, 3]);
    assert!(world.drain_due_ticks().is_empty());
}

#[test]
fn area_blocks_go_by_height_then_z_then_x() {
    let mut world = world_with_chunk();
    world.set_block(BlockPos::new(0, 0, 1), block::STONE, 0);
    world.set_block(BlockPos::new(1, 1, 0), block::DIRT, 0);
    let blocks = world.iter_area_blocks(BlockPos::new(0, 0, 0), BlockPos::new(2, 2, 2));
    let ids: Vec<u8> = blocks.iter().map(|b| b.0).collect();
    assert_eq!(ids, vec![0, 0, block::STONE, 0, 0, block::DIRT, 0, 0]);
    let outside = world.iter_area_blocks(BlockPos::new(-2, 0, 0), BlockPos::new(-1, 2, 1));
    assert_eq!(outside, vec![(0, 0), (0, 0)]);
    assert!(world.iter_area_blocks(BlockPos::new(0, 0, 0), BlockPos::new(0, 2, 2)).is_empty());
}

#[test]
fn world_properties() {
    let mut world = World::new(Dimension::Nether);
    assert_eq!(world.dimension(), Dimension::Nether);
    assert_eq!(world.time(), 0);
    world.set_spawn_pos(BlockPos::new(1, 2, 3));
    assert_eq!(world.spawn_pos(), BlockPos::new(1, 2, 3));
    world.set_weather(Weather::Rain);
    world.set_weather(Weather::Rain);
    assert_eq!(world.weather(), Weather::Rain);
    assert_eq!(world.drain_events(), vec![Event::Weather { weather: Weather::Rain }]);
    world.insert_chunk(2, -3, Chunk::new());
    assert!(world.contains_chunk(2, -3));
    assert!(world.chunk(2, -3).is_some());
    assert!(world.remove_chunk(2, -3).is_some());
    assert!(!world.contains_chunk(2, -3));
    assert!(world.remove_chunk(2, -3).is_none());
}

#[test]
fn sky_light_reads_back() {
    let mut world = world_with_chunk();
    let pos = BlockPos::new(4, 4, 4);
    assert_eq!(world.get_sky_light(pos), Some(15));
    world.set_sky_light(pos, 0x27);
    assert_eq!(world.get_sky_light(pos), Some(7));
    assert_eq!(world.get_sky_light(BlockPos::new(40, 4, 4)), None);
}

#[test]
fn interactions_switch_blocks() {
    let mut world = world_with_chunk();
    let lever = BlockPos::new(1, 1, 1);
    world.set_block(lever, block::LEVER, 3);
    assert!(world.interact_block(lever));
    assert_eq!(world.get_block(lever), Some((block::LEVER, 11)));
    assert!(world.interact_block(lever));
    assert_eq!(world.get_block(lever), Some((block::LEVER, 3)));

    let repeater = BlockPos::new(2, 1, 1);
    world.set_block(repeater, block::REPEATER, 0b1101);
    assert!(world.interact_block(repeater));
    assert_eq!(world.get_block(repeater), Some((block::REPEATER, 0b0001)));

    let trapdoor = BlockPos::new(3, 1, 1);
    world.set_block(trapdoor, block::TRAPDOOR, 1);
    assert!(world.interact_block(trapdoor));
    assert_eq!(world.get_block(trapdoor), Some((block::TRAPDOOR, 5)));

    let button = BlockPos::new(4, 1, 1);
    world.set_block(button, block::BUTTON, 2);
    assert!(world.interact_block(button));
    assert_eq!(world.get_block(button), Some((block::BUTTON, 10)));
    world.set_time(20);
    let due = world.drain_due_ticks();
    assert_eq!(due.len(), 1);
    assert_eq!(due[0].pos, button);

    let stone = BlockPos::new(5, 1, 1);
    world.set_block(stone, block::STONE, 0);
    assert!(!world.interact_block(stone));
    assert!(!world.interact_block(BlockPos::new(50, 1, 1)));
    let iron = BlockPos::new(6, 1, 1);
    world.set_block(iron, block::IRON_DOOR, 0);
    assert!(world.interact_block(iron));
    assert_eq!(world.get_block(iron), Some((block::IRON_DOOR, 0)));
}

#[test]
fn wooden_door_opens_both_halves() {
    let mut world = world_with_chunk();
    let lower = BlockPos::new(7, 10, 7);
    let upper = BlockPos::new(7, 11, 7);
    world.set_block(lower, block::WOOD_DOOR, 1);
    world.set_block(upper, block::WOOD_DOOR, 9);
    assert!(world.interact_block(upper));
    assert_eq!(world.get_block(lower), Some((block::WOOD_DOOR, 5)));
    assert_eq!(world.get_block(upper), Some((block::WOOD_DOOR, 13)));
    assert!(world.interact_block(lower));
    assert_eq!(world.get_block(lower), Some((block::WOOD_DOOR, 1)));
    assert_eq!(world.get_block(upper), Some((block::WOOD_DOOR, 9)));
}

#[test]
fn blocks_across_negative_chunks_stay_apart() {
    let mut world = World::new(Dimension::Overworld);
    for cx in -2..=1 {
        for cz in -2..=1 {
            world.insert_chunk(cx, cz, Chunk::new());
        }
    }
    let a = BlockPos::new(-1, 10, -1);
    let b = BlockPos::new(15, 10, 15);
    let c = BlockPos::new(-17, 10, -1);
    world.set_block(a, block::STONE, 1);
    world.set_block(b, block::DIRT, 2);
    world.set_block(c, block::SAND, 3);
    assert_eq!(world.get_block(a), Some((block::STONE, 1)));
    assert_eq!(world.get_block(b), Some((block::DIRT, 2)));
    assert_eq!(world.get_block(c), Some((block::SAND, 3)));
    assert_eq!(world.get_block(BlockPos::new(-16, 10, -1)), Some((block::AIR, 0)));
    assert_eq!(world.get_block(BlockPos::new(-33, 10, -1)), None);
}
