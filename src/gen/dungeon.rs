//! Dungeon generator: a mossy room with a mob spawner and up to two loot chests.

use vstd::prelude::*;

use crate::block;
use crate::block::material_of;
use crate::block_entity::BlockEntity;
use crate::block_entity::ChestBlockEntity;
use crate::block_entity::SpawnerBlockEntity;
use crate::entity::EntityKind;
use crate::geom::BlockPos;
use crate::geom::Face;
use crate::item;
use crate::item::empty_stack;
use crate::item::ItemStack;
use crate::rand::int_bounded;
use crate::rand::JavaRandom;
use crate::world::World;

verus! {

/// A single item.
pub open spec fn one(id: u16) -> ItemStack {
    ItemStack { id, size: 1, damage: 0 }
}

/// A stack of one to four items, drawn from state `s`.
pub open spec fn some_of(s: u64, id: u16) -> (u64, ItemStack) {
    (int_bounded(s, 4).0, ItemStack { id, size: (int_bounded(s, 4).1 + 1) as u16, damage: 0 })
}

/// The state after, and the stack of, one draw of dungeon chest loot from state `s`.
pub open spec fn chest_stack_of(s: u64) -> (u64, ItemStack) {
    let (s1, c) = int_bounded(s, 11);
    if c == 0 {
        (s1, one(item::SADDLE))
    } else if c == 1 {
        some_of(s1, item::IRON_INGOT)
    } else if c == 2 || c == 3 {
        (s1, one(item::BREAD))
    } else if c == 4 {
        some_of(s1, item::GUNPOWDER)
    } else if c == 5 {
        some_of(s1, item::STRING)
    } else if c == 6 {
        (s1, one(item::BUCKET))
    } else if c == 7 {
        let (s2, v) = int_bounded(s1, 100);
        (s2, if v == 0 { one(item::GOLD_APPLE) } else { empty_stack() })
    } else if c == 8 {
        let (s2, v) = int_bounded(s1, 2);
        if v == 0 {
            some_of(s2, item::REDSTONE)
        } else {
            (s2, empty_stack())
        }
    } else if c == 9 {
        let (s2, v) = int_bounded(s1, 10);
        if v == 0 {
            let (s3, r) = int_bounded(s2, 2);
            (s3, if r == 0 { one(item::RECORD_13) } else { one(item::RECORD_CAT) })
        } else {
            (s2, empty_stack())
        }
    } else {
        (s1, ItemStack { id: item::DYE, size: 1, damage: 3 })
    }
}

/// The state after, and the kind of, a dungeon spawner drawn from state `s`:
/// skeleton one time in four, zombie two, spider one.
pub open spec fn spawner_kind_of(s: u64) -> (u64, EntityKind) {
    let (s1, v) = int_bounded(s, 4);
    (s1, if v == 0 {
        EntityKind::Skeleton
    } else if v == 3 {
        EntityKind::Spider
    } else {
        EntityKind::Zombie
    })
}

/// Whether the block at `(x, y, z)` is solid; a block that is not loaded is air.
pub open spec fn solid_at(w: World, x: int, y: int, z: int) -> bool {
    material_of(w.id_at(BlockPos { x: x as i32, y: y as i32, z: z as i32 })).spec_is_solid()
}

/// Whether the block at `(x, y, z)` is air.
pub open spec fn air_at(w: World, x: int, y: int, z: int) -> bool {
    w.id_at(BlockPos { x: x as i32, y: y as i32, z: z as i32 }) == block::AIR
}

/// Whether the floor and the ceiling of the room are solid at `(x, z)`.
pub open spec fn shell_at(w: World, start: BlockPos, end: BlockPos, x: int, z: int) -> bool {
    solid_at(w, x, start.y as int, z) && solid_at(w, x, end.y as int, z)
}

/// Whether the floor and the ceiling of the room from `start` to `end` are solid.
pub open spec fn shell_solid(w: World, start: BlockPos, end: BlockPos) -> bool {
    forall|x: int, z: int| start.x <= x <= end.x && start.z <= z <= end.z ==> #[trigger] shell_at(w, start, end, x, z)
}

/// Whether `(x, z)` is on the wall ring and open: air at the height of `pos` and above.
pub open spec fn is_opening(w: World, pos: BlockPos, start: BlockPos, end: BlockPos, x: int, z: int) -> bool {
    (x == start.x || x == end.x || z == start.z || z == end.z) && air_at(w, x, pos.y as int, z)
        && air_at(w, x, pos.y + 1, z)
}

/// The openings at `x`, for z from the room's start up to `z_end`, exclusive.
pub open spec fn row_openings(w: World, pos: BlockPos, start: BlockPos, end: BlockPos, x: int, z_end: int) -> nat
    decreases z_end - start.z,
{
    if z_end <= start.z {
        0
    } else {
        row_openings(w, pos, start, end, x, z_end - 1) + if is_opening(w, pos, start, end, x, z_end - 1) { 1nat } else { 0nat }
    }
}

/// The openings for x from the room's start up to `x_end`, exclusive.
pub open spec fn openings(w: World, pos: BlockPos, start: BlockPos, end: BlockPos, x_end: int) -> nat
    decreases x_end - start.x,
{
    if x_end <= start.x {
        0
    } else {
        openings(w, pos, start, end, x_end - 1) + row_openings(w, pos, start, end, x_end - 1, end.z + 1)
    }
}

/// The lowest corner of a dungeon's room around `pos` with radius `r`. The room spans
/// the x radius on both horizontal axes.
pub open spec fn room_start(pos: BlockPos, r: int) -> BlockPos {
    BlockPos { x: (pos.x - r - 1) as i32, y: (pos.y - 1) as i32, z: (pos.z - r - 1) as i32 }
}

/// The highest corner of a dungeon's room around `pos` with radius `r`.
pub open spec fn room_end(pos: BlockPos, r: int) -> BlockPos {
    BlockPos { x: (pos.x + r + 1) as i32, y: (pos.y + 4) as i32, z: (pos.z + r + 1) as i32 }
}

/// Whether `q` lies in the box from `start` to `end`, both included.
pub open spec fn in_box(q: BlockPos, start: BlockPos, end: BlockPos) -> bool {
    start.x <= q.x <= end.x && start.y <= q.y <= end.y && start.z <= q.z <= end.z
}

/// Whether `q` lies in the room of a dungeon of radius `r` at `pos`, walls included.
pub open spec fn in_room(q: BlockPos, pos: BlockPos, r: int) -> bool {
    in_box(q, room_start(pos, r), room_end(pos, r))
}

/// Whether `q` lies strictly inside the walls, floor and ceiling of the box from `start`
/// to `end`.
pub open spec fn in_interior(q: BlockPos, start: BlockPos, end: BlockPos) -> bool {
    start.x < q.x < end.x && start.y < q.y < end.y && start.z < q.z < end.z
}

/// Whether the interior cell `q` was carved before the carving reached `(x, y, z)`:
/// columns go by x, heights downward, then z.
pub open spec fn carved_before(q: BlockPos, x: int, y: int, z: int) -> bool {
    q.x < x || (q.x == x && q.y > y) || (q.x == x && q.y == y && q.z < z)
}

/// Whether a dungeon of radius `r` can stand at `pos`: its floor and ceiling are
/// solid, and its wall ring has one to five openings.
pub open spec fn site_ok(w: World, pos: BlockPos, r: int) -> bool {
    let start = room_start(pos, r);
    let end = room_end(pos, r);
    shell_solid(w, start, end) && 1 <= openings(w, pos, start, end, end.x + 1) <= 5
}

/// The state after, and the slots of a dungeon chest after, `n` draws of loot from
/// state `s`: each stack that is not empty goes to a slot drawn at random.
pub open spec fn chest_fill_of(s: u64, n: nat) -> (u64, Seq<ItemStack>)
    decreases n,
{
    if n == 0 {
        (s, Seq::new(27, |i: int| empty_stack()))
    } else {
        let (s1, slots) = chest_fill_of(s, (n - 1) as nat);
        let (s2, stack) = chest_stack_of(s1);
        if stack.spec_is_empty() {
            (s2, slots)
        } else {
            let (s3, slot) = int_bounded(s2, 27);
            (s3, slots.update(slot as int, stack))
        }
    }
}

proof fn lemma_chest_fill_len(s: u64, n: nat)
    ensures
        chest_fill_of(s, n).1.len() == 27,
    decreases n,
{
    if n > 0 {
        lemma_chest_fill_len(s, (n - 1) as nat);
        let s1 = chest_fill_of(s, (n - 1) as nat).0;
        let s2 = chest_stack_of(s1).0;
        crate::rand::lemma_int_bounded_range(s2, 27);
    }
}

/// A generator for mob spawner dungeons.
pub struct DungeonGenerator {}

impl DungeonGenerator {
    pub fn new() -> (r: DungeonGenerator) {
        DungeonGenerator {  }
    }

    fn some_of(rand: &mut JavaRandom, id: u16) -> (r: ItemStack)
        ensures
            (final(rand)@, r) == some_of(old(rand)@, id),
    {
        let n = rand.next_int_bounded(4);
        ItemStack::new_sized(id, 0, n as u16 + 1)
    }

    /// Draw one stack of chest loot; some draws give nothing.
    pub fn gen_chest_stack(&self, rand: &mut JavaRandom) -> (r: ItemStack)
        ensures
            (final(rand)@, r) == chest_stack_of(old(rand)@),
    {
        let c = rand.next_int_bounded(11);
        if c == 0 {
            ItemStack::new_single(item::SADDLE, 0)
        } else if c == 1 {
            Self::some_of(rand, item::IRON_INGOT)
        } else if c == 2 || c == 3 {
            ItemStack::new_single(item::BREAD, 0)
        } else if c == 4 {
            Self::some_of(rand, item::GUNPOWDER)
        } else if c == 5 {
            Self::some_of(rand, item::STRING)
        } else if c == 6 {
            ItemStack::new_single(item::BUCKET, 0)
        } else if c == 7 {
            if rand.next_int_bounded(100) == 0 {
                ItemStack::new_single(item::GOLD_APPLE, 0)
            } else {
                ItemStack::empty()
            }
        } else if c == 8 {
            if rand.next_int_bounded(2) == 0 {
                Self::some_of(rand, item::REDSTONE)
            } else {
                ItemStack::empty()
            }
        } else if c == 9 {
            if rand.next_int_bounded(10) == 0 {
                if rand.next_int_bounded(2) == 0 {
                    ItemStack::new_single(item::RECORD_13, 0)
                } else {
                    ItemStack::new_single(item::RECORD_CAT, 0)
                }
            } else {
                ItemStack::empty()
            }
        } else {
            ItemStack::new_single(item::DYE, 3)
        }
    }

    /// Draw the kind of entity that the spawner spawns.
    pub fn gen_spawner_entity(&self, rand: &mut JavaRandom) -> (r: EntityKind)
        ensures
            (final(rand)@, r) == spawner_kind_of(old(rand)@),
    {
        let v = rand.next_int_bounded(4);
        if v == 0 {
            EntityKind::Skeleton
        } else if v == 3 {
            EntityKind::Spider
        } else {
            EntityKind::Zombie
        }
    }

    /// Count the openings of the wall ring at the height of `pos`; `None` where a block
    /// of the floor or the ceiling is not solid.
    fn survey(world: &World, pos: BlockPos, start: BlockPos, end: BlockPos) -> (r: Option<usize>)
        requires
            world.wf(),
            start.near_range(),
            end.near_range(),
            start.x <= end.x,
            start.z <= end.z,
            end.x - start.x <= 8,
            end.z - start.z <= 8,
            pos.near_range(),
        ensures
            r is Some <==> shell_solid(*world, start, end),
            r matches Some(n) ==> n as int == openings(*world, pos, start, end, end.x + 1),
    {
        let mut count: usize = 0;
        let mut x = start.x;
        while x <= end.x
            invariant
                world.wf(),
                start.near_range(),
                end.near_range(),
                pos.near_range(),
                start.x <= end.x,
                start.z <= end.z,
                end.x - start.x <= 8,
                end.z - start.z <= 8,
                start.x <= x <= end.x + 1,
                count == openings(*world, pos, start, end, x as int),
                count <= (x - start.x) * 9,
                forall|xx: int, zz: int| start.x <= xx < x && start.z <= zz <= end.z ==> #[trigger] shell_at(*world, start, end, xx, zz),
            decreases end.x + 1 - x,
        {
            let mut z = start.z;
            while z <= end.z
                invariant
                    world.wf(),
                    start.near_range(),
                    end.near_range(),
                    pos.near_range(),
                    start.x <= x <= end.x,
                    start.z <= z <= end.z + 1,
                    end.x - start.x <= 8,
                    end.z - start.z <= 8,
                    count == openings(*world, pos, start, end, x as int) + row_openings(*world, pos, start, end, x as int, z as int),
                    count <= (x - start.x) * 9 + (z - start.z),
                    forall|xx: int, zz: int| start.x <= xx < x && start.z <= zz <= end.z ==> #[trigger] shell_at(*world, start, end, xx, zz),
                    forall|zz: int| start.z <= zz < z ==> #[trigger] shell_at(*world, start, end, x as int, zz),
                decreases end.z + 1 - z,
            {
                let floor = world.get_block_material(BlockPos { x, y: start.y, z }).is_solid();
                let ceiling = world.get_block_material(BlockPos { x, y: end.y, z }).is_solid();
                if !floor || !ceiling {
                    assert(!shell_at(*world, start, end, x as int, z as int));
                    return None;
                }
                let ring = x == start.x || x == end.x || z == start.z || z == end.z;
                if ring && world.is_block_air(BlockPos { x, y: pos.y, z }) && world.is_block_air(BlockPos { x, y: pos.y + 1, z }) {
                    count = count + 1;
                }
                z = z + 1;
            }
            assert(openings(*world, pos, start, end, x + 1) == openings(*world, pos, start, end, x as int)
                + row_openings(*world, pos, start, end, x as int, end.z + 1));
            x = x + 1;
        }
        Some(count)
    }

    /// Carve the room and build its cobblestone walls, mossy on the floor three times
    /// in four.
    fn carve(world: &mut World, start: BlockPos, end: BlockPos, rand: &mut JavaRandom)
        requires
            old(world).wf(),
            start.near_range(),
            end.near_range(),
            start.x <= end.x,
            start.y <= end.y,
            start.z <= end.z,
        ensures
            final(world).wf(),
            final(world).chunks_view().dom() == old(world).chunks_view().dom(),
            forall|q: BlockPos| in_interior(q, start, end) ==> #[trigger] final(world).block_at(q) == (if old(world).loaded(q) {
                Some((block::AIR, 0u8))
            } else {
                None
            }),
            forall|q: BlockPos| !in_box(q, start, end) ==> #[trigger] final(world).block_at(q) == old(world).block_at(q),
    {
        let mut x = start.x;
        while x <= end.x
            invariant
                world.wf(),
                world.chunks_view().dom() == old(world).chunks_view().dom(),
                forall|q: BlockPos| !in_box(q, start, end) ==> #[trigger] world.block_at(q) == old(world).block_at(q),
                start.near_range(),
                end.near_range(),
                start.x <= x <= end.x + 1,
                start.y <= end.y,
                start.z <= end.z,
                forall|q: BlockPos| in_interior(q, start, end) ==> #[trigger] world.block_at(q) == (if carved_before(q, x as int, end.y as int, start.z as int) && old(world).loaded(q) {
                    Some((block::AIR, 0u8))
                } else if carved_before(q, x as int, end.y as int, start.z as int) {
                    None
                } else {
                    old(world).block_at(q)
                }),
            decreases end.x + 1 - x,
        {
            let mut y = end.y;
            while y > start.y
                invariant
                    world.wf(),
                    world.chunks_view().dom() == old(world).chunks_view().dom(),
                    forall|q: BlockPos| !in_box(q, start, end) ==> #[trigger] world.block_at(q) == old(world).block_at(q),
                    start.near_range(),
                    end.near_range(),
                    start.x <= x <= end.x,
                    start.y <= y <= end.y,
                    start.z <= end.z,
                    forall|q: BlockPos| in_interior(q, start, end) ==> #[trigger] world.block_at(q) == (if carved_before(q, x as int, y - 1, start.z as int) && old(world).loaded(q) {
                        Some((block::AIR, 0u8))
                    } else if carved_before(q, x as int, y - 1, start.z as int) {
                        None
                    } else {
                        old(world).block_at(q)
                    }),
                decreases y - start.y,
            {
                y = y - 1;
                let mut z = start.z;
                while z <= end.z
                    invariant
                        world.wf(),
                        world.chunks_view().dom() == old(world).chunks_view().dom(),
                        forall|q: BlockPos| !in_box(q, start, end) ==> #[trigger] world.block_at(q) == old(world).block_at(q),
                        start.near_range(),
                        end.near_range(),
                        start.x <= x <= end.x,
                        start.y <= y < end.y,
                        start.z <= z <= end.z + 1,
                        forall|q: BlockPos| in_interior(q, start, end) ==> #[trigger] world.block_at(q) == (if carved_before(q, x as int, y as int, z as int) && old(world).loaded(q) {
                            Some((block::AIR, 0u8))
                        } else if carved_before(q, x as int, y as int, z as int) {
                            None
                        } else {
                            old(world).block_at(q)
                        }),
                    decreases end.z + 1 - z,
                {
                    let carve_pos = BlockPos { x, y, z };
                    let ghost before = *world;
                    let inside = x != start.x && y != start.y && z != start.z && x != end.x && z != end.z;
                    if inside || (y >= 0 && !world.get_block_material(BlockPos { x, y: y - 1, z }).is_solid()) {
                        world.set_block(carve_pos, block::AIR, 0);
                    } else if world.get_block_material(carve_pos).is_solid() {
                        if y == start.y && rand.next_int_bounded(4) != 0 {
                            world.set_block(carve_pos, block::MOSSY_COBBLESTONE, 0);
                        } else {
                            world.set_block(carve_pos, block::COBBLESTONE, 0);
                        }
                    }
                    proof {
                        assert(0u8 & 15u8 == 0u8) by (bit_vector);
                        assert forall|q: BlockPos| in_interior(q, start, end) && q != carve_pos implies #[trigger] world.block_at(q) == before.block_at(q) by {}
                    }
                    z = z + 1;
                }
                proof {
                    assert forall|q: BlockPos| in_interior(q, start, end) implies (carved_before(q, x as int, y as int, z as int) == carved_before(q, x as int, y - 1, start.z as int)) by {}
                }
            }
            proof {
                assert forall|q: BlockPos| in_interior(q, start, end) implies (carved_before(q, x as int, y - 1, start.z as int) == carved_before(q, x + 1, end.y as int, start.z as int)) by {}
            }
            x = x + 1;
        }
    }

    /// Fill a fresh chest with eight draws of loot, each into a slot drawn at random.
    pub fn fill_chest(&self, rand: &mut JavaRandom) -> (r: ChestBlockEntity)
        ensures
            (final(rand)@, r.inv@) == chest_fill_of(old(rand)@, 8),
    {
        let mut chest = ChestBlockEntity::new();
        let ghost start = rand@;
        assert(chest.inv@ =~= chest_fill_of(start, 0).1);
        let mut i: usize = 0;
        while i < 8
            invariant
                i <= 8,
                (rand@, chest.inv@) == chest_fill_of(start, i as nat),
            decreases 8 - i,
        {
            proof {
                lemma_chest_fill_len(start, i as nat);
            }
            let stack = self.gen_chest_stack(rand);
            if !stack.is_empty() {
                let slot = rand.next_int_bounded(crate::block_entity::CHEST_SLOTS as i32);
                chest.inv.set(slot as usize, stack);
            }
            i = i + 1;
        }
        chest
    }

    /// Try to place the two chests, three positions each, against exactly one wall.
    fn place_chests(&self, world: &mut World, pos: BlockPos, x_radius: i32, z_radius: i32, rand: &mut JavaRandom)
        requires
            old(world).wf(),
            pos.in_range(),
            2 <= x_radius <= 3,
            2 <= z_radius <= 3,
        ensures
            final(world).wf(),
            final(world).chunks_view().dom() == old(world).chunks_view().dom(),
            forall|q: BlockPos| #[trigger] final(world).block_at(q) == old(world).block_at(q) || final(world).block_at(q) == Some((block::CHEST, 0u8)),
            forall|q: BlockPos| !in_room(q, pos, x_radius as int) ==> #[trigger] final(world).block_at(q) == old(world).block_at(q),
    {
        let faces = Face::horizontal();
        let mut chest_index: usize = 0;
        while chest_index < 2
            invariant
                world.wf(),
                world.chunks_view().dom() == old(world).chunks_view().dom(),
                forall|q: BlockPos| #[trigger] world.block_at(q) == old(world).block_at(q) || world.block_at(q) == Some((block::CHEST, 0u8)),
                forall|q: BlockPos| !in_room(q, pos, x_radius as int) ==> #[trigger] world.block_at(q) == old(world).block_at(q),
                pos.in_range(),
                2 <= x_radius <= 3,
                2 <= z_radius <= 3,
                faces@.len() == 4,
            decreases 2 - chest_index,
        {
            let mut attempt: usize = 0;
            let mut placed = false;
            while attempt < 3 && !placed
                invariant
                    world.wf(),
                    world.chunks_view().dom() == old(world).chunks_view().dom(),
                    forall|q: BlockPos| #[trigger] world.block_at(q) == old(world).block_at(q) || world.block_at(q) == Some((block::CHEST, 0u8)),
                    forall|q: BlockPos| !in_room(q, pos, x_radius as int) ==> #[trigger] world.block_at(q) == old(world).block_at(q),
                    pos.in_range(),
                    2 <= x_radius <= 3,
                    2 <= z_radius <= 3,
                    faces@.len() == 4,
                decreases 3 - attempt,
            {
                let dx = rand.next_int_bounded(x_radius * 2 + 1) - x_radius;
                let dz = rand.next_int_bounded(z_radius * 2 + 1) - z_radius;
                let chest_pos = BlockPos { x: pos.x + dx, y: pos.y, z: pos.z + dz };
                if world.is_block_air(pos) {
                    let mut solid_count: usize = 0;
                    let mut f: usize = 0;
                    while f < 4
                        invariant
                            world.wf(),
                            world.chunks_view().dom() == old(world).chunks_view().dom(),
                            forall|q: BlockPos| #[trigger] world.block_at(q) == old(world).block_at(q) || world.block_at(q) == Some((block::CHEST, 0u8)),
                            forall|q: BlockPos| !in_room(q, pos, x_radius as int) ==> #[trigger] world.block_at(q) == old(world).block_at(q),
                            faces@.len() == 4,
                            -0x4000_0003 <= chest_pos.x <= 0x4000_0003,
                            -0x4000_0003 <= chest_pos.y <= 0x4000_0003,
                            -0x4000_0003 <= chest_pos.z <= 0x4000_0003,
                            solid_count <= f,
                        decreases 4 - f,
                    {
                        let (fx, fy, fz) = faces[f].delta();
                        let neighbour = BlockPos { x: chest_pos.x + fx, y: chest_pos.y + fy, z: chest_pos.z + fz };
                        if world.get_block_material(neighbour).is_solid() {
                            solid_count = solid_count + 1;
                        }
                        f = f + 1;
                    }
                    if solid_count == 1 {
                        let chest = self.fill_chest(rand);
                        world.set_block(chest_pos, block::CHEST, 0);
                        assert(0u8 & 15u8 == 0u8) by (bit_vector);
                        world.set_block_entity(chest_pos, BlockEntity::Chest(chest));
                        placed = true;
                    }
                }
                attempt = attempt + 1;
            }
            chest_index = chest_index + 1;
        }
    }

    /// Generate a dungeon around `pos`. Nothing is placed, and `false` returned, where
    /// the floor or the ceiling is not solid throughout or where the wall ring at the
    /// height of `pos` has no opening or more than five.
    pub fn generate(&mut self, world: &mut World, pos: BlockPos, rand: &mut JavaRandom) -> (r: bool)
        requires
            old(world).wf(),
            pos.in_range(),
        ensures
            final(world).wf(),
            r == site_ok(*old(world), pos, int_bounded(old(rand)@, 2).1 + 2),
            forall|q: BlockPos| !in_room(q, pos, int_bounded(old(rand)@, 2).1 + 2) ==> #[trigger] final(world).block_at(q) == old(world).block_at(q),
            r ==> forall|q: BlockPos| #![trigger final(world).block_at(q)] in_interior(q, room_start(pos, int_bounded(old(rand)@, 2).1 + 2),
                room_end(pos, int_bounded(old(rand)@, 2).1 + 2)) && old(world).loaded(q) && q != pos
                ==> final(world).block_at(q) == Some((block::AIR, 0u8)) || final(world).block_at(q) == Some((block::CHEST, 0u8)),
            !r ==> *final(world) == *old(world),
            r ==> final(world).block_at(pos) == (if old(world).loaded(pos) {
                Some((block::SPAWNER, 0u8))
            } else {
                None
            }),
            r && old(world).loaded(pos) ==> (final(world).block_entity_at(pos) matches Some(
                BlockEntity::Spawner(s),
            ) && (s.entity_kind == EntityKind::Skeleton || s.entity_kind == EntityKind::Zombie
                || s.entity_kind == EntityKind::Spider)),
    {
        let x_radius = rand.next_int_bounded(2) + 2;
        let z_radius = rand.next_int_bounded(2) + 2;
        let height: i32 = 3;
        let start = BlockPos { x: pos.x - (x_radius + 1), y: pos.y - 1, z: pos.z - (x_radius + 1) };
        let end = BlockPos { x: pos.x + x_radius + 1, y: pos.y + height + 1, z: pos.z + x_radius + 1 };
        assert(start == room_start(pos, x_radius as int));
        assert(end == room_end(pos, x_radius as int));
        let air_count = match Self::survey(world, pos, start, end) {
            Some(n) => n,
            None => return false,
        };
        if air_count < 1 || air_count > 5 {
            return false;
        }
        Self::carve(world, start, end, rand);
        self.place_chests(world, pos, x_radius, z_radius, rand);
        let kind = self.gen_spawner_entity(rand);
        world.set_block(pos, block::SPAWNER, 0);
        assert(0u8 & 15u8 == 0u8) by (bit_vector);
        world.set_block_entity(pos, BlockEntity::Spawner(SpawnerBlockEntity::new(kind)));
        true
    }
}

} // verus!
