//! Lake generator: a pool of water or lava carved into the ground.

use vstd::prelude::*;

use crate::block;
use crate::block::material_of;
use crate::geom::BlockPos;
use crate::rand::int_bounded;
use crate::rand::JavaRandom;
use crate::world::Event;
use crate::world::World;
use vstd::arithmetic::div_mod::lemma_fundamental_div_mod_converse;

verus! {

/// The number of cells of a lake's box, 16 by 8 by 16.
pub const LAKE_CELLS: usize = 2048;

/// The x offset of cell `i` in the lake's box; cells go by x, then z, then height.
pub open spec fn cell_dx(i: int) -> int {
    i / 128
}

/// The z offset of cell `i` in the lake's box.
pub open spec fn cell_dz(i: int) -> int {
    (i / 8) % 16
}

/// The height offset of cell `i` in the lake's box.
pub open spec fn cell_dy(i: int) -> int {
    i % 8
}

/// The position of cell `i` of a box whose lowest corner is `base`.
pub open spec fn cell_pos(base: BlockPos, i: int) -> BlockPos {
    base.spec_offset(cell_dx(i), cell_dy(i), cell_dz(i))
}

/// Whether cell `i` is out of the lake but touches it by a face.
pub open spec fn is_edge(fill: Seq<bool>, i: int) -> bool {
    !fill[i] && ((cell_dx(i) < 15 && fill[i + 128]) || (cell_dx(i) > 0 && fill[i - 128]) || (
    cell_dz(i) < 15 && fill[i + 8]) || (cell_dz(i) > 0 && fill[i - 8]) || (cell_dy(i) < 7 && fill[i
        + 1]) || (cell_dy(i) > 0 && fill[i - 1]))
}

/// Whether the edge cell `i` holds the lake: no fluid above the surface, and below it
/// a solid block or the lake's own fluid.
pub open spec fn edge_holds(w: World, base: BlockPos, fill: Seq<bool>, fluid: u8, i: int) -> bool {
    let id = w.id_at(cell_pos(base, i));
    !is_edge(fill, i) || (if cell_dy(i) >= 4 {
        !material_of(id).spec_is_fluid()
    } else {
        material_of(id).spec_is_solid() || id == fluid
    })
}

/// Whether every edge cell of the lake holds it.
pub open spec fn site_holds(w: World, base: BlockPos, fill: Seq<bool>, fluid: u8) -> bool {
    forall|i: int| 0 <= i < LAKE_CELLS ==> #[trigger] edge_holds(w, base, fill, fluid, i)
}

/// The block a cell of the lake gets: air above the surface, the fluid below.
pub open spec fn lake_block(fluid: u8, i: int) -> u8 {
    if cell_dy(i) >= 4 {
        block::AIR
    } else {
        fluid
    }
}

/// Whether cell `i`, where it is in the lake, holds what the lake put there.
pub open spec fn cell_placed(w: World, base: BlockPos, fill: Seq<bool>, fluid: u8, i: int) -> bool {
    fill[i] ==> w.block_at(cell_pos(base, i)) == (if w.loaded(cell_pos(base, i)) {
        Some((lake_block(fluid, i), 0u8))
    } else {
        None
    })
}

/// Whether `q` lies in the lake's box whose lowest corner is `base`.
pub open spec fn in_lake_box(q: BlockPos, base: BlockPos) -> bool {
    base.x <= q.x < base.x + 16 && base.y <= q.y < base.y + 8 && base.z <= q.z < base.z + 16
}

/// Whether `base` is the lowest corner of the lake's box for a lake asked at `pos`:
/// eight blocks back on x and z, four blocks under the first block that is not air
/// going down from `pos`, or under height zero.
pub open spec fn is_lake_base(w: World, pos: BlockPos, base: BlockPos) -> bool {
    let top = base.y + 4;
    &&& base.x == pos.x - 8
    &&& base.z == pos.z - 8
    &&& top <= pos.y
    &&& top <= 0 || w.id_at(BlockPos { x: base.x, y: top as i32, z: base.z }) != block::AIR
    &&& top >= 0 || top == pos.y
    &&& forall|y: int| top < y <= pos.y ==> #[trigger] id_in_column(w, base.x, y, base.z) == block::AIR
}

/// The block id at height `y` of the column `(x, z)`.
pub open spec fn id_in_column(w: World, x: i32, y: int, z: i32) -> u8 {
    w.id_at(BlockPos { x, y: y as i32, z })
}

pub proof fn lemma_cell_bounds(i: int)
    requires
        0 <= i < LAKE_CELLS,
    ensures
        0 <= cell_dx(i) < 16,
        0 <= cell_dz(i) < 16,
        0 <= cell_dy(i) < 8,
        i == cell_dx(i) * 128 + cell_dz(i) * 8 + cell_dy(i),
{
    assert(i == (i / 8) * 8 + i % 8) by (nonlinear_arith);
    assert(i / 8 == (i / 8 / 16) * 16 + (i / 8) % 16) by (nonlinear_arith);
    assert(i / 8 / 16 == i / 128) by (nonlinear_arith)
        requires
            0 <= i,
    ;
    assert(0 <= i / 128 < 16) by (nonlinear_arith)
        requires
            0 <= i < 2048,
    ;
}

/// Every cell of a box lies in it.
pub proof fn lemma_cell_in_box(base: BlockPos, i: int)
    requires
        base.near_range(),
        0 <= i < LAKE_CELLS,
    ensures
        in_lake_box(cell_pos(base, i), base),
{
    lemma_cell_bounds(i);
}

/// Distinct cells of one box are distinct positions.
pub proof fn lemma_cells_distinct(base: BlockPos, i: int, j: int)
    requires
        base.near_range(),
        0 <= i < LAKE_CELLS,
        0 <= j < LAKE_CELLS,
        i != j,
    ensures
        cell_pos(base, i) != cell_pos(base, j),
{
    lemma_cell_bounds(i);
    lemma_cell_bounds(j);
}

/// The cell of a lake's box.
fn cell_at(base: BlockPos, i: usize) -> (r: BlockPos)
    requires
        base.near_range(),
        i < LAKE_CELLS,
    ensures
        r == cell_pos(base, i as int),
{
    proof {
        lemma_cell_bounds(i as int);
    }
    BlockPos { x: base.x + (i / 128) as i32, y: base.y + (i % 8) as i32, z: base.z + ((i / 8) % 16) as i32 }
}

/// Only one base fits a lake asked at `pos`.
pub proof fn lemma_lake_base_unique(w: World, pos: BlockPos, a: BlockPos, b: BlockPos)
    requires
        is_lake_base(w, pos, a),
        is_lake_base(w, pos, b),
    ensures
        a == b,
{
    if a.y < b.y {
        assert(id_in_column(w, a.x, b.y + 4, a.z) == block::AIR);
    } else if b.y < a.y {
        assert(id_in_column(w, b.x, a.y + 4, b.z) == block::AIR);
    }
}

/// The block of cell `i` once the lake's cells are placed in `w`.
pub open spec fn placed_block(w: World, base: BlockPos, fill: Seq<bool>, fluid: u8, i: int) -> Option<(u8, u8)> {
    if w.loaded(cell_pos(base, i)) && fill[i] {
        Some((lake_block(fluid, i), 0u8))
    } else {
        w.block_at(cell_pos(base, i))
    }
}

/// Whether cell `i` turns to grass: dirt, once the cells are placed, right under a
/// cell of the lake above its surface that the sky lights.
pub open spec fn greens(w: World, base: BlockPos, fill: Seq<bool>, fluid: u8, i: int) -> bool {
    &&& 3 <= cell_dy(i) < 7
    &&& fill[i + 1]
    &&& placed_block(w, base, fill, fluid, i) matches Some((id, _)) && id == block::DIRT
    &&& w.sky_light_at(cell_pos(base, i + 1)) matches Some(light) && light > 0
}

/// The block of cell `i` once dirt turned to grass.
pub open spec fn grass_block(w: World, base: BlockPos, fill: Seq<bool>, fluid: u8, i: int) -> Option<(u8, u8)> {
    if greens(w, base, fill, fluid, i) {
        Some((block::GRASS, 0u8))
    } else {
        placed_block(w, base, fill, fluid, i)
    }
}

/// The generator state after the draws of the edge cells before cell `i`: a lava lake
/// draws once for each edge cell above its surface.
pub open spec fn harden_state(s: u64, fill: Seq<bool>, i: nat) -> u64
    decreases i,
{
    if i == 0 {
        s
    } else {
        let prev = harden_state(s, fill, (i - 1) as nat);
        if is_edge(fill, i - 1) && cell_dy(i - 1) >= 4 {
            int_bounded(prev, 2).0
        } else {
            prev
        }
    }
}

/// Whether a lava lake turns edge cell `i` to stone: a solid edge cell below the
/// surface, or above it where its draw is not zero.
pub open spec fn hardens(w: World, base: BlockPos, fill: Seq<bool>, fluid: u8, s: u64, i: int) -> bool {
    &&& fluid == block::LAVA_STILL || fluid == block::LAVA_MOVING
    &&& is_edge(fill, i)
    &&& cell_dy(i) < 4 || int_bounded(harden_state(s, fill, i as nat), 2).1 != 0
    &&& grass_block(w, base, fill, fluid, i) matches Some((id, _)) && material_of(id).spec_is_solid()
}

/// The block of cell `i` once the lake is generated in `w` with generator state `s`.
pub open spec fn lake_result(w: World, base: BlockPos, fill: Seq<bool>, fluid: u8, s: u64, i: int) -> Option<(u8, u8)> {
    if hardens(w, base, fill, fluid, s, i) {
        Some((block::STONE, 0u8))
    } else {
        grass_block(w, base, fill, fluid, i)
    }
}

/// The generator state once a lake of `fluid` is generated from state `s`.
pub open spec fn lake_state(fill: Seq<bool>, fluid: u8, s: u64) -> u64 {
    if fluid == block::LAVA_STILL || fluid == block::LAVA_MOVING {
        harden_state(s, fill, LAKE_CELLS as nat)
    } else {
        s
    }
}

/// Whether the events `after` are `before` followed by block events in the lake's box.
pub open spec fn events_in_box(before: Seq<Event>, after: Seq<Event>, base: BlockPos) -> bool {
    &&& before.len() <= after.len()
    &&& after.take(before.len() as int) == before
    &&& forall|k: int| before.len() <= k < after.len() ==> (#[trigger] after[k] matches Event::Block { pos, .. } && in_lake_box(pos, base))
}

/// Whether `after` differs from `before` only in the lake's box: the same chunks, sky
/// light, pending ticks and state, and outside the box the same blocks and block
/// entities, with only block events of the box added.
pub open spec fn lake_frame(before: World, after: World, base: BlockPos) -> bool {
    &&& after.wf()
    &&& after.chunks_view().dom() == before.chunks_view().dom()
    &&& forall|q: BlockPos| !in_lake_box(q, base) ==> #[trigger] after.block_at(q) == before.block_at(q)
    &&& forall|q: BlockPos| !in_lake_box(q, base) ==> #[trigger] after.block_entity_at(q) == before.block_entity_at(q)
    &&& forall|q: BlockPos| #[trigger] after.sky_light_at(q) == before.sky_light_at(q)
    &&& after.ticks() == before.ticks()
    &&& after.spec_time() == before.spec_time()
    &&& after.spec_dimension() == before.spec_dimension()
    &&& after.spec_spawn_pos() == before.spec_spawn_pos()
    &&& after.spec_weather() == before.spec_weather()
    &&& events_in_box(before.events(), after.events(), base)
}

/// Whether `after` and the state `s1` are what generating a lake in `before` from
/// state `s0` gives, with result `r`: the lake is placed exactly where its edges hold
/// it, and then every cell of its box holds its result.
pub open spec fn lake_generated(before: World, after: World, base: BlockPos, fill: Seq<bool>, fluid: u8, s0: u64, s1: u64, r: bool) -> bool {
    &&& r == site_holds(before, base, fill, fluid)
    &&& !r ==> after == before && s1 == s0
    &&& r ==> lake_frame(before, after, base)
    &&& r ==> s1 == lake_state(fill, fluid, s0)
    &&& r ==> forall|i: int| 0 <= i < LAKE_CELLS ==> #[trigger] after.block_at(cell_pos(base, i)) == lake_result(before, base, fill, fluid, s0, i)
}

/// A block set at a position of the box keeps a world within the lake's frame.
proof fn lemma_frame_step(a: World, b: World, c: World, base: BlockPos, pos: BlockPos, id: u8, m: u8)
    requires
        lake_frame(a, b, base),
        c.wf(),
        in_lake_box(pos, base),
        c.same_except_at(&b, pos),
        c.events() == b.events() || c.events() == b.events().push(Event::Block { pos, id, metadata: m }),
    ensures
        lake_frame(a, c, base),
{
    let before = a.events();
    assert(c.events().take(before.len() as int) =~= before);
    assert forall|k: int| before.len() <= k < c.events().len() implies (#[trigger] c.events()[k] matches Event::Block { pos, .. } && in_lake_box(pos, base)) by {
        if k < b.events().len() {
            assert(c.events()[k] == b.events()[k]);
        }
    }
}

/// Which cells of a lake's 16 by 8 by 16 box the lake fills.
pub struct LakeMask {
    pub cells: Vec<bool>,
}

impl LakeMask {
    pub open spec fn wf(&self) -> bool {
        self.cells@.len() == LAKE_CELLS
    }

    /// A mask that fills nothing.
    pub fn new() -> (r: LakeMask)
        ensures
            r.wf(),
            forall|i: int| 0 <= i < LAKE_CELLS ==> !r.cells@[i],
    {
        LakeMask { cells: vec![false; LAKE_CELLS] }
    }

    /// Mark the cell at offsets `dx`, `dy`, `dz` as filled.
    pub fn fill(&mut self, dx: usize, dy: usize, dz: usize)
        requires
            old(self).wf(),
            dx < 16,
            dy < 8,
            dz < 16,
        ensures
            final(self).wf(),
            final(self).cells@ == old(self).cells@.update(dx * 128 + dz * 8 + dy, true),
    {
        self.cells.set(dx * 128 + dz * 8 + dy, true);
    }

    /// Whether cell `i` is out of the lake but touches it by a face.
    pub fn is_edge(&self, i: usize) -> (r: bool)
        requires
            self.wf(),
            i < LAKE_CELLS,
        ensures
            r == is_edge(self.cells@, i as int),
    {
        proof {
            lemma_cell_bounds(i as int);
        }
        let dx = i / 128;
        let dz = (i / 8) % 16;
        let dy = i % 8;
        !self.cells[i] && ((dx < 15 && self.cells[i + 128]) || (dx > 0 && self.cells[i - 128]) || (dz
            < 15 && self.cells[i + 8]) || (dz > 0 && self.cells[i - 8]) || (dy < 7 && self.cells[i + 1])
            || (dy > 0 && self.cells[i - 1]))
    }
}

/// A generator of lakes of one fluid.
pub struct LakeGenerator {
    fluid_id: u8,
}

impl LakeGenerator {
    pub closed spec fn spec_fluid(&self) -> u8 {
        self.fluid_id
    }

    /// A lake generator for the given fluid block.
    pub fn new(fluid_id: u8) -> (r: LakeGenerator)
        ensures
            r.spec_fluid() == fluid_id,
    {
        LakeGenerator { fluid_id }
    }

    /// The lowest corner of the box of a lake asked at `pos`.
    pub fn find_base(&self, world: &World, pos: BlockPos) -> (r: BlockPos)
        requires
            world.wf(),
            pos.in_range(),
        ensures
            is_lake_base(*world, pos, r),
            r.near_range(),
    {
        let x = pos.x - 8;
        let z = pos.z - 8;
        let mut y = pos.y;
        while y > 0 && world.is_block_air(BlockPos::new(x, y, z))
            invariant
                world.wf(),
                pos.in_range(),
                x == pos.x - 8,
                z == pos.z - 8,
                y <= pos.y,
                y >= 0 || y == pos.y,
                forall|yy: int| y < yy <= pos.y ==> #[trigger] id_in_column(*world, x, yy, z) == block::AIR,
            decreases y,
        {
            y = y - 1;
        }
        BlockPos { x, y: y - 4, z }
    }

    /// Check the edges of the lake whose box starts at `base`.
    fn site_holds(&self, world: &World, base: BlockPos, fill: &LakeMask) -> (r: bool)
        requires
            world.wf(),
            base.near_range(),
            fill.wf(),
        ensures
            r == site_holds(*world, base, fill.cells@, self.fluid_id),
    {
        let mut i: usize = 0;
        while i < LAKE_CELLS
            invariant
                world.wf(),
                base.near_range(),
                fill.wf(),
                i <= LAKE_CELLS,
                forall|j: int| 0 <= j < i ==> #[trigger] edge_holds(*world, base, fill.cells@, self.fluid_id, j),
            decreases LAKE_CELLS - i,
        {
            if fill.is_edge(i) {
                let id = match world.get_block(cell_at(base, i)) {
                    Some((id, _)) => id,
                    None => block::AIR,
                };
                let material = block::material(id);
                if i % 8 >= 4 && material.is_fluid() {
                    assert(!edge_holds(*world, base, fill.cells@, self.fluid_id, i as int));
                    return false;
                } else if i % 8 < 4 && !material.is_solid() && id != self.fluid_id {
                    assert(!edge_holds(*world, base, fill.cells@, self.fluid_id, i as int));
                    return false;
                }
            }
            i = i + 1;
        }
        true
    }

    /// Place a lake whose box starts at `base`, filling the cells that `fill` marks, where
    /// its edges hold it; `false`, and nothing placed, where they do not. Above the
    /// surface the lake is air, and dirt under that air turns to grass where the sky
    /// reaches; a lava lake turns solid edge blocks to stone, those above the surface
    /// one time in two.
    pub fn generate_at(&mut self, world: &mut World, base: BlockPos, fill: &LakeMask, rand: &mut JavaRandom) -> (r: bool)
        requires
            old(world).wf(),
            base.near_range(),
            fill.wf(),
        ensures
            final(world).wf(),
            lake_generated(*old(world), *final(world), base, fill.cells@, old(self).spec_fluid(), old(rand)@, final(rand)@, r),
    {
        if !self.site_holds(world, base, fill) {
            return false;
        }
        let ghost w0 = *world;
        let ghost s0 = rand@;
        self.place(world, base, fill);
        self.grow_grass(world, base, fill, Ghost(w0));
        if self.fluid_id == block::LAVA_STILL || self.fluid_id == block::LAVA_MOVING {
            self.harden_edges(world, base, fill, rand, Ghost(w0));
        } else {
            assert forall|i: int| 0 <= i < LAKE_CELLS implies #[trigger] world.block_at(cell_pos(base, i)) == lake_result(w0, base, fill.cells@, self.fluid_id, s0, i) by {
                assert(world.block_at(cell_pos(base, i)) == grass_block(w0, base, fill.cells@, self.fluid_id, i));
            }
        }
        true
    }

    /// Generate a lake asked at `pos`, over the cells that `fill` marks.
    pub fn generate(&mut self, world: &mut World, pos: BlockPos, fill: &LakeMask, rand: &mut JavaRandom) -> (r: bool)
        requires
            old(world).wf(),
            pos.in_range(),
            fill.wf(),
        ensures
            final(world).wf(),
            exists|base: BlockPos| #[trigger] is_lake_base(*old(world), pos, base) && base.near_range()
                && lake_generated(*old(world), *final(world), base, fill.cells@, old(self).spec_fluid(), old(rand)@, final(rand)@, r),
    {
        let base = self.find_base(world, pos);
        self.generate_at(world, base, fill, rand)
    }

    fn place(&self, world: &mut World, base: BlockPos, fill: &LakeMask)
        requires
            old(world).wf(),
            base.near_range(),
            fill.wf(),
        ensures
            lake_frame(*old(world), *final(world), base),
            forall|j: int| 0 <= j < LAKE_CELLS ==> #[trigger] final(world).block_at(cell_pos(base, j)) == placed_block(*old(world), base, fill.cells@, self.fluid_id, j),
    {
        let mut i: usize = 0;
        assert(old(world).events().take(old(world).events().len() as int) =~= old(world).events());
        while i < LAKE_CELLS
            invariant
                base.near_range(),
                fill.wf(),
                i <= LAKE_CELLS,
                lake_frame(*old(world), *world, base),
                forall|j: int| 0 <= j < LAKE_CELLS ==> #[trigger] world.block_at(cell_pos(base, j)) == if j < i {
                    placed_block(*old(world), base, fill.cells@, self.fluid_id, j)
                } else {
                    old(world).block_at(cell_pos(base, j))
                },
            decreases LAKE_CELLS - i,
        {
            if fill.cells[i] {
                let id = if i % 8 >= 4 { block::AIR } else { self.fluid_id };
                let before = Ghost(*world);
                let p = cell_at(base, i);
                world.set_block(p, id, 0);
                proof {
                    assert(0u8 & 15u8 == 0u8) by (bit_vector);
                    lemma_cell_in_box(base, i as int);
                    lemma_frame_step(*old(world), before@, *world, base, p, id, 0u8 & 15u8);
                    assert forall|j: int| 0 <= j < LAKE_CELLS implies #[trigger] world.block_at(cell_pos(base, j)) == if j < i + 1 {
                        placed_block(*old(world), base, fill.cells@, self.fluid_id, j)
                    } else {
                        old(world).block_at(cell_pos(base, j))
                    } by {
                        if j != i {
                            lemma_cells_distinct(base, i as int, j);
                        }
                    }
                }
            }
            i = i + 1;
        }
    }

    fn grow_grass(&self, world: &mut World, base: BlockPos, fill: &LakeMask, w0: Ghost<World>)
        requires
            old(world).wf(),
            base.near_range(),
            fill.wf(),
            lake_frame(w0@, *old(world), base),
            forall|j: int| 0 <= j < LAKE_CELLS ==> #[trigger] old(world).block_at(cell_pos(base, j)) == placed_block(w0@, base, fill.cells@, self.fluid_id, j),
        ensures
            lake_frame(w0@, *final(world), base),
            forall|j: int| 0 <= j < LAKE_CELLS ==> #[trigger] final(world).block_at(cell_pos(base, j)) == grass_block(w0@, base, fill.cells@, self.fluid_id, j),
    {
        let mut i: usize = 0;
        while i < LAKE_CELLS
            invariant
                base.near_range(),
                fill.wf(),
                i <= LAKE_CELLS,
                lake_frame(w0@, *world, base),
                forall|j: int| 0 <= j < LAKE_CELLS ==> #[trigger] world.block_at(cell_pos(base, j)) == if j + 1 < i {
                    grass_block(w0@, base, fill.cells@, self.fluid_id, j)
                } else {
                    placed_block(w0@, base, fill.cells@, self.fluid_id, j)
                },
            decreases LAKE_CELLS - i,
        {
            proof {
                lemma_cell_bounds(i as int);
                if i > 0 {
                    lemma_cell_bounds(i - 1);
                    lemma_cell_in_box(base, i - 1);
                    lemma_cell_in_box(base, i as int);
                }
            }
            if i % 8 >= 4 && fill.cells[i] {
                let check_pos = cell_at(base, i - 1);
                if world.is_block(check_pos, block::DIRT) {
                    let lit = match world.get_sky_light(cell_at(base, i)) {
                        Some(light) => light > 0,
                        None => false,
                    };
                    if lit {
                        let before = Ghost(*world);
                        world.set_block(check_pos, block::GRASS, 0);
                        proof {
                            assert(0u8 & 15u8 == 0u8) by (bit_vector);
                            lemma_frame_step(w0@, before@, *world, base, check_pos, block::GRASS, 0u8 & 15u8);
                            assert forall|j: int| 0 <= j < LAKE_CELLS && j != i - 1 implies #[trigger] world.block_at(cell_pos(base, j)) == before@.block_at(cell_pos(base, j)) by {
                                lemma_cells_distinct(base, i - 1, j);
                            }
                        }
                    }
                }
            }
            proof {
                if i > 0 {
                    assert(greens(w0@, base, fill.cells@, self.fluid_id, i - 1) ==> i % 8 >= 4 && fill.cells@[i as int]);
                }
            }
            i = i + 1;
        }
    }

    fn harden_edges(&self, world: &mut World, base: BlockPos, fill: &LakeMask, rand: &mut JavaRandom, w0: Ghost<World>)
        requires
            old(world).wf(),
            base.near_range(),
            fill.wf(),
            lake_frame(w0@, *old(world), base),
            forall|j: int| 0 <= j < LAKE_CELLS ==> #[trigger] old(world).block_at(cell_pos(base, j)) == grass_block(w0@, base, fill.cells@, self.fluid_id, j),
            self.fluid_id == block::LAVA_STILL || self.fluid_id == block::LAVA_MOVING,
        ensures
            lake_frame(w0@, *final(world), base),
            final(rand)@ == harden_state(old(rand)@, fill.cells@, LAKE_CELLS as nat),
            forall|j: int| 0 <= j < LAKE_CELLS ==> #[trigger] final(world).block_at(cell_pos(base, j)) == lake_result(w0@, base, fill.cells@, self.fluid_id, old(rand)@, j),
    {
        let ghost s0 = rand@;
        let mut i: usize = 0;
        while i < LAKE_CELLS
            invariant
                base.near_range(),
                fill.wf(),
                i <= LAKE_CELLS,
                self.fluid_id == block::LAVA_STILL || self.fluid_id == block::LAVA_MOVING,
                lake_frame(w0@, *world, base),
                rand@ == harden_state(s0, fill.cells@, i as nat),
                forall|j: int| 0 <= j < LAKE_CELLS ==> #[trigger] world.block_at(cell_pos(base, j)) == if j < i {
                    lake_result(w0@, base, fill.cells@, self.fluid_id, s0, j)
                } else {
                    grass_block(w0@, base, fill.cells@, self.fluid_id, j)
                },
            decreases LAKE_CELLS - i,
        {
            proof {
                lemma_cell_bounds(i as int);
                lemma_cell_in_box(base, i as int);
            }
            let edge = fill.is_edge(i);
            let chosen = edge && (i % 8 < 4 || rand.next_int_bounded(2) != 0);
            assert(rand@ == harden_state(s0, fill.cells@, (i + 1) as nat));
            if chosen {
                let place_pos = cell_at(base, i);
                if world.get_block_material(place_pos).is_solid() {
                    let before = Ghost(*world);
                    world.set_block(place_pos, block::STONE, 0);
                    proof {
                        assert(0u8 & 15u8 == 0u8) by (bit_vector);
                        lemma_frame_step(w0@, before@, *world, base, place_pos, block::STONE, 0u8 & 15u8);
                        assert forall|j: int| 0 <= j < LAKE_CELLS && j != i implies #[trigger] world.block_at(cell_pos(base, j)) == before@.block_at(cell_pos(base, j)) by {
                            lemma_cells_distinct(base, i as int, j);
                        }
                    }
                }
            }
            i = i + 1;
        }
    }
}

} // verus!
