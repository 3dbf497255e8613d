//! The generating chunk source: terrain first, then population of each 2 by 2 group of
//! chunks, a chunk being handed out once the four groups that hold it are populated.

use vstd::prelude::*;
use std::collections::HashMap;

use crate::chunk::calc_chunk_key;
use crate::chunk::chunk_key;
use crate::chunk::lemma_chunk_key_injective;
use crate::chunk::fresh_chunk_view;
use crate::chunk::Chunk;
use crate::chunk::ChunkView;
use crate::world::Dimension;
use crate::world::World;
use crate::world::WorldView;

verus! {

broadcast use vstd::std_specs::hash::group_hash_axioms;

/// The group with the chunk at its positive x and positive z corner is populated.
pub const POPULATED_NEG_NEG: u8 = 1;
/// The group with the chunk at its negative x and positive z corner is populated.
pub const POPULATED_POS_NEG: u8 = 2;
/// The group with the chunk at its positive x and negative z corner is populated.
pub const POPULATED_NEG_POS: u8 = 4;
/// The group with the chunk at its negative x and negative z corner is populated.
pub const POPULATED_POS_POS: u8 = 8;
/// All four groups holding the chunk are populated.
pub const POPULATED_ALL: u8 = 15;
pub const POPULATED_NEG_X: u8 = 5;
pub const POPULATED_POS_X: u8 = 10;
pub const POPULATED_NEG_Z: u8 = 3;
pub const POPULATED_POS_Z: u8 = 12;

/// A generator of chunks in two phases: the terrain of one chunk, then the features
/// of a 2 by 2 group of chunks, written into a world that holds the group.
pub trait ChunkGenerator {
    /// Scratch state that one worker owns and hands to each call, such as noise
    /// buffers; what the calls produce does not depend on it.
    type Cache;

    /// The terrain of the chunk `(cx, cz)`; it depends on the coordinates alone.
    spec fn terrain_of(&self, cx: i32, cz: i32) -> ChunkView;

    /// The world `world` once the group whose lowest chunk is `(cx, cz)` is populated.
    spec fn populated_of(&self, cx: i32, cz: i32, world: WorldView) -> WorldView;

    /// Generate the terrain of the chunk `(cx, cz)` into a new chunk; terrain has no
    /// block entities.
    fn generate(&self, cx: i32, cz: i32, chunk: &mut Chunk, cache: &mut Self::Cache)
        requires
            old(chunk).wf(),
            old(chunk)@ == fresh_chunk_view(),
        ensures
            final(chunk).wf(),
            final(chunk)@ == self.terrain_of(cx, cz),
            final(chunk).block_entities@.is_empty(),
    ;

    /// Populate the group whose lowest chunk is `(cx, cz)`; the world holds the group
    /// and keeps the chunks it holds.
    fn populate(&self, cx: i32, cz: i32, world: &mut World, cache: &mut Self::Cache)
        requires
            old(world).wf(),
        ensures
            final(world).wf(),
            final(world)@ == self.populated_of(cx, cz, old(world)@),
            final(world).chunks_view().dom() == old(world).chunks_view().dom(),
    ;
}

/// The chunks whose terrain a load of `(cx, cz)` makes ready, from `x0` to `x1` and `z0`
/// to `z1`, all included: the chunk's neighbours on each side where a group on that
/// side still waits, by the population mask `m` of the chunk.
pub open spec fn load_rect(m: u8, cx: int, cz: int) -> (int, int, int, int) {
    (
        if m & POPULATED_NEG_X != POPULATED_NEG_X { cx - 1 } else { cx },
        if m & POPULATED_POS_X != POPULATED_POS_X { cx + 1 } else { cx },
        if m & POPULATED_NEG_Z != POPULATED_NEG_Z { cz - 1 } else { cz },
        if m & POPULATED_POS_Z != POPULATED_POS_Z { cz + 1 } else { cz },
    )
}

/// The world `w` with the terrain of the chunk `(x, z)` added where it lacks the chunk.
pub open spec fn stage_one<G: ChunkGenerator>(gen: G, w: WorldView, x: int, z: int) -> WorldView {
    if w.chunks.contains_key(chunk_key(x, z)) {
        w
    } else {
        w.with_chunks(w.chunks.insert(chunk_key(x, z), gen.terrain_of(x as i32, z as i32)))
    }
}

/// The world `w` with the terrain of the chunks `(x, z0)` up to `(x, z1)`, exclusive,
/// added in that order.
pub open spec fn stage_column<G: ChunkGenerator>(gen: G, w: WorldView, x: int, z0: int, z1: int) -> WorldView
    decreases z1 - z0,
{
    if z1 <= z0 {
        w
    } else {
        stage_one(gen, stage_column(gen, w, x, z0, z1 - 1), x, z1 - 1)
    }
}

/// The world `w` with the terrain of the columns `x0` up to `x1`, exclusive, added.
pub open spec fn stage_rect<G: ChunkGenerator>(gen: G, w: WorldView, x0: int, x1: int, z0: int, z1: int) -> WorldView
    decreases x1 - x0,
{
    if x1 <= x0 {
        w
    } else {
        stage_column(gen, stage_rect(gen, w, x0, x1 - 1, z0, z1), x1 - 1, z0, z1)
    }
}

/// The world `w` once the groups `(x, z0)` up to `(x, z1)`, exclusive, are populated
/// in that order.
pub open spec fn populate_column<G: ChunkGenerator>(gen: G, w: WorldView, x: int, z0: int, z1: int) -> WorldView
    decreases z1 - z0,
{
    if z1 <= z0 {
        w
    } else {
        gen.populated_of(x as i32, (z1 - 1) as i32, populate_column(gen, w, x, z0, z1 - 1))
    }
}

/// The world `w` once the groups of the columns `x0` up to `x1`, exclusive, are
/// populated, column by column.
pub open spec fn populate_rect<G: ChunkGenerator>(gen: G, w: WorldView, x0: int, x1: int, z0: int, z1: int) -> WorldView
    decreases x1 - x0,
{
    if x1 <= x0 {
        w
    } else {
        populate_column(gen, populate_rect(gen, w, x0, x1 - 1, z0, z1), x1 - 1, z0, z1)
    }
}

/// The group, by its lowest chunk, that the bit `bit` of chunk `(a, b)` stands for.
pub open spec fn bit_group(a: int, b: int, bit: u8) -> (int, int) {
    if bit == POPULATED_NEG_NEG {
        (a - 1, b - 1)
    } else if bit == POPULATED_POS_NEG {
        (a, b - 1)
    } else if bit == POPULATED_NEG_POS {
        (a - 1, b)
    } else {
        (a, b)
    }
}

/// Each bit set in the mask of chunk `(a, b)` stands for a group that was populated.
pub open spec fn bits_sound(mask: u8, a: int, b: int, ran: Set<(int, int)>) -> bool {
    &&& mask & 1 != 0 ==> ran.contains((a - 1, b - 1))
    &&& mask & 2 != 0 ==> ran.contains((a, b - 1))
    &&& mask & 4 != 0 ==> ran.contains((a - 1, b))
    &&& mask & 8 != 0 ==> ran.contains((a, b))
}

/// Whether the four groups that hold the chunk `(cx, cz)` were populated.
pub open spec fn fully_populated(ran: Set<(int, int)>, cx: int, cz: int) -> bool {
    &&& ran.contains((cx - 1, cz - 1))
    &&& ran.contains((cx, cz - 1))
    &&& ran.contains((cx - 1, cz))
    &&& ran.contains((cx, cz))
}

proof fn lemma_or_bit(m: u8, bit: u8)
    ensures
        ((m | bit) & 1 != 0) == (m & 1 != 0 || bit & 1 != 0),
        ((m | bit) & 2 != 0) == (m & 2 != 0 || bit & 2 != 0),
        ((m | bit) & 4 != 0) == (m & 4 != 0 || bit & 4 != 0),
        ((m | bit) & 8 != 0) == (m & 8 != 0 || bit & 8 != 0),
{
    assert(((m | bit) & 1 != 0) == (m & 1 != 0 || bit & 1 != 0)) by (bit_vector);
    assert(((m | bit) & 2 != 0) == (m & 2 != 0 || bit & 2 != 0)) by (bit_vector);
    assert(((m | bit) & 4 != 0) == (m & 4 != 0 || bit & 4 != 0)) by (bit_vector);
    assert(((m | bit) & 8 != 0) == (m & 8 != 0 || bit & 8 != 0)) by (bit_vector);
}

proof fn lemma_side_bits(m: u8)
    ensures
        m & 1 == 0 ==> m & 5 != 5 && m & 3 != 3,
        m & 2 == 0 ==> m & 10 != 10 && m & 3 != 3,
        m & 4 == 0 ==> m & 5 != 5 && m & 12 != 12,
        m & 8 == 0 ==> m & 10 != 10 && m & 12 != 12,
{
    assert(m & 1 == 0 ==> m & 5 != 5 && m & 3 != 3) by (bit_vector);
    assert(m & 2 == 0 ==> m & 10 != 10 && m & 3 != 3) by (bit_vector);
    assert(m & 4 == 0 ==> m & 5 != 5 && m & 12 != 12) by (bit_vector);
    assert(m & 8 == 0 ==> m & 10 != 10 && m & 12 != 12) by (bit_vector);
}

/// A copy of a chunk's blocks, metadata and light, without block entities.
fn terrain_copy(chunk: &Chunk) -> (r: Chunk)
    requires
        chunk.wf(),
        chunk.block_entities@.is_empty(),
    ensures
        r.wf(),
        r@ == chunk@,
{
    let r = Chunk {
        blocks: chunk.blocks.clone(),
        metadata: chunk.metadata.clone(),
        sky_light: chunk.sky_light.clone(),
        block_entities: HashMap::new(),
    };
    assert(r.blocks@ =~= chunk.blocks@);
    assert(r.metadata@ =~= chunk.metadata@);
    assert(r.sky_light@ =~= chunk.sky_light@);
    assert(r.block_entities@ =~= chunk.block_entities@);
    r
}

/// A chunk source that generates chunks.
pub struct GeneratorChunkSource<G: ChunkGenerator> {
    generator: G,
    /// The generator's scratch state, owned by this source.
    cache: G::Cache,
    /// Chunks with only their terrain generated, by key.
    terrain: HashMap<u64, Chunk>,
    /// The world where chunks wait, between terrain and full population.
    world: World,
    /// The population mask of each chunk of the world, by key.
    populated: HashMap<u64, u8>,
    /// The groups populated so far, by lowest chunk.
    ran: Ghost<Set<(int, int)>>,
}

impl<G: ChunkGenerator> GeneratorChunkSource<G> {
    /// The population mask of the chunk `(cx, cz)`; zero where it is not waiting.
    pub closed spec fn mask(&self, cx: int, cz: int) -> u8 {
        if self.populated@.contains_key(chunk_key(cx, cz)) {
            self.populated@[chunk_key(cx, cz)]
        } else {
            0
        }
    }

    /// Whether the chunk `(cx, cz)` waits in the internal world.
    pub closed spec fn staged(&self, cx: int, cz: int) -> bool {
        self.world.chunks_view().contains_key(chunk_key(cx, cz))
    }

    /// The groups populated so far, by lowest chunk.
    pub closed spec fn ran(&self) -> Set<(int, int)> {
        self.ran@
    }

    /// The world where chunks wait, between terrain and full population.
    pub closed spec fn staging(&self) -> WorldView {
        self.world@
    }

    /// The generator.
    pub closed spec fn generator(&self) -> G {
        self.generator
    }

    pub closed spec fn wf(&self) -> bool {
        &&& self.world.wf()
        &&& self.populated@.dom() == self.world.chunks_view().dom()
        &&& forall|k: u64| #[trigger] self.terrain@.contains_key(k) ==> self.terrain@[k].wf()
        &&& forall|a: i32, b: i32| #[trigger] self.terrain@.contains_key(chunk_key(a as int, b as int))
            ==> self.terrain@[chunk_key(a as int, b as int)]@ == self.generator.terrain_of(a, b)
                && self.terrain@[chunk_key(a as int, b as int)].block_entities@.is_empty()
        &&& forall|a: i32, b: i32| #[trigger] self.populated@.contains_key(chunk_key(a as int, b as int))
            ==> bits_sound(self.populated@[chunk_key(a as int, b as int)], a as int, b as int, self.ran@)
    }

    /// A source with nothing generated yet.
    pub fn new(generator: G, cache: G::Cache) -> (r: Self)
        ensures
            r.wf(),
            r.ran().is_empty(),
            r.generator() == generator,
            r.staging().chunks.is_empty(),
            forall|cx: int, cz: int| !r.staged(cx, cz) && r.mask(cx, cz) == 0,
    {
        GeneratorChunkSource {
            generator,
            cache,
            terrain: HashMap::new(),
            world: World::new(Dimension::Overworld),
            populated: HashMap::new(),
            ran: Ghost(Set::empty()),
        }
    }

    /// The population mask of the chunk `(cx, cz)`; zero where it is not waiting.
    pub fn populated_mask(&self, cx: i32, cz: i32) -> (r: u8)
        ensures
            r == self.mask(cx as int, cz as int),
    {
        let key = calc_chunk_key(cx, cz);
        match self.populated.get(&key) {
            Some(m) => *m,
            None => 0,
        }
    }

    /// Whether the chunk `(cx, cz)` waits in the internal world.
    pub fn is_staged(&self, cx: i32, cz: i32) -> (r: bool)
        ensures
            r == self.staged(cx as int, cz as int),
    {
        self.world.contains_chunk(cx, cz)
    }

    /// Make sure the chunk `(cx, cz)` waits in the internal world, with its terrain
    /// taken from the terrain chunks, generated and kept there where missing.
    fn stage_terrain(&mut self, cx: i32, cz: i32)
        requires
            old(self).wf(),
        ensures
            final(self).wf(),
            final(self).staged(cx as int, cz as int),
            final(self).ran() == old(self).ran(),
            final(self).generator() == old(self).generator(),
            final(self).staging() == stage_one(old(self).generator(), old(self).staging(), cx as int, cz as int),
            forall|a: int, b: int| old(self).staged(a, b) ==> #[trigger] final(self).staged(a, b),
            forall|a: int, b: int| old(self).staged(a, b) ==> #[trigger] final(self).mask(a, b) == old(self).mask(a, b),
    {
        if self.world.contains_chunk(cx, cz) {
            return;
        }
        let key = calc_chunk_key(cx, cz);
        let chunk = match self.terrain.get(&key) {
            Some(cached) => terrain_copy(cached),
            None => {
                let mut fresh = Chunk::new();
                self.generator.generate(cx, cz, &mut fresh, &mut self.cache);
                let copy = terrain_copy(&fresh);
                self.terrain.insert(key, fresh);
                copy
            },
        };
        assert(chunk@ == self.generator.terrain_of(cx, cz));
        self.world.insert_chunk(cx, cz, chunk);
        self.populated.insert(key, 0);
        proof {
            assert forall|k: u64| #[trigger] self.terrain@.contains_key(k) implies self.terrain@[k].wf() by {
                if k != key {
                    assert(old(self).terrain@.contains_key(k));
                }
            }
            assert forall|a: i32, b: i32| #[trigger] self.terrain@.contains_key(chunk_key(a as int, b as int))
                implies self.terrain@[chunk_key(a as int, b as int)]@ == self.generator.terrain_of(a, b)
                    && self.terrain@[chunk_key(a as int, b as int)].block_entities@.is_empty() by {
                if chunk_key(a as int, b as int) == key {
                    lemma_chunk_key_injective(a as int, b as int, cx as int, cz as int);
                } else {
                    assert(old(self).terrain@.contains_key(chunk_key(a as int, b as int)));
                }
            }
            assert forall|a: i32, b: i32| #[trigger] self.populated@.contains_key(chunk_key(a as int, b as int))
                implies bits_sound(self.populated@[chunk_key(a as int, b as int)], a as int, b as int, self.ran@) by {
                if chunk_key(a as int, b as int) == key {
                    assert(0u8 & 1 == 0 && 0u8 & 2 == 0 && 0u8 & 4 == 0 && 0u8 & 8 == 0) by (bit_vector);
                } else {
                    assert(old(self).populated@.contains_key(chunk_key(a as int, b as int)));
                }
            }
            assert(self.populated@.dom() =~= self.world.chunks_view().dom());
            assert forall|a: int, b: int| old(self).staged(a, b) implies #[trigger] self.mask(a, b) == old(self).mask(a, b) by {
                assert(chunk_key(a, b) != key);
            }
        }
    }

    /// Set the bit `bit` in the mask of the waiting chunk `(cx, cz)`.
    fn mark(&mut self, cx: i32, cz: i32, bit: u8)
        requires
            old(self).wf(),
            old(self).staged(cx as int, cz as int),
            bit == POPULATED_NEG_NEG || bit == POPULATED_POS_NEG || bit == POPULATED_NEG_POS || bit == POPULATED_POS_POS,
            old(self).ran().contains(bit_group(cx as int, cz as int, bit)),
        ensures
            final(self).wf(),
            final(self).ran() == old(self).ran(),
            final(self).staging() == old(self).staging(),
            final(self).generator() == old(self).generator(),
            forall|a: int, b: int| #[trigger] final(self).staged(a, b) == old(self).staged(a, b),
    {
        let key = calc_chunk_key(cx, cz);
        let m = match self.populated.get(&key) {
            Some(m) => *m,
            None => 0,
        };
        self.populated.insert(key, m | bit);
        proof {
            lemma_or_bit(m, bit);
            assert(bit & 2 != 0 ==> bit == 2) by (bit_vector)
                requires
                    bit == 1 || bit == 2 || bit == 4 || bit == 8,
            ;
            assert(bit & 4 != 0 ==> bit == 4) by (bit_vector)
                requires
                    bit == 1 || bit == 2 || bit == 4 || bit == 8,
            ;
            assert(bit & 8 != 0 ==> bit == 8) by (bit_vector)
                requires
                    bit == 1 || bit == 2 || bit == 4 || bit == 8,
            ;
            assert(bit & 1 != 0 ==> bit == 1) by (bit_vector)
                requires
                    bit == 1 || bit == 2 || bit == 4 || bit == 8,
            ;
            assert forall|a: i32, b: i32| #[trigger] self.populated@.contains_key(chunk_key(a as int, b as int))
                implies bits_sound(self.populated@[chunk_key(a as int, b as int)], a as int, b as int, self.ran@) by {
                assert(old(self).populated@.contains_key(chunk_key(a as int, b as int)));
                if chunk_key(a as int, b as int) == key {
                    lemma_chunk_key_injective(a as int, b as int, cx as int, cz as int);
                    assert(old(self).populated@.contains_key(chunk_key(cx as int, cz as int)));
                }
            }
            assert(self.populated@.dom() =~= self.world.chunks_view().dom());
        }
    }

    /// Hand out the chunk `(cx, cz)`, fully populated: the terrain of its neighbours
    /// is made ready where a group holding it still waits for population, each such
    /// group is populated, and the chunk leaves the internal world.
    pub fn load(&mut self, cx: i32, cz: i32) -> (r: Chunk)
        requires
            old(self).wf(),
            old(self).mask(cx as int, cz as int) != POPULATED_ALL,
            i32::MIN < cx < i32::MAX,
            i32::MIN < cz < i32::MAX,
        ensures
            final(self).wf(),
            r.wf(),
            fully_populated(final(self).ran(), cx as int, cz as int),
            old(self).ran().subset_of(final(self).ran()),
            !final(self).staged(cx as int, cz as int),
            final(self).mask(cx as int, cz as int) == 0,
            final(self).generator() == old(self).generator(),
            ({
                let (x0, x1, z0, z1) = load_rect(old(self).mask(cx as int, cz as int), cx as int, cz as int);
                let staged = stage_rect(old(self).generator(), old(self).staging(), x0, x1 + 1, z0, z1 + 1);
                let done = populate_rect(old(self).generator(), staged, x0, x1, z0, z1);
                &&& r@ == done.chunks[chunk_key(cx as int, cz as int)]
                &&& final(self).staging() == done.with_chunks(done.chunks.remove(chunk_key(cx as int, cz as int)))
            }),
    {
        let key = calc_chunk_key(cx, cz);
        let populated = match self.populated.get(&key) {
            Some(m) => *m,
            None => 0,
        };
        let ghost start_ran = self.ran@;
        let ghost start = self.staging();
        let ghost gen = self.generator();
        proof {
            lemma_side_bits(populated);
            if self.populated@.contains_key(key) {
                assert(bits_sound(populated, cx as int, cz as int, start_ran));
            } else {
                assert(0u8 & 1 == 0 && 0u8 & 2 == 0 && 0u8 & 4 == 0 && 0u8 & 8 == 0) by (bit_vector);
            }
        }
        let mut min_cx = cx;
        let mut min_cz = cz;
        let mut max_cx = cx;
        let mut max_cz = cz;
        if populated & POPULATED_NEG_X != POPULATED_NEG_X {
            min_cx = min_cx - 1;
        }
        if populated & POPULATED_POS_X != POPULATED_POS_X {
            max_cx = max_cx + 1;
        }
        if populated & POPULATED_NEG_Z != POPULATED_NEG_Z {
            min_cz = min_cz - 1;
        }
        if populated & POPULATED_POS_Z != POPULATED_POS_Z {
            max_cz = max_cz + 1;
        }
        let mut tx: i64 = min_cx as i64;
        while tx <= max_cx as i64
            invariant
                self.wf(),
                self.ran() == start_ran,
                min_cx <= tx <= max_cx + 1,
                min_cx == cx || min_cx == cx - 1,
                max_cx == cx || max_cx == cx + 1,
                min_cz == cz || min_cz == cz - 1,
                max_cz == cz || max_cz == cz + 1,
                i32::MIN < cx < i32::MAX,
                i32::MIN < cz < i32::MAX,
                forall|a: int, b: int| min_cx <= a < tx && min_cz <= b <= max_cz ==> #[trigger] self.staged(a, b),
                self.generator() == gen,
                self.staging() == stage_rect(gen, start, min_cx as int, tx as int, min_cz as int, max_cz + 1),
            decreases max_cx + 1 - tx,
        {
            let mut tz: i64 = min_cz as i64;
            while tz <= max_cz as i64
                invariant
                    self.wf(),
                    self.ran() == start_ran,
                    min_cx <= tx <= max_cx,
                    min_cz <= tz <= max_cz + 1,
                    min_cx == cx || min_cx == cx - 1,
                    max_cx == cx || max_cx == cx + 1,
                    min_cz == cz || min_cz == cz - 1,
                    max_cz == cz || max_cz == cz + 1,
                    i32::MIN < cx < i32::MAX,
                    i32::MIN < cz < i32::MAX,
                    forall|a: int, b: int| min_cx <= a < tx && min_cz <= b <= max_cz ==> #[trigger] self.staged(a, b),
                    forall|b: int| min_cz <= b < tz ==> #[trigger] self.staged(tx as int, b),
                    self.generator() == gen,
                    self.staging() == stage_column(gen, stage_rect(gen, start, min_cx as int, tx as int, min_cz as int, max_cz + 1), tx as int, min_cz as int, tz as int),
                decreases max_cz + 1 - tz,
            {
                self.stage_terrain(tx as i32, tz as i32);
                tz = tz + 1;
            }
            assert(stage_rect(gen, start, min_cx as int, tx + 1, min_cz as int, max_cz + 1)
                == stage_column(gen, stage_rect(gen, start, min_cx as int, tx as int, min_cz as int, max_cz + 1), tx as int, min_cz as int, max_cz + 1));
            tx = tx + 1;
        }
        let ghost staged = self.staging();
        let mut px = min_cx;
        while px < max_cx
            invariant
                self.wf(),
                start_ran.subset_of(self.ran()),
                min_cx <= px <= max_cx,
                min_cx == cx || min_cx == cx - 1,
                max_cx == cx || max_cx == cx + 1,
                min_cz == cz || min_cz == cz - 1,
                max_cz == cz || max_cz == cz + 1,
                i32::MIN < cx < i32::MAX,
                i32::MIN < cz < i32::MAX,
                forall|a: int, b: int| min_cx <= a <= max_cx && min_cz <= b <= max_cz ==> #[trigger] self.staged(a, b),
                forall|a: int, b: int| min_cx <= a < px && min_cz <= b < max_cz ==> #[trigger] self.ran().contains((a, b)),
                self.generator() == gen,
                self.staging() == populate_rect(gen, staged, min_cx as int, px as int, min_cz as int, max_cz as int),
            decreases max_cx - px,
        {
            let mut pz = min_cz;
            while pz < max_cz
                invariant
                    self.wf(),
                    start_ran.subset_of(self.ran()),
                    min_cx <= px < max_cx,
                    min_cz <= pz <= max_cz,
                    min_cx == cx || min_cx == cx - 1,
                    max_cx == cx || max_cx == cx + 1,
                    min_cz == cz || min_cz == cz - 1,
                    max_cz == cz || max_cz == cz + 1,
                    i32::MIN < cx < i32::MAX,
                    i32::MIN < cz < i32::MAX,
                    forall|a: int, b: int| min_cx <= a <= max_cx && min_cz <= b <= max_cz ==> #[trigger] self.staged(a, b),
                    forall|a: int, b: int| min_cx <= a < px && min_cz <= b < max_cz ==> #[trigger] self.ran().contains((a, b)),
                    forall|b: int| min_cz <= b < pz ==> #[trigger] self.ran().contains((px as int, b)),
                    self.generator() == gen,
                    self.staging() == populate_column(gen, populate_rect(gen, staged, min_cx as int, px as int, min_cz as int, max_cz as int), px as int, min_cz as int, pz as int),
                decreases max_cz - pz,
            {
                self.populate_group(px, pz);
                pz = pz + 1;
            }
            assert(populate_rect(gen, staged, min_cx as int, px + 1, min_cz as int, max_cz as int)
                == populate_column(gen, populate_rect(gen, staged, min_cx as int, px as int, min_cz as int, max_cz as int), px as int, min_cz as int, max_cz as int));
            px = px + 1;
        }
        proof {
            assert(self.staged(cx as int, cz as int));
            let ran = self.ran();
            if populated & 1 != 0 {
                assert(start_ran.contains((cx - 1, cz - 1)));
            } else {
                assert(ran.contains((cx - 1, cz - 1)));
            }
            if populated & 2 != 0 {
                assert(start_ran.contains((cx as int, cz - 1)));
            } else {
                assert(ran.contains((cx as int, cz - 1)));
            }
            if populated & 4 != 0 {
                assert(start_ran.contains((cx - 1, cz as int)));
            } else {
                assert(ran.contains((cx - 1, cz as int)));
            }
            if populated & 8 != 0 {
                assert(start_ran.contains((cx as int, cz as int)));
            } else {
                assert(ran.contains((cx as int, cz as int)));
            }
        }
        let removed = self.world.remove_chunk(cx, cz);
        self.populated.remove(&key);
        proof {
            assert(self.staged(cx as int, cz as int) == false);
            assert(self.populated@.dom() =~= self.world.chunks_view().dom());
        }
        match removed {
            Some(chunk) => chunk,
            None => {
                proof {
                    assert(false);
                }
                Chunk::new()
            },
        }
    }

    /// Populate the group whose lowest chunk is `(px, pz)`, all four of its chunks
    /// waiting, and mark it on each of them.
    fn populate_group(&mut self, px: i32, pz: i32)
        requires
            old(self).wf(),
            i32::MIN <= px < i32::MAX,
            i32::MIN <= pz < i32::MAX,
            old(self).staged(px as int, pz as int),
            old(self).staged(px + 1, pz as int),
            old(self).staged(px as int, pz + 1),
            old(self).staged(px + 1, pz + 1),
        ensures
            final(self).wf(),
            final(self).ran() == old(self).ran().insert((px as int, pz as int)),
            final(self).staging() == old(self).generator().populated_of(px, pz, old(self).staging()),
            final(self).generator() == old(self).generator(),
            forall|a: int, b: int| #[trigger] final(self).staged(a, b) == old(self).staged(a, b),
    {
        self.generator.populate(px, pz, &mut self.world, &mut self.cache);
        self.ran = Ghost(self.ran@.insert((px as int, pz as int)));
        proof {
            assert forall|a: i32, b: i32| #[trigger] self.populated@.contains_key(chunk_key(a as int, b as int))
                implies bits_sound(self.populated@[chunk_key(a as int, b as int)], a as int, b as int, self.ran@) by {
                assert(old(self).populated@.contains_key(chunk_key(a as int, b as int)));
                assert(bits_sound(old(self).populated@[chunk_key(a as int, b as int)], a as int, b as int, old(self).ran@));
            }
        }
        self.mark(px, pz, POPULATED_POS_POS);
        self.mark(px + 1, pz, POPULATED_NEG_POS);
        self.mark(px, pz + 1, POPULATED_POS_NEG);
        self.mark(px + 1, pz + 1, POPULATED_NEG_NEG);
    }
}

} // verus!
