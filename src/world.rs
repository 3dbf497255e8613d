//! The world: a map of chunks with their blocks and block entities, the schedule of
//! pending block ticks, and the queue of events that replication drains.

use vstd::prelude::*;
use std::collections::HashMap;

use crate::block;
use crate::block::material_of;
use crate::block::Material;
use crate::block_entity::kind_matches;
use crate::block_entity::BlockEntity;
use crate::chunk::calc_chunk_key;
use crate::chunk::calc_chunk_pos;
use crate::chunk::calc_local_index;
use crate::chunk::chunk_key;
use crate::chunk::chunk_key_of;
use crate::chunk::in_height;
use crate::chunk::lemma_distinct_blocks;
use crate::chunk::lemma_local_index_bounds;
use crate::chunk::local_index;
use crate::chunk::Chunk;
use crate::chunk::ChunkView;
use crate::geom::BlockPos;

verus! {

broadcast use vstd::std_specs::hash::group_hash_axioms;

/// Kinds of dimensions, used for ambient effects in the world.
#[derive(Clone, Copy, Debug, PartialEq, Eq, Structural)]
pub enum Dimension {
    /// The overworld dimension with a blue sky and day cycles.
    Overworld,
    /// The nether dimension.
    Nether,
}

/// The weather of a world.
#[derive(Clone, Copy, Debug, PartialEq, Eq, Structural)]
pub enum Weather {
    Clear,
    Rain,
    Thunder,
}

/// A pending block tick: the block `block` at `pos` is ticked once the time reaches `due`.
#[derive(Clone, Copy, Debug, PartialEq, Eq, Structural)]
pub struct ScheduledTick {
    pub due: u64,
    pub pos: BlockPos,
    pub block: u8,
}

/// What happened in the world, for replication to the clients.
#[derive(Clone, Copy, Debug, PartialEq, Eq, Structural)]
pub enum Event {
    /// A block was set, with its new id and metadata.
    Block { pos: BlockPos, id: u8, metadata: u8 },
    /// A block entity was set.
    BlockEntity { pos: BlockPos },
    /// The weather changed.
    Weather { weather: Weather },
}

/// Whether a tick for `block` at `pos` is pending in `ticks`.
pub open spec fn has_pending(ticks: Seq<ScheduledTick>, pos: BlockPos, block: u8) -> bool {
    exists|i: int| 0 <= i < ticks.len() && (#[trigger] ticks[i]).pos == pos && ticks[i].block == block
}

/// Pending ticks are ordered by due time, and no two are for one block at one position.
pub open spec fn ticks_wf(ticks: Seq<ScheduledTick>) -> bool {
    &&& forall|i: int, j: int| 0 <= i < j < ticks.len() ==> (#[trigger] ticks[i]).due <= (#[trigger] ticks[j]).due
    &&& forall|i: int, j: int|
        0 <= i < ticks.len() && 0 <= j < ticks.len() && i != j ==> !((#[trigger] ticks[i]).pos
            == (#[trigger] ticks[j]).pos && ticks[i].block == ticks[j].block)
}

/// `after` is `before` once a tick for `block` at `pos`, due at `due`, was scheduled: a
/// pending tick for the same block and position absorbs it; otherwise it goes after
/// every tick due no later, which keeps the order of insertion among equal due times.
pub open spec fn scheduled_after(
    before: Seq<ScheduledTick>,
    after: Seq<ScheduledTick>,
    pos: BlockPos,
    block: u8,
    due: u64,
) -> bool {
    if has_pending(before, pos, block) {
        after == before
    } else {
        exists|k: int|
            0 <= k <= before.len() && after == before.insert(k, ScheduledTick { due, pos, block })
                && (forall|i: int| 0 <= i < k ==> (#[trigger] before[i]).due <= due) && (forall|i: int|
                k <= i < before.len() ==> (#[trigger] before[i]).due > due)
    }
}

/// Scheduling the same tick twice leaves exactly one pending tick for it: the second
/// scheduling changes nothing.
pub proof fn lemma_schedule_idempotent(
    ticks: Seq<ScheduledTick>,
    once: Seq<ScheduledTick>,
    twice: Seq<ScheduledTick>,
    pos: BlockPos,
    block: u8,
    due1: u64,
    due2: u64,
)
    requires
        ticks_wf(ticks),
        ticks_wf(once),
        scheduled_after(ticks, once, pos, block, due1),
        scheduled_after(once, twice, pos, block, due2),
    ensures
        twice == once,
        has_pending(twice, pos, block),
        forall|i: int, j: int|
            0 <= i < twice.len() && 0 <= j < twice.len() && (#[trigger] twice[i]).pos == pos
                && twice[i].block == block && (#[trigger] twice[j]).pos == pos && twice[j].block
                == block ==> i == j,
{
    if !has_pending(ticks, pos, block) {
        let k = choose|k: int|
            0 <= k <= ticks.len() && once == ticks.insert(k, ScheduledTick { due: due1, pos, block })
                && (forall|i: int| 0 <= i < k ==> (#[trigger] ticks[i]).due <= due1) && (forall|i: int|
                k <= i < ticks.len() ==> (#[trigger] ticks[i]).due > due1);
        assert(once[k].pos == pos && once[k].block == block);
    }
    assert(has_pending(once, pos, block));
}

/// The block at `(x, y, z)`, air where it is not loaded.
pub open spec fn block_or_air(w: World, x: int, y: int, z: int) -> (u8, u8) {
    match w.block_at(BlockPos { x: x as i32, y: y as i32, z: z as i32 }) {
        Some(b) => b,
        None => (0u8, 0u8),
    }
}

/// The blocks of the column `(x, z)` from height `y0` up to `y1`, exclusive.
pub open spec fn column_blocks(w: World, x: int, z: int, y0: int, y1: int) -> Seq<(u8, u8)>
    decreases y1 - y0,
{
    if y1 <= y0 {
        Seq::empty()
    } else {
        column_blocks(w, x, z, y0, y1 - 1).push(block_or_air(w, x, y1 - 1, z))
    }
}

/// The columns at `x` from `z0` up to `z1`, exclusive, in order of z.
pub open spec fn slab_blocks(w: World, x: int, z0: int, z1: int, y0: int, y1: int) -> Seq<(u8, u8)>
    decreases z1 - z0,
{
    if z1 <= z0 {
        Seq::empty()
    } else {
        slab_blocks(w, x, z0, z1 - 1, y0, y1) + column_blocks(w, x, z1 - 1, y0, y1)
    }
}

/// The slabs from `x0` up to `x1`, exclusive, in order of x.
pub open spec fn area_blocks(w: World, x0: int, x1: int, z0: int, z1: int, y0: int, y1: int) -> Seq<(u8, u8)>
    decreases x1 - x0,
{
    if x1 <= x0 {
        Seq::empty()
    } else {
        area_blocks(w, x0, x1 - 1, z0, z1, y0, y1) + slab_blocks(w, x1 - 1, z0, z1, y0, y1)
    }
}

/// Every block entity sits on a block of its kind.
pub proof fn lemma_block_entity_matches_block(w: World, pos: BlockPos)
    requires
        w.wf(),
        w.block_entity_at(pos) is Some,
    ensures
        w.block_at(pos) matches Some((id, _)) && kind_matches(id, w.block_entity_at(pos)->Some_0),
{
    lemma_local_index_bounds(pos);
    let c = w.chunks_view()[chunk_key_of(pos)];
    assert(c.wf());
    assert(c.block_entities@.contains_key(local_index(pos) as usize));
}

/// What a world holds: its chunks by key, pending ticks, queued events and state.
pub struct WorldView {
    pub chunks: Map<u64, ChunkView>,
    pub ticks: Seq<ScheduledTick>,
    pub events: Seq<Event>,
    pub time: u64,
    pub dimension: Dimension,
    pub spawn_pos: BlockPos,
    pub weather: Weather,
}

impl WorldView {
    /// This world with its chunks replaced.
    pub open spec fn with_chunks(self, chunks: Map<u64, ChunkView>) -> WorldView {
        WorldView {
            chunks,
            ticks: self.ticks,
            events: self.events,
            time: self.time,
            dimension: self.dimension,
            spawn_pos: self.spawn_pos,
            weather: self.weather,
        }
    }
}

/// Data structure for a whole world.
pub struct World {
    dimension: Dimension,
    spawn_pos: BlockPos,
    time: u64,
    weather: Weather,
    chunks: HashMap<u64, Chunk>,
    scheduled: Vec<ScheduledTick>,
    events: Vec<Event>,
}

impl View for World {
    type V = WorldView;

    open spec fn view(&self) -> WorldView {
        WorldView {
            chunks: self.chunks_view().map_values(|c: Chunk| c@),
            ticks: self.ticks(),
            events: self.events(),
            time: self.spec_time(),
            dimension: self.spec_dimension(),
            spawn_pos: self.spec_spawn_pos(),
            weather: self.spec_weather(),
        }
    }
}

impl World {
    /// The chunks, by key.
    pub closed spec fn chunks_view(&self) -> Map<u64, Chunk> {
        self.chunks@
    }

    /// The pending block ticks, in the order they will run.
    pub closed spec fn ticks(&self) -> Seq<ScheduledTick> {
        self.scheduled@
    }

    /// The events not yet drained, oldest first.
    pub closed spec fn events(&self) -> Seq<Event> {
        self.events@
    }

    pub closed spec fn spec_time(&self) -> u64 {
        self.time
    }

    pub closed spec fn spec_dimension(&self) -> Dimension {
        self.dimension
    }

    pub closed spec fn spec_spawn_pos(&self) -> BlockPos {
        self.spawn_pos
    }

    pub closed spec fn spec_weather(&self) -> Weather {
        self.weather
    }

    /// Every chunk is well formed and the pending ticks are ordered and unique.
    pub open spec fn wf(&self) -> bool {
        &&& forall|k: u64| #[trigger] self.chunks_view().contains_key(k) ==> self.chunks_view()[k].wf()
        &&& ticks_wf(self.ticks())
    }

    /// Whether the chunk `(cx, cz)` is loaded.
    pub open spec fn has_chunk(&self, cx: i32, cz: i32) -> bool {
        self.chunks_view().contains_key(chunk_key(cx as int, cz as int))
    }

    /// Whether the block at `pos` is stored: its chunk is loaded and its height fits.
    pub open spec fn loaded(&self, pos: BlockPos) -> bool {
        in_height(pos) && self.chunks_view().contains_key(chunk_key_of(pos))
    }

    /// The block id and metadata at `pos`, where it is loaded.
    pub open spec fn block_at(&self, pos: BlockPos) -> Option<(u8, u8)> {
        if self.loaded(pos) {
            let c = self.chunks_view()[chunk_key_of(pos)];
            Some((c.blocks@[local_index(pos)], c.metadata@[local_index(pos)]))
        } else {
            None
        }
    }

    /// The block id at `pos`; air where it is not loaded.
    pub open spec fn id_at(&self, pos: BlockPos) -> u8 {
        match self.block_at(pos) {
            Some((id, _)) => id,
            None => block::AIR,
        }
    }

    /// The sky light at `pos`, where it is loaded.
    pub open spec fn sky_light_at(&self, pos: BlockPos) -> Option<u8> {
        if self.loaded(pos) {
            Some(self.chunks_view()[chunk_key_of(pos)].sky_light@[local_index(pos)])
        } else {
            None
        }
    }

    /// The block entity at `pos`, if any.
    pub open spec fn block_entity_at(&self, pos: BlockPos) -> Option<BlockEntity> {
        if self.loaded(pos) && self.chunks_view()[chunk_key_of(pos)].block_entities@.contains_key(
            local_index(pos) as usize,
        ) {
            Some(self.chunks_view()[chunk_key_of(pos)].block_entities@[local_index(pos) as usize])
        } else {
            None
        }
    }

    /// `self` is `other` with, at most, the block and block entity at `pos` changed
    /// and events added.
    pub open spec fn same_except_at(&self, other: &World, pos: BlockPos) -> bool {
        &&& self.chunks_view().dom() == other.chunks_view().dom()
        &&& forall|q: BlockPos| q != pos ==> #[trigger] self.block_at(q) == other.block_at(q)
        &&& forall|q: BlockPos| q != pos ==> #[trigger] self.block_entity_at(q) == other.block_entity_at(q)
        &&& forall|q: BlockPos| #[trigger] self.sky_light_at(q) == other.sky_light_at(q)
        &&& self.ticks() == other.ticks()
        &&& self.spec_time() == other.spec_time()
        &&& self.spec_dimension() == other.spec_dimension()
        &&& self.spec_spawn_pos() == other.spec_spawn_pos()
        &&& self.spec_weather() == other.spec_weather()
    }

    /// An empty world of the given dimension, at time zero and clear weather.
    pub fn new(dimension: Dimension) -> (r: World)
        ensures
            r.wf(),
            r.chunks_view().is_empty(),
            r.ticks().len() == 0,
            r.events().len() == 0,
            r.spec_time() == 0,
            r.spec_dimension() == dimension,
            r.spec_spawn_pos() == (BlockPos { x: 0, y: 0, z: 0 }),
            r.spec_weather() == Weather::Clear,
    {
        World {
            dimension,
            spawn_pos: BlockPos { x: 0, y: 0, z: 0 },
            time: 0,
            weather: Weather::Clear,
            chunks: HashMap::new(),
            scheduled: Vec::new(),
            events: Vec::new(),
        }
    }

    pub fn dimension(&self) -> (r: Dimension)
        ensures
            r == self.spec_dimension(),
    {
        self.dimension
    }

    pub fn spawn_pos(&self) -> (r: BlockPos)
        ensures
            r == self.spec_spawn_pos(),
    {
        self.spawn_pos
    }

    pub fn set_spawn_pos(&mut self, pos: BlockPos)
        ensures
            final(self).spec_spawn_pos() == pos,
            final(self).chunks_view() == old(self).chunks_view(),
            final(self).ticks() == old(self).ticks(),
            final(self).events() == old(self).events(),
            final(self).spec_time() == old(self).spec_time(),
            final(self).spec_dimension() == old(self).spec_dimension(),
            final(self).spec_weather() == old(self).spec_weather(),
    {
        self.spawn_pos = pos;
    }

    pub fn time(&self) -> (r: u64)
        ensures
            r == self.spec_time(),
    {
        self.time
    }

    pub fn set_time(&mut self, time: u64)
        ensures
            final(self).spec_time() == time,
            final(self).chunks_view() == old(self).chunks_view(),
            final(self).ticks() == old(self).ticks(),
            final(self).events() == old(self).events(),
            final(self).spec_spawn_pos() == old(self).spec_spawn_pos(),
            final(self).spec_dimension() == old(self).spec_dimension(),
            final(self).spec_weather() == old(self).spec_weather(),
    {
        self.time = time;
    }

    pub fn weather(&self) -> (r: Weather)
        ensures
            r == self.spec_weather(),
    {
        self.weather
    }

    /// Change the weather; a change is an event.
    pub fn set_weather(&mut self, weather: Weather)
        ensures
            final(self).spec_weather() == weather,
            final(self).events() == (if weather == old(self).spec_weather() {
                old(self).events()
            } else {
                old(self).events().push(Event::Weather { weather })
            }),
            final(self).chunks_view() == old(self).chunks_view(),
            final(self).ticks() == old(self).ticks(),
            final(self).spec_time() == old(self).spec_time(),
            final(self).spec_spawn_pos() == old(self).spec_spawn_pos(),
            final(self).spec_dimension() == old(self).spec_dimension(),
    {
        if weather != self.weather {
            self.weather = weather;
            self.events.push(Event::Weather { weather });
        }
    }

    /// Whether the chunk `(cx, cz)` is loaded.
    pub fn contains_chunk(&self, cx: i32, cz: i32) -> (r: bool)
        ensures
            r == self.has_chunk(cx, cz),
    {
        let key = calc_chunk_key(cx, cz);
        self.chunks.contains_key(&key)
    }

    /// The chunk `(cx, cz)`, where it is loaded.
    pub fn chunk(&self, cx: i32, cz: i32) -> (r: Option<&Chunk>)
        ensures
            r == (if self.has_chunk(cx, cz) {
                Some(&self.chunks_view()[chunk_key(cx as int, cz as int)])
            } else {
                None
            }),
    {
        let key = calc_chunk_key(cx, cz);
        self.chunks.get(&key)
    }

    /// Load a chunk at `(cx, cz)`, replacing any chunk there.
    pub fn insert_chunk(&mut self, cx: i32, cz: i32, chunk: Chunk)
        requires
            old(self).wf(),
            chunk.wf(),
        ensures
            final(self).wf(),
            final(self).chunks_view() == old(self).chunks_view().insert(chunk_key(cx as int, cz as int), chunk),
            final(self)@ == old(self)@.with_chunks(old(self)@.chunks.insert(chunk_key(cx as int, cz as int), chunk@)),
            final(self).ticks() == old(self).ticks(),
            final(self).events() == old(self).events(),
            final(self).spec_time() == old(self).spec_time(),
            final(self).spec_spawn_pos() == old(self).spec_spawn_pos(),
            final(self).spec_dimension() == old(self).spec_dimension(),
            final(self).spec_weather() == old(self).spec_weather(),
    {
        let key = calc_chunk_key(cx, cz);
        let ghost cv = chunk@;
        self.chunks.insert(key, chunk);
        assert(self@.chunks =~= old(self)@.chunks.insert(key, cv));
        assert forall|k: u64| #[trigger] self.chunks_view().contains_key(k) implies self.chunks_view()[k].wf() by {
            if k != key {
                assert(old(self).chunks_view().contains_key(k));
            }
        }
    }

    /// Unload the chunk at `(cx, cz)` and hand it back.
    pub fn remove_chunk(&mut self, cx: i32, cz: i32) -> (r: Option<Chunk>)
        requires
            old(self).wf(),
        ensures
            final(self).wf(),
            final(self).chunks_view() == old(self).chunks_view().remove(chunk_key(cx as int, cz as int)),
            final(self)@ == old(self)@.with_chunks(old(self)@.chunks.remove(chunk_key(cx as int, cz as int))),
            r == (if old(self).has_chunk(cx, cz) {
                Some(old(self).chunks_view()[chunk_key(cx as int, cz as int)])
            } else {
                None
            }),
            r matches Some(c) ==> c.wf(),
            final(self).ticks() == old(self).ticks(),
            final(self).events() == old(self).events(),
            final(self).spec_time() == old(self).spec_time(),
            final(self).spec_spawn_pos() == old(self).spec_spawn_pos(),
            final(self).spec_dimension() == old(self).spec_dimension(),
            final(self).spec_weather() == old(self).spec_weather(),
    {
        let key = calc_chunk_key(cx, cz);
        let r = self.chunks.remove(&key);
        assert(self@.chunks =~= old(self)@.chunks.remove(key));
        assert forall|k: u64| #[trigger] self.chunks_view().contains_key(k) implies self.chunks_view()[k].wf() by {
            assert(old(self).chunks_view().contains_key(k));
        }
        r
    }

    /// The block id and metadata at `pos`, where it is loaded.
    pub fn get_block(&self, pos: BlockPos) -> (r: Option<(u8, u8)>)
        requires
            self.wf(),
        ensures
            r == self.block_at(pos),
    {
        if pos.y < 0 || pos.y >= 128 {
            return None;
        }
        let (cx, cz) = calc_chunk_pos(pos);
        let key = calc_chunk_key(cx, cz);
        let idx = calc_local_index(pos);
        match self.chunks.get(&key) {
            Some(chunk) => Some((chunk.blocks[idx], chunk.metadata[idx])),
            None => None,
        }
    }

    /// The sky light at `pos`, where it is loaded.
    pub fn get_sky_light(&self, pos: BlockPos) -> (r: Option<u8>)
        requires
            self.wf(),
        ensures
            r == self.sky_light_at(pos),
    {
        if pos.y < 0 || pos.y >= 128 {
            return None;
        }
        let (cx, cz) = calc_chunk_pos(pos);
        let key = calc_chunk_key(cx, cz);
        let idx = calc_local_index(pos);
        match self.chunks.get(&key) {
            Some(chunk) => Some(chunk.sky_light[idx]),
            None => None,
        }
    }

    /// The material of the block at `pos`; air where it is not loaded.
    pub fn get_block_material(&self, pos: BlockPos) -> (r: Material)
        requires
            self.wf(),
        ensures
            r == material_of(self.id_at(pos)),
    {
        match self.get_block(pos) {
            Some((id, _)) => block::material(id),
            None => block::material(block::AIR),
        }
    }

    /// Whether the block at `pos` is air; a block that is not loaded is air.
    pub fn is_block_air(&self, pos: BlockPos) -> (r: bool)
        requires
            self.wf(),
        ensures
            r == (self.id_at(pos) == block::AIR),
    {
        match self.get_block(pos) {
            Some((id, _)) => id == block::AIR,
            None => true,
        }
    }

    /// Whether the block at `pos` is loaded and has the given id.
    pub fn is_block(&self, pos: BlockPos, id: u8) -> (r: bool)
        requires
            self.wf(),
        ensures
            r == (self.block_at(pos) matches Some((i, _)) && i == id),
    {
        match self.get_block(pos) {
            Some((i, _)) => i == id,
            None => false,
        }
    }

    /// The block entity at `pos`, if any.
    pub fn get_block_entity(&self, pos: BlockPos) -> (r: Option<&BlockEntity>)
        requires
            self.wf(),
        ensures
            r == (match self.block_entity_at(pos) {
                Some(be) => Some(&be),
                None => None,
            }),
    {
        if pos.y < 0 || pos.y >= 128 {
            return None;
        }
        let (cx, cz) = calc_chunk_pos(pos);
        let key = calc_chunk_key(cx, cz);
        let idx = calc_local_index(pos);
        match self.chunks.get(&key) {
            Some(chunk) => chunk.block_entities.get(&idx),
            None => None,
        }
    }

    proof fn lemma_frame(&self, other: &World, pos: BlockPos, key: u64, idx: int)
        requires
            in_height(pos),
            key == chunk_key_of(pos),
            idx == local_index(pos),
            self.chunks_view().contains_key(key),
            other.chunks_view() == self.chunks_view().insert(key, other.chunks_view()[key]),
            other.chunks_view()[key].sky_light@ == self.chunks_view()[key].sky_light@,
            forall|i: int| 0 <= i < 32768 && i != idx ==> (#[trigger] other.chunks_view()[key].blocks@[i]) == self.chunks_view()[key].blocks@[i]
                && other.chunks_view()[key].metadata@[i] == self.chunks_view()[key].metadata@[i],
            forall|i: usize| i != idx ==> (#[trigger] other.chunks_view()[key].block_entities@.contains_key(i))
                == self.chunks_view()[key].block_entities@.contains_key(i),
            forall|i: usize| i != idx ==> (#[trigger] other.chunks_view()[key].block_entities@[i])
                == self.chunks_view()[key].block_entities@[i],
        ensures
            forall|q: BlockPos| q != pos ==> #[trigger] other.block_at(q) == self.block_at(q),
            forall|q: BlockPos| q != pos ==> #[trigger] other.block_entity_at(q) == self.block_entity_at(q),
            forall|q: BlockPos| #[trigger] other.sky_light_at(q) == self.sky_light_at(q),
    {
        assert forall|q: BlockPos| q != pos implies #[trigger] other.block_at(q) == self.block_at(q)
            && other.block_entity_at(q) == self.block_entity_at(q) by {
            if in_height(q) {
                lemma_distinct_blocks(pos, q);
                lemma_local_index_bounds(q);
            }
        }
        assert forall|q: BlockPos| #[trigger] other.sky_light_at(q) == self.sky_light_at(q) by {
            if in_height(q) {
                lemma_local_index_bounds(q);
            }
        }
    }

    /// Set the block at `pos`, where it is loaded, and hand back the block it replaced.
    /// A block entity that does not fit the new block goes with the old one.
    #[verifier::rlimit(40)]
    #[verifier::spinoff_prover]
    pub fn set_block(&mut self, pos: BlockPos, id: u8, metadata: u8) -> (r: Option<(u8, u8)>)
        requires
            old(self).wf(),
        ensures
            final(self).wf(),
            r == old(self).block_at(pos),
            final(self).same_except_at(old(self), pos),
            final(self).block_at(pos) == (if r is Some {
                Some((id, metadata & 15))
            } else {
                None
            }),
            final(self).block_entity_at(pos) == (match old(self).block_entity_at(pos) {
                Some(be) => if kind_matches(id, be) {
                    Some(be)
                } else {
                    None
                },
                None => None,
            }),
            final(self).events() == (if r is Some {
                old(self).events().push(Event::Block { pos, id, metadata: metadata & 15 })
            } else {
                old(self).events()
            }),
    {
        if pos.y < 0 || pos.y >= 128 {
            return None;
        }
        let (cx, cz) = calc_chunk_pos(pos);
        let key = calc_chunk_key(cx, cz);
        let idx = calc_local_index(pos);
        let removed = self.chunks.remove(&key);
        match removed {
            None => {
                assert(self.chunks@ =~= old(self).chunks@);
                None
            },
            Some(mut chunk) => {
                assert(chunk.wf());
                let prev = (chunk.blocks[idx], chunk.metadata[idx]);
                chunk.set_block(idx, id, metadata);
                self.chunks.insert(key, chunk);
                proof {
                    assert(self.chunks@ =~= old(self).chunks@.insert(key, self.chunks@[key]));
                    assert(self.chunks@.dom() =~= old(self).chunks@.dom());
                    old(self).lemma_frame(self, pos, key, idx as int);
                }
                self.events.push(Event::Block { pos, id, metadata: metadata & 15 });
                Some(prev)
            },
        }
    }

    /// Set the sky light at `pos`, where it is loaded.
    pub fn set_sky_light(&mut self, pos: BlockPos, light: u8)
        requires
            old(self).wf(),
        ensures
            final(self).wf(),
            final(self).chunks_view().dom() == old(self).chunks_view().dom(),
            forall|q: BlockPos| #[trigger] final(self).block_at(q) == old(self).block_at(q),
            forall|q: BlockPos| #[trigger] final(self).block_entity_at(q) == old(self).block_entity_at(q),
            forall|q: BlockPos| q != pos ==> #[trigger] final(self).sky_light_at(q) == old(self).sky_light_at(q),
            final(self).sky_light_at(pos) == (if old(self).loaded(pos) { Some(light & 15) } else { None }),
            final(self).ticks() == old(self).ticks(),
            final(self).events() == old(self).events(),
            final(self).spec_time() == old(self).spec_time(),
            final(self).spec_dimension() == old(self).spec_dimension(),
            final(self).spec_spawn_pos() == old(self).spec_spawn_pos(),
            final(self).spec_weather() == old(self).spec_weather(),
    {
        if pos.y < 0 || pos.y >= 128 {
            return;
        }
        let (cx, cz) = calc_chunk_pos(pos);
        let key = calc_chunk_key(cx, cz);
        let idx = calc_local_index(pos);
        let removed = self.chunks.remove(&key);
        match removed {
            None => {
                assert(self.chunks@ =~= old(self).chunks@);
            },
            Some(mut chunk) => {
                chunk.set_sky_light(idx, light);
                self.chunks.insert(key, chunk);
                proof {
                    assert(self.chunks@ =~= old(self).chunks@.insert(key, self.chunks@[key]));
                    assert(self.chunks@.dom() =~= old(self).chunks@.dom());
                    assert forall|q: BlockPos| #[trigger] self.block_at(q) == old(self).block_at(q)
                        && self.block_entity_at(q) == old(self).block_entity_at(q) by {
                        if in_height(q) {
                            lemma_local_index_bounds(q);
                        }
                    }
                    assert forall|q: BlockPos| q != pos implies #[trigger] self.sky_light_at(q)
                        == old(self).sky_light_at(q) by {
                        if in_height(q) {
                            lemma_distinct_blocks(pos, q);
                            lemma_local_index_bounds(q);
                        }
                    }
                }
            },
        }
    }

    /// Attach a block entity at `pos`, where the block there is loaded and of its kind;
    /// elsewhere nothing changes.
    pub fn set_block_entity(&mut self, pos: BlockPos, be: BlockEntity)
        requires
            old(self).wf(),
        ensures
            final(self).wf(),
            ({
                let placed = old(self).loaded(pos) && kind_matches(old(self).id_at(pos), be);
                &&& final(self).block_entity_at(pos) == (if placed {
                    Some(be)
                } else {
                    old(self).block_entity_at(pos)
                })
                &&& final(self).events() == (if placed {
                    old(self).events().push(Event::BlockEntity { pos })
                } else {
                    old(self).events()
                })
            }),
            final(self).same_except_at(old(self), pos),
            final(self).block_at(pos) == old(self).block_at(pos),
    {
        if pos.y < 0 || pos.y >= 128 {
            return;
        }
        let (cx, cz) = calc_chunk_pos(pos);
        let key = calc_chunk_key(cx, cz);
        let idx = calc_local_index(pos);
        let removed = self.chunks.remove(&key);
        match removed {
            None => {
                assert(self.chunks@ =~= old(self).chunks@);
            },
            Some(mut chunk) => {
                let placed = chunk.set_block_entity(idx, be);
                self.chunks.insert(key, chunk);
                proof {
                    assert(self.chunks@ =~= old(self).chunks@.insert(key, self.chunks@[key]));
                    assert(self.chunks@.dom() =~= old(self).chunks@.dom());
                    old(self).lemma_frame(self, pos, key, idx as int);
                }
                if placed {
                    self.events.push(Event::BlockEntity { pos });
                }
            },
        }
    }

    /// Schedule a tick of the block `block` at `pos`, `delay` ticks from now. A tick
    /// already pending for that block at that position absorbs this one.
    #[verifier::loop_isolation(false)]
    pub fn schedule_tick(&mut self, pos: BlockPos, block: u8, delay: u64)
        requires
            old(self).wf(),
            old(self).spec_time() + delay <= u64::MAX,
        ensures
            final(self).wf(),
            scheduled_after(old(self).ticks(), final(self).ticks(), pos, block, (old(self).spec_time() + delay) as u64),
            final(self).chunks_view() == old(self).chunks_view(),
            final(self).events() == old(self).events(),
            final(self).spec_time() == old(self).spec_time(),
            final(self).spec_dimension() == old(self).spec_dimension(),
            final(self).spec_spawn_pos() == old(self).spec_spawn_pos(),
            final(self).spec_weather() == old(self).spec_weather(),
    {
        let due = self.time + delay;
        let len = self.scheduled.len();
        let mut i: usize = 0;
        while i < len
            invariant
                len == self.scheduled@.len(),
                i <= len,
                forall|j: int| 0 <= j < i ==> !((#[trigger] self.scheduled@[j]).pos == pos && self.scheduled@[j].block == block),
            decreases len - i,
        {
            if self.scheduled[i].pos == pos && self.scheduled[i].block == block {
                proof {
                    assert forall|kk: u64| #[trigger] self.chunks_view().contains_key(kk) implies self.chunks_view()[kk].wf() by {
                        assert(old(self).chunks_view().contains_key(kk));
                    }
                }
                return;
            }
            i = i + 1;
        }
        let mut k: usize = 0;
        while k < len && self.scheduled[k].due <= due
            invariant
                len == self.scheduled@.len(),
                k <= len,
                forall|j: int| 0 <= j < k ==> (#[trigger] self.scheduled@[j]).due <= due,
            decreases len - k,
        {
            k = k + 1;
        }
        let tick = ScheduledTick { due, pos, block };
        self.scheduled.insert(k, tick);
        proof {
            let before = old(self).scheduled@;
            assert(self.scheduled@ == before.insert(k as int, tick));
            assert forall|j: int| k <= j < before.len() implies (#[trigger] before[j]).due > due by {
                assert(before[k as int].due > due);
                if j > k {
                    assert(before[k as int].due <= before[j].due);
                }
            }
            let after = self.scheduled@;
            assert forall|a: int, b: int| 0 <= a < b < after.len() implies (#[trigger] after[a]).due <= (#[trigger] after[b]).due by {
                if a < k && b > k {
                    assert(before[a].due <= due);
                    assert(before[b - 1].due > due);
                } else if a == k {
                    assert(before[b - 1].due > due);
                } else if b == k {
                    assert(before[a].due <= due);
                } else if a > k {
                    assert(before[a - 1].due <= before[b - 1].due);
                } else {
                    assert(before[a].due <= before[b].due);
                }
            }
            assert(!has_pending(before, pos, block));
            assert forall|kk: u64| #[trigger] self.chunks_view().contains_key(kk) implies self.chunks_view()[kk].wf() by {
                assert(old(self).chunks_view().contains_key(kk));
            }
            assert forall|a: int, b: int|
                0 <= a < after.len() && 0 <= b < after.len() && a != b implies !((#[trigger] after[a]).pos
                    == (#[trigger] after[b]).pos && after[a].block == after[b].block) by {
                if a == k {
                    let bb = if b < k { b } else { b - 1 };
                    assert(before[bb] == after[b]);
                } else if b == k {
                    let aa = if a < k { a } else { a - 1 };
                    assert(before[aa] == after[a]);
                } else {
                    let aa = if a < k { a } else { a - 1 };
                    let bb = if b < k { b } else { b - 1 };
                    assert(before[aa] == after[a]);
                    assert(before[bb] == after[b]);
                }
            }
        }
    }

    /// Take out the pending ticks that are due, in the order they run.
    #[verifier::loop_isolation(false)]
    pub fn drain_due_ticks(&mut self) -> (r: Vec<ScheduledTick>)
        requires
            old(self).wf(),
        ensures
            final(self).wf(),
            r@ == old(self).ticks().take(r@.len() as int),
            final(self).ticks() == old(self).ticks().skip(r@.len() as int),
            forall|i: int| 0 <= i < r@.len() ==> (#[trigger] r@[i]).due <= old(self).spec_time(),
            final(self).ticks().len() > 0 ==> final(self).ticks()[0].due > old(self).spec_time(),
            final(self).chunks_view() == old(self).chunks_view(),
            final(self).events() == old(self).events(),
            final(self).spec_time() == old(self).spec_time(),
            final(self).spec_dimension() == old(self).spec_dimension(),
            final(self).spec_spawn_pos() == old(self).spec_spawn_pos(),
            final(self).spec_weather() == old(self).spec_weather(),
    {
        let len = self.scheduled.len();
        let mut k: usize = 0;
        while k < len && self.scheduled[k].due <= self.time
            invariant
                len == self.scheduled@.len(),
                k <= len,
                forall|j: int| 0 <= j < k ==> (#[trigger] self.scheduled@[j]).due <= self.time,
            decreases len - k,
        {
            k = k + 1;
        }
        let mut due_ticks = self.scheduled.split_off(k);
        std::mem::swap(&mut self.scheduled, &mut due_ticks);
        proof {
            let before = old(self).scheduled@;
            assert(due_ticks@ =~= before.take(k as int));
            assert(self.scheduled@ =~= before.skip(k as int));
            assert forall|kk: u64| #[trigger] self.chunks_view().contains_key(kk) implies self.chunks_view()[kk].wf() by {
                assert(old(self).chunks_view().contains_key(kk));
            }
            let after = self.scheduled@;
            assert forall|a: int, b: int| 0 <= a < b < after.len() implies (#[trigger] after[a]).due <= (#[trigger] after[b]).due by {
                assert(after[a] == before[a + k]);
                assert(after[b] == before[b + k]);
            }
            assert forall|a: int, b: int|
                0 <= a < after.len() && 0 <= b < after.len() && a != b implies !((#[trigger] after[a]).pos
                    == (#[trigger] after[b]).pos && after[a].block == after[b].block) by {
                assert(after[a] == before[a + k]);
                assert(after[b] == before[b + k]);
            }
        }
        due_ticks
    }

    /// Advance the time by one tick and take out the pending ticks that are then due.
    pub fn tick(&mut self) -> (r: Vec<ScheduledTick>)
        requires
            old(self).wf(),
            old(self).spec_time() < u64::MAX,
        ensures
            final(self).wf(),
            final(self).spec_time() == old(self).spec_time() + 1,
            r@ == old(self).ticks().take(r@.len() as int),
            final(self).ticks() == old(self).ticks().skip(r@.len() as int),
            forall|i: int| 0 <= i < r@.len() ==> (#[trigger] r@[i]).due <= final(self).spec_time(),
            final(self).ticks().len() > 0 ==> final(self).ticks()[0].due > final(self).spec_time(),
            final(self).chunks_view() == old(self).chunks_view(),
            final(self).events() == old(self).events(),
            final(self).spec_dimension() == old(self).spec_dimension(),
            final(self).spec_spawn_pos() == old(self).spec_spawn_pos(),
            final(self).spec_weather() == old(self).spec_weather(),
    {
        self.time = self.time + 1;
        assert(self.wf()) by {
            assert(self.chunks_view() == old(self).chunks_view());
            assert(self.ticks() == old(self).ticks());
        }
        self.drain_due_ticks()
    }

    /// Queue an event.
    pub fn push_event(&mut self, event: Event)
        ensures
            final(self).events() == old(self).events().push(event),
            final(self).chunks_view() == old(self).chunks_view(),
            final(self).ticks() == old(self).ticks(),
            final(self).spec_time() == old(self).spec_time(),
            final(self).spec_dimension() == old(self).spec_dimension(),
            final(self).spec_spawn_pos() == old(self).spec_spawn_pos(),
            final(self).spec_weather() == old(self).spec_weather(),
    {
        self.events.push(event);
    }

    /// Take out every queued event, oldest first.
    pub fn drain_events(&mut self) -> (r: Vec<Event>)
        ensures
            r@ == old(self).events(),
            final(self).events().len() == 0,
            final(self).chunks_view() == old(self).chunks_view(),
            final(self).ticks() == old(self).ticks(),
            final(self).spec_time() == old(self).spec_time(),
            final(self).spec_dimension() == old(self).spec_dimension(),
            final(self).spec_spawn_pos() == old(self).spec_spawn_pos(),
            final(self).spec_weather() == old(self).spec_weather(),
    {
        let mut out = Vec::new();
        std::mem::swap(&mut self.events, &mut out);
        out
    }

    /// The blocks of the area from `min` (inclusive) to `max` (exclusive), height
    /// first, then z, then x; a block that is not loaded reads as air.
    pub fn iter_area_blocks(&self, min: BlockPos, max: BlockPos) -> (r: Vec<(u8, u8)>)
        requires
            self.wf(),
        ensures
            r@ == area_blocks(*self, min.x as int, max.x as int, min.z as int, max.z as int, min.y as int, max.y as int),
    {
        let mut out: Vec<(u8, u8)> = Vec::new();
        let mut x = min.x;
        while x < max.x
            invariant
                self.wf(),
                min.x <= x || max.x <= min.x,
                x <= max.x || max.x <= min.x,
                x == min.x || min.x <= x <= max.x,
                out@ == area_blocks(*self, min.x as int, x as int, min.z as int, max.z as int, min.y as int, max.y as int),
            decreases max.x - x,
        {
            let mut z = min.z;
            while z < max.z
                invariant
                    self.wf(),
                    min.x <= x < max.x,
                    z == min.z || min.z <= z <= max.z,
                    out@ == area_blocks(*self, min.x as int, x as int, min.z as int, max.z as int, min.y as int, max.y as int)
                        + slab_blocks(*self, x as int, min.z as int, z as int, min.y as int, max.y as int),
                decreases max.z - z,
            {
                let mut y = min.y;
                while y < max.y
                    invariant
                        self.wf(),
                        min.x <= x < max.x,
                        min.z <= z < max.z,
                        y == min.y || min.y <= y <= max.y,
                        out@ == area_blocks(*self, min.x as int, x as int, min.z as int, max.z as int, min.y as int, max.y as int)
                            + slab_blocks(*self, x as int, min.z as int, z as int, min.y as int, max.y as int)
                            + column_blocks(*self, x as int, z as int, min.y as int, y as int),
                    decreases max.y - y,
                {
                    let b = match self.get_block(BlockPos { x, y, z }) {
                        Some(b) => b,
                        None => (0u8, 0u8),
                    };
                    out.push(b);
                    y = y + 1;
                }
                proof {
                    assert(column_blocks(*self, x as int, z as int, min.y as int, y as int)
                        == column_blocks(*self, x as int, z as int, min.y as int, max.y as int));
                    assert(slab_blocks(*self, x as int, min.z as int, z + 1, min.y as int, max.y as int)
                        == slab_blocks(*self, x as int, min.z as int, z as int, min.y as int, max.y as int)
                            + column_blocks(*self, x as int, z as int, min.y as int, max.y as int));
                    assert(out@ =~= area_blocks(*self, min.x as int, x as int, min.z as int, max.z as int, min.y as int, max.y as int)
                        + slab_blocks(*self, x as int, min.z as int, z + 1, min.y as int, max.y as int));
                }
                z = z + 1;
            }
            proof {
                assert(slab_blocks(*self, x as int, min.z as int, z as int, min.y as int, max.y as int)
                    == slab_blocks(*self, x as int, min.z as int, max.z as int, min.y as int, max.y as int));
                assert(area_blocks(*self, min.x as int, x + 1, min.z as int, max.z as int, min.y as int, max.y as int)
                    == area_blocks(*self, min.x as int, x as int, min.z as int, max.z as int, min.y as int, max.y as int)
                        + slab_blocks(*self, x as int, min.z as int, max.z as int, min.y as int, max.y as int));
            }
            x = x + 1;
        }
        proof {
            if max.x <= min.x {
                assert(area_blocks(*self, min.x as int, x as int, min.z as int, max.z as int, min.y as int, max.y as int)
                    == area_blocks(*self, min.x as int, max.x as int, min.z as int, max.z as int, min.y as int, max.y as int));
            }
        }
        out
    }
}

} // verus!
