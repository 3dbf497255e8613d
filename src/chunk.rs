//! Chunks: columns of 16 by 128 by 16 blocks, with their metadata, sky light and
//! block entities.

use vstd::prelude::*;
use std::collections::HashMap;

use crate::block_entity::kind_matches;
use crate::block_entity::BlockEntity;
use crate::geom::BlockPos;
use vstd::arithmetic::div_mod::lemma_fundamental_div_mod_converse;

verus! {

broadcast use vstd::std_specs::hash::group_hash_axioms;

/// The height of a chunk, in blocks.
pub const CHUNK_HEIGHT: i32 = 128;

/// The number of blocks in a chunk.
pub const CHUNK_SIZE: usize = 32768;

/// The chunk coordinate of a block coordinate: the floor of its sixteenth.
pub open spec fn chunk_coord(v: i32) -> int {
    v as int / 16
}

/// The coordinate of a block within its chunk, in `0..16`.
pub open spec fn local_coord(v: i32) -> int {
    v as int % 16
}

/// The index of a block within its chunk: x, then z, then y.
pub open spec fn local_index(pos: BlockPos) -> int {
    local_coord(pos.x) * 2048 + local_coord(pos.z) * 128 + pos.y
}

/// Whether the height of a position lies within a chunk.
pub open spec fn in_height(pos: BlockPos) -> bool {
    0 <= pos.y < CHUNK_HEIGHT
}

/// The key of the chunk `(cx, cz)` in a map of chunks; distinct chunks have distinct keys.
pub open spec fn chunk_key(cx: int, cz: int) -> u64 {
    ((cx + 0x8000_0000) * 0x1_0000_0000 + (cz + 0x8000_0000)) as u64
}

/// The key of the chunk holding a block position.
pub open spec fn chunk_key_of(pos: BlockPos) -> u64 {
    chunk_key(chunk_coord(pos.x), chunk_coord(pos.z))
}

pub proof fn lemma_chunk_coord_bounds(v: i32)
    ensures
        -0x800_0000 <= chunk_coord(v) < 0x800_0000,
        0 <= local_coord(v) < 16,
        v == chunk_coord(v) * 16 + local_coord(v),
{
    assert(v == (v as int / 16) * 16 + v as int % 16) by (nonlinear_arith);
    assert(-0x800_0000 <= v as int / 16 < 0x800_0000) by (nonlinear_arith);
}

/// Distinct chunks have distinct keys.
pub proof fn lemma_chunk_key_injective(a: int, b: int, c: int, d: int)
    requires
        -0x8000_0000 <= a < 0x8000_0000,
        -0x8000_0000 <= b < 0x8000_0000,
        -0x8000_0000 <= c < 0x8000_0000,
        -0x8000_0000 <= d < 0x8000_0000,
        chunk_key(a, b) == chunk_key(c, d),
    ensures
        a == c,
        b == d,
{
    let k1 = (a + 0x8000_0000) * 0x1_0000_0000 + (b + 0x8000_0000);
    let k2 = (c + 0x8000_0000) * 0x1_0000_0000 + (d + 0x8000_0000);
    assert(0 <= k1 < 0x1_0000_0000_0000_0000) by (nonlinear_arith)
        requires
            k1 == (a + 0x8000_0000) * 0x1_0000_0000 + (b + 0x8000_0000),
            -0x8000_0000 <= a < 0x8000_0000,
            -0x8000_0000 <= b < 0x8000_0000,
    ;
    assert(0 <= k2 < 0x1_0000_0000_0000_0000) by (nonlinear_arith)
        requires
            k2 == (c + 0x8000_0000) * 0x1_0000_0000 + (d + 0x8000_0000),
            -0x8000_0000 <= c < 0x8000_0000,
            -0x8000_0000 <= d < 0x8000_0000,
    ;
    assert(k1 == k2);
    lemma_fundamental_div_mod_converse(k1, 0x1_0000_0000, a + 0x8000_0000, b + 0x8000_0000);
    lemma_fundamental_div_mod_converse(k2, 0x1_0000_0000, c + 0x8000_0000, d + 0x8000_0000);
}

/// Two positions in one chunk at the same index are the same position.
pub proof fn lemma_local_index_injective(p: BlockPos, q: BlockPos)
    requires
        in_height(p),
        in_height(q),
        chunk_coord(p.x) == chunk_coord(q.x),
        chunk_coord(p.z) == chunk_coord(q.z),
        local_index(p) == local_index(q),
    ensures
        p == q,
{
    lemma_chunk_coord_bounds(p.x);
    lemma_chunk_coord_bounds(p.z);
    lemma_chunk_coord_bounds(q.x);
    lemma_chunk_coord_bounds(q.z);
    let i = local_index(p);
    lemma_fundamental_div_mod_converse(i, 128, local_coord(p.x) * 16 + local_coord(p.z), p.y as int);
    lemma_fundamental_div_mod_converse(i, 128, local_coord(q.x) * 16 + local_coord(q.z), q.y as int);
    let h = local_coord(p.x) * 16 + local_coord(p.z);
    lemma_fundamental_div_mod_converse(h, 16, local_coord(p.x), local_coord(p.z));
    lemma_fundamental_div_mod_converse(h, 16, local_coord(q.x), local_coord(q.z));
}

/// Distinct positions are distinct blocks: another chunk, or another index.
pub proof fn lemma_distinct_blocks(p: BlockPos, q: BlockPos)
    requires
        in_height(p),
        in_height(q),
        p != q,
    ensures
        chunk_key_of(p) != chunk_key_of(q) || local_index(p) != local_index(q),
{
    lemma_chunk_coord_bounds(p.x);
    lemma_chunk_coord_bounds(p.z);
    lemma_chunk_coord_bounds(q.x);
    lemma_chunk_coord_bounds(q.z);
    if chunk_key_of(p) == chunk_key_of(q) {
        lemma_chunk_key_injective(chunk_coord(p.x), chunk_coord(p.z), chunk_coord(q.x), chunk_coord(q.z));
        if local_index(p) == local_index(q) {
            lemma_local_index_injective(p, q);
        }
    }
}

pub proof fn lemma_local_index_bounds(p: BlockPos)
    requires
        in_height(p),
    ensures
        0 <= local_index(p) < CHUNK_SIZE,
{
    lemma_chunk_coord_bounds(p.x);
    lemma_chunk_coord_bounds(p.z);
}

/// The chunk coordinate and the local coordinate of a block coordinate.
pub fn split_coord(v: i32) -> (r: (i32, usize))
    ensures
        r.0 == chunk_coord(v),
        r.1 == local_coord(v),
{
    let shifted: u64 = (v as i64 + 0x8000_0000i64) as u64;
    let q: u64 = shifted / 16;
    let m: u64 = shifted % 16;
    proof {
        lemma_chunk_coord_bounds(v);
        lemma_fundamental_div_mod_converse(shifted as int, 16, chunk_coord(v) + 0x800_0000, local_coord(v));
    }
    ((q as i64 - 0x800_0000i64) as i32, m as usize)
}

/// The chunk holding a block position.
pub fn calc_chunk_pos(pos: BlockPos) -> (r: (i32, i32))
    ensures
        r.0 == chunk_coord(pos.x),
        r.1 == chunk_coord(pos.z),
{
    let (cx, _) = split_coord(pos.x);
    let (cz, _) = split_coord(pos.z);
    (cx, cz)
}

/// The key of the chunk `(cx, cz)` in a map of chunks.
pub fn calc_chunk_key(cx: i32, cz: i32) -> (r: u64)
    ensures
        r == chunk_key(cx as int, cz as int),
{
    let hi: u64 = (cx as i64 + 0x8000_0000i64) as u64;
    let lo: u64 = (cz as i64 + 0x8000_0000i64) as u64;
    assert(hi * 0x1_0000_0000 + lo < 0x1_0000_0000_0000_0000) by (nonlinear_arith)
        requires
            hi < 0x1_0000_0000,
            lo < 0x1_0000_0000,
    ;
    hi * 0x1_0000_0000u64 + lo
}

/// The index of a block position within its chunk.
pub fn calc_local_index(pos: BlockPos) -> (r: usize)
    requires
        in_height(pos),
    ensures
        r == local_index(pos),
        r < CHUNK_SIZE,
{
    let (_, lx) = split_coord(pos.x);
    let (_, lz) = split_coord(pos.z);
    lx * 2048 + lz * 128 + pos.y as usize
}

/// What a chunk holds: its blocks, metadata, sky light and block entities.
pub struct ChunkView {
    pub blocks: Seq<u8>,
    pub metadata: Seq<u8>,
    pub sky_light: Seq<u8>,
    pub block_entities: Map<usize, BlockEntity>,
}

/// What a new chunk holds: air under the open sky.
pub open spec fn fresh_chunk_view() -> ChunkView {
    ChunkView {
        blocks: Seq::new(CHUNK_SIZE as nat, |i: int| 0u8),
        metadata: Seq::new(CHUNK_SIZE as nat, |i: int| 0u8),
        sky_light: Seq::new(CHUNK_SIZE as nat, |i: int| 15u8),
        block_entities: Map::empty(),
    }
}

/// A column of blocks. Metadata and light are nibbles, kept one to a byte.
pub struct Chunk {
    pub blocks: Vec<u8>,
    pub metadata: Vec<u8>,
    pub sky_light: Vec<u8>,
    /// Block entities, by local index.
    pub block_entities: HashMap<usize, BlockEntity>,
}

impl View for Chunk {
    type V = ChunkView;

    open spec fn view(&self) -> ChunkView {
        ChunkView {
            blocks: self.blocks@,
            metadata: self.metadata@,
            sky_light: self.sky_light@,
            block_entities: self.block_entities@,
        }
    }
}

impl Chunk {
    /// Sizes fit, and each block entity sits on a block of its kind.
    pub open spec fn wf(&self) -> bool {
        &&& self.blocks@.len() == CHUNK_SIZE
        &&& self.metadata@.len() == CHUNK_SIZE
        &&& self.sky_light@.len() == CHUNK_SIZE
        &&& forall|i: usize| #[trigger]
            self.block_entities@.contains_key(i) ==> i < CHUNK_SIZE && kind_matches(
                self.blocks@[i as int],
                self.block_entities@[i],
            )
    }

    /// A chunk of air under the open sky.
    pub fn new() -> (r: Chunk)
        ensures
            r.wf(),
            forall|i: int| 0 <= i < CHUNK_SIZE ==> r.blocks@[i] == 0 && r.metadata@[i] == 0
                && r.sky_light@[i] == 15,
            r.block_entities@.is_empty(),
            r@ == fresh_chunk_view(),
    {
        let r = Chunk {
            blocks: vec![0u8; CHUNK_SIZE],
            metadata: vec![0u8; CHUNK_SIZE],
            sky_light: vec![15u8; CHUNK_SIZE],
            block_entities: HashMap::new(),
        };
        assert(r.blocks@ =~= fresh_chunk_view().blocks);
        assert(r.metadata@ =~= fresh_chunk_view().metadata);
        assert(r.sky_light@ =~= fresh_chunk_view().sky_light);
        assert(r.block_entities@ =~= fresh_chunk_view().block_entities);
        r
    }

    /// Set the block at a local index; a block entity that no longer fits goes.
    pub fn set_block(&mut self, index: usize, id: u8, metadata: u8)
        requires
            old(self).wf(),
            index < CHUNK_SIZE,
        ensures
            final(self).wf(),
            final(self).blocks@ == old(self).blocks@.update(index as int, id),
            final(self).metadata@ == old(self).metadata@.update(index as int, metadata & 15),
            final(self).sky_light@ == old(self).sky_light@,
            final(self).block_entities@ == (if old(self).block_entities@.contains_key(index)
                && !kind_matches(id, old(self).block_entities@[index]) {
                old(self).block_entities@.remove(index)
            } else {
                old(self).block_entities@
            }),
    {
        self.blocks.set(index, id);
        self.metadata.set(index, metadata & 15);
        let stale = match self.block_entities.get(&index) {
            Some(be) => !be.matches_block(id),
            None => false,
        };
        if stale {
            self.block_entities.remove(&index);
        }
    }

    /// Set the sky light at a local index.
    pub fn set_sky_light(&mut self, index: usize, light: u8)
        requires
            old(self).wf(),
            index < CHUNK_SIZE,
        ensures
            final(self).wf(),
            final(self).blocks@ == old(self).blocks@,
            final(self).metadata@ == old(self).metadata@,
            final(self).sky_light@ == old(self).sky_light@.update(index as int, light & 15),
            final(self).block_entities@ == old(self).block_entities@,
    {
        self.sky_light.set(index, light & 15);
    }

    /// Attach a block entity at a local index, where the block there is of its kind.
    pub fn set_block_entity(&mut self, index: usize, be: BlockEntity) -> (r: bool)
        requires
            old(self).wf(),
            index < CHUNK_SIZE,
        ensures
            final(self).wf(),
            r == kind_matches(old(self).blocks@[index as int], be),
            final(self).blocks@ == old(self).blocks@,
            final(self).metadata@ == old(self).metadata@,
            final(self).sky_light@ == old(self).sky_light@,
            final(self).block_entities@ == (if r {
                old(self).block_entities@.insert(index, be)
            } else {
                old(self).block_entities@
            }),
    {
        if be.matches_block(self.blocks[index]) {
            self.block_entities.insert(index, be);
            true
        } else {
            false
        }
    }
}

} // verus!
