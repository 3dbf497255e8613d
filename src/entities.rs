//! The entities of a world: stored in spawn order under unique ids, each resident in
//! exactly one chunk, and taken out of the table for the time of its own tick.

use vstd::prelude::*;

verus! {

/// The entities of a world, of any entity type `E`.
pub struct EntityTable<E> {
    /// The entities in spawn order; a slot is empty while its entity ticks.
    slots: Vec<Option<E>>,
    /// The id of the entity of each slot.
    ids: Vec<u32>,
    /// The chunk where the entity of each slot resides.
    chunks: Vec<(i32, i32)>,
    /// The id the next spawned entity gets.
    next_id: u32,
}

/// Whether the id `id` is resident in the chunk `chunk` according to the ids and
/// chunks of the slots.
pub open spec fn resident(ids: Seq<u32>, chunks: Seq<(i32, i32)>, id: u32, chunk: (i32, i32)) -> bool {
    exists|i: int| 0 <= i < ids.len() && ids[i] == id && chunks[i] == chunk
}

impl<E> EntityTable<E> {
    pub closed spec fn slots(&self) -> Seq<Option<E>> {
        self.slots@
    }

    pub closed spec fn ids(&self) -> Seq<u32> {
        self.ids@
    }

    pub closed spec fn chunks(&self) -> Seq<(i32, i32)> {
        self.chunks@
    }

    pub closed spec fn spec_next_id(&self) -> u32 {
        self.next_id
    }

    /// One id and one chunk for each slot; ids are unique, below the next id, and
    /// increase in spawn order.
    pub open spec fn wf(&self) -> bool {
        &&& self.ids().len() == self.slots().len()
        &&& self.chunks().len() == self.slots().len()
        &&& forall|i: int, j: int| 0 <= i < j < self.ids().len() ==> #[trigger] self.ids()[i] < #[trigger] self.ids()[j]
        &&& forall|i: int| 0 <= i < self.ids().len() ==> #[trigger] self.ids()[i] < self.spec_next_id()
    }

    /// An empty table.
    pub fn new() -> (r: Self)
        ensures
            r.wf(),
            r.slots().len() == 0,
            r.spec_next_id() == 0,
    {
        EntityTable { slots: Vec::new(), ids: Vec::new(), chunks: Vec::new(), next_id: 0 }
    }

    /// The number of entities.
    pub fn len(&self) -> (r: usize)
        requires
            self.wf(),
        ensures
            r == self.slots().len(),
    {
        self.slots.len()
    }

    /// Spawn an entity resident in the chunk `(cx, cz)`; it gets the next id and the
    /// last slot, so that it ticks after every entity already there.
    pub fn spawn(&mut self, entity: E, cx: i32, cz: i32) -> (r: u32)
        requires
            old(self).wf(),
            old(self).spec_next_id() < u32::MAX,
        ensures
            final(self).wf(),
            r == old(self).spec_next_id(),
            final(self).spec_next_id() == r + 1,
            final(self).slots() == old(self).slots().push(Some(entity)),
            final(self).ids() == old(self).ids().push(r),
            final(self).chunks() == old(self).chunks().push((cx, cz)),
            resident(final(self).ids(), final(self).chunks(), r, (cx, cz)),
            forall|c: (i32, i32)| #[trigger] resident(final(self).ids(), final(self).chunks(), r, c) ==> c == (cx, cz),
    {
        let id = self.next_id;
        self.slots.push(Some(entity));
        self.ids.push(id);
        self.chunks.push((cx, cz));
        self.next_id = id + 1;
        proof {
            let last = self.ids@.len() - 1;
            assert(self.ids@[last] == id && self.chunks@[last] == (cx, cz));
            assert forall|c: (i32, i32)| #[trigger] resident(self.ids(), self.chunks(), id, c) implies c == (cx, cz) by {
                lemma_single_residency(*self, last, c);
            }
        }
        id
    }

    /// Remove the entity with the given id, keeping the order of the others.
    pub fn remove(&mut self, id: u32) -> (r: Option<Option<E>>)
        requires
            old(self).wf(),
        ensures
            final(self).wf(),
            r is Some <==> old(self).ids().contains(id),
            final(self).spec_next_id() == old(self).spec_next_id(),
            !final(self).ids().contains(id),
            r is None ==> final(self).slots() == old(self).slots() && final(self).ids() == old(self).ids()
                && final(self).chunks() == old(self).chunks(),
            r is Some ==> exists|i: int| 0 <= i < old(self).ids().len() && old(self).ids()[i] == id
                && r == Some(old(self).slots()[i]) && final(self).slots() == old(self).slots().remove(i)
                && final(self).ids() == old(self).ids().remove(i) && final(self).chunks() == old(self).chunks().remove(i),
    {
        match self.slot_of(id) {
            None => {
                assert(!self.ids@.contains(id));
                None
            },
            Some(i) => {
                let e = self.slots.remove(i);
                self.ids.remove(i);
                self.chunks.remove(i);
                proof {
                    let before = old(self).ids@;
                    let after = self.ids@;
                    assert forall|a: int, b: int| 0 <= a < b < after.len() implies #[trigger] after[a] < #[trigger] after[b] by {
                        let aa = if a < i { a } else { a + 1 };
                        let bb = if b < i { b } else { b + 1 };
                        assert(after[a] == before[aa]);
                        assert(after[b] == before[bb]);
                    }
                    assert forall|a: int| 0 <= a < after.len() implies #[trigger] after[a] < self.spec_next_id() by {
                        let aa = if a < i { a } else { a + 1 };
                        assert(after[a] == before[aa]);
                    }
                    if after.contains(id) {
                        let k = choose|k: int| 0 <= k < after.len() && after[k] == id;
                        let kk = if k < i { k } else { k + 1 };
                        assert(before[kk] == id);
                        if kk < i {
                            assert(before[kk] < before[i as int]);
                        } else {
                            assert(before[i as int] < before[kk]);
                        }
                    }
                    assert(old(self).ids()[i as int] == id);
                }
                Some(e)
            },
        }
    }

    /// The slot of the entity with the given id.
    pub fn slot_of(&self, id: u32) -> (r: Option<usize>)
        requires
            self.wf(),
        ensures
            r matches Some(i) ==> i < self.ids().len() && self.ids()[i as int] == id,
            r is None ==> forall|i: int| 0 <= i < self.ids().len() ==> #[trigger] self.ids()[i] != id,
    {
        let mut i: usize = 0;
        while i < self.ids.len()
            invariant
                i <= self.ids@.len(),
                forall|j: int| 0 <= j < i ==> #[trigger] self.ids@[j] != id,
            decreases self.ids@.len() - i,
        {
            if self.ids[i] == id {
                return Some(i);
            }
            i = i + 1;
        }
        None
    }

    /// The id of the entity in a slot.
    pub fn id_at(&self, slot: usize) -> (r: u32)
        requires
            self.wf(),
            slot < self.slots().len(),
        ensures
            r == self.ids()[slot as int],
    {
        self.ids[slot]
    }

    /// The chunk where the entity in a slot resides.
    pub fn chunk_at(&self, slot: usize) -> (r: (i32, i32))
        requires
            self.wf(),
            slot < self.slots().len(),
        ensures
            r == self.chunks()[slot as int],
    {
        self.chunks[slot]
    }

    /// Take the entity of a slot out for its tick; the slot stays, empty.
    pub fn take(&mut self, slot: usize) -> (r: Option<E>)
        requires
            old(self).wf(),
            slot < old(self).slots().len(),
        ensures
            final(self).wf(),
            r == old(self).slots()[slot as int],
            final(self).slots() == old(self).slots().update(slot as int, None),
            final(self).ids() == old(self).ids(),
            final(self).chunks() == old(self).chunks(),
            final(self).spec_next_id() == old(self).spec_next_id(),
    {
        let mut out: Option<E> = None;
        std::mem::swap(&mut out, &mut self.slots[slot]);
        out
    }

    /// Put an entity back in its slot after its tick.
    pub fn restore(&mut self, slot: usize, entity: E)
        requires
            old(self).wf(),
            slot < old(self).slots().len(),
        ensures
            final(self).wf(),
            final(self).slots() == old(self).slots().update(slot as int, Some(entity)),
            final(self).ids() == old(self).ids(),
            final(self).chunks() == old(self).chunks(),
            final(self).spec_next_id() == old(self).spec_next_id(),
    {
        self.slots.set(slot, Some(entity));
    }

    /// The entity in a slot, where it is not taken out.
    pub fn get(&self, slot: usize) -> (r: Option<&E>)
        requires
            self.wf(),
            slot < self.slots().len(),
        ensures
            r == (match self.slots()[slot as int] {
                Some(e) => Some(&e),
                None => None,
            }),
    {
        match &self.slots[slot] {
            Some(e) => Some(e),
            None => None,
        }
    }

    /// Move the entity with the given id to the chunk `(cx, cz)`, where its position
    /// now lies; false where no entity has that id.
    pub fn relocate(&mut self, id: u32, cx: i32, cz: i32) -> (r: bool)
        requires
            old(self).wf(),
        ensures
            final(self).wf(),
            final(self).slots() == old(self).slots(),
            final(self).ids() == old(self).ids(),
            final(self).spec_next_id() == old(self).spec_next_id(),
            r == old(self).ids().contains(id),
            forall|i: int| 0 <= i < old(self).ids().len() ==> #[trigger] final(self).chunks()[i] == (if old(self).ids()[i] == id {
                (cx, cz)
            } else {
                old(self).chunks()[i]
            }),
            final(self).chunks().len() == old(self).chunks().len(),
    {
        match self.slot_of(id) {
            Some(i) => {
                self.chunks.set(i, (cx, cz));
                proof {
                    assert forall|j: int| 0 <= j < old(self).ids().len() implies #[trigger] self.chunks()[j] == (if old(self).ids()[j] == id {
                        (cx, cz)
                    } else {
                        old(self).chunks()[j]
                    }) by {
                        if j != i && old(self).ids()[j] == id {
                            if j < i {
                                assert(old(self).ids()[j] < old(self).ids()[i as int]);
                            } else {
                                assert(old(self).ids()[i as int] < old(self).ids()[j]);
                            }
                        }
                    }
                }
                true
            },
            None => false,
        }
    }

    /// The ids of the entities resident in the chunk `(cx, cz)`, in spawn order.
    pub fn in_chunk(&self, cx: i32, cz: i32) -> (r: Vec<u32>)
        requires
            self.wf(),
        ensures
            forall|id: u32| r@.contains(id) <==> resident(self.ids(), self.chunks(), id, (cx, cz)),
    {
        let mut out: Vec<u32> = Vec::new();
        let mut i: usize = 0;
        while i < self.ids.len()
            invariant
                self.wf(),
                i <= self.ids@.len(),
                forall|id: u32| out@.contains(id) <==> resident(self.ids@.take(i as int), self.chunks@.take(i as int), id, (cx, cz)),
            decreases self.ids@.len() - i,
        {
            let ghost before = out@;
            if self.chunks[i].0 == cx && self.chunks[i].1 == cz {
                out.push(self.ids[i]);
            }
            proof {
                assert forall|id: u32| out@.contains(id) <==> resident(self.ids@.take(i + 1), self.chunks@.take(i + 1), id, (cx, cz)) by {
                    if resident(self.ids@.take(i + 1), self.chunks@.take(i + 1), id, (cx, cz)) {
                        let k = choose|k: int| 0 <= k < i + 1 && #[trigger] self.ids@.take(i + 1)[k] == id && self.chunks@.take(i + 1)[k] == (cx, cz);
                        if k < i {
                            assert(self.ids@.take(i as int)[k] == id && self.chunks@.take(i as int)[k] == (cx, cz));
                            assert(before.contains(id));
                            let m = choose|m: int| 0 <= m < before.len() && #[trigger] before[m] == id;
                            assert(out@[m] == id);
                        } else {
                            assert(out@[out@.len() - 1] == id);
                        }
                    }
                    if out@.contains(id) {
                        let m = choose|m: int| 0 <= m < out@.len() && #[trigger] out@[m] == id;
                        if m < before.len() {
                            assert(before[m] == id);
                            assert(before.contains(id));
                            let k = choose|k: int| 0 <= k < i && #[trigger] self.ids@.take(i as int)[k] == id && self.chunks@.take(i as int)[k] == (cx, cz);
                            assert(self.ids@.take(i + 1)[k] == id && self.chunks@.take(i + 1)[k] == (cx, cz));
                        } else {
                            assert(self.ids@.take(i + 1)[i as int] == id && self.chunks@.take(i + 1)[i as int] == (cx, cz));
                        }
                    }
                }
            }
            i = i + 1;
        }
        proof {
            assert(self.ids@.take(self.ids@.len() as int) =~= self.ids@);
            assert(self.chunks@.take(self.chunks@.len() as int) =~= self.chunks@);
        }
        out
    }
}

/// Each entity is resident in the chunk recorded for it and in no other.
pub proof fn lemma_single_residency<E>(table: EntityTable<E>, slot: int, chunk: (i32, i32))
    requires
        table.wf(),
        0 <= slot < table.slots().len(),
    ensures
        resident(table.ids(), table.chunks(), table.ids()[slot], chunk) <==> chunk == table.chunks()[slot],
{
    if resident(table.ids(), table.chunks(), table.ids()[slot], chunk) {
        let k = choose|k: int| 0 <= k < table.ids().len() && #[trigger] table.ids()[k] == table.ids()[slot] && table.chunks()[k] == chunk;
        if k < slot {
            assert(table.ids()[k] < table.ids()[slot]);
        } else if slot < k {
            assert(table.ids()[slot] < table.ids()[k]);
        }
    }
}

} // verus!
