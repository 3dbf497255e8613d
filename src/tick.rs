//! The integer parts of the entity tick: timers, fire, pickup targets and the draws
//! of the creature AI that plan a new path.

use vstd::prelude::*;

use crate::geom::BlockPos;
use crate::rand::int_bounded;
use crate::rand::JavaRandom;

verus! {

/// Ticks after which an item entity despawns: five minutes.
pub const ITEM_LIFETIME: u32 = 6000;
/// Ticks between two checks that a painting still hangs on its wall.
pub const PAINTING_CHECK_TICKS: u32 = 100;
/// Ticks that a dead living entity stays before it is removed.
pub const DEATH_TICKS: u16 = 20;
/// Candidate targets drawn each time a creature plans a path.
pub const PATH_CANDIDATES: usize = 10;

/// The attack, hurt and death timers of a living entity.
#[derive(Clone, Copy, Debug, PartialEq, Eq, Structural)]
pub struct LivingTimers {
    pub attack_time: u16,
    pub hurt_time: u16,
    pub death_time: u16,
}

/// Decay the attack and hurt timers; a dead entity counts its death ticks. True where
/// the entity has been dead long enough to be removed.
pub fn tick_living_state(timers: &mut LivingTimers, health: i16) -> (r: bool)
    ensures
        final(timers).attack_time == (if old(timers).attack_time > 0 { old(timers).attack_time - 1 } else { 0int }),
        final(timers).hurt_time == (if old(timers).hurt_time > 0 { old(timers).hurt_time - 1 } else { 0int }),
        final(timers).death_time == (if health == 0 && old(timers).death_time < u16::MAX {
            old(timers).death_time + 1
        } else {
            old(timers).death_time as int
        }),
        r == (health == 0 && final(timers).death_time > DEATH_TICKS),
{
    timers.attack_time = timers.attack_time.saturating_sub(1);
    timers.hurt_time = timers.hurt_time.saturating_sub(1);
    if health == 0 {
        timers.death_time = timers.death_time.saturating_add(1);
        timers.death_time > DEATH_TICKS
    } else {
        false
    }
}

/// The fire time after one tick: a fire-immune entity stops burning, and a burning
/// one burns one tick less.
pub fn tick_fire(fire_time: u16, fire_immune: bool) -> (r: u16)
    ensures
        r == (if fire_immune || fire_time == 0 { 0int } else { fire_time - 1 }),
{
    if fire_immune || fire_time == 0 {
        0
    } else {
        fire_time - 1
    }
}

/// Count down an item's pickup delay; true where the item is old enough to despawn.
pub fn tick_item_timers(frozen_ticks: &mut u32, lifetime: u32) -> (r: bool)
    ensures
        *final(frozen_ticks) == (if *old(frozen_ticks) > 0 { *old(frozen_ticks) - 1 } else { 0int }),
        r == (lifetime >= ITEM_LIFETIME),
{
    if *frozen_ticks > 0 {
        *frozen_ticks = *frozen_ticks - 1;
    }
    lifetime >= ITEM_LIFETIME
}

/// Count a painting's ticks; true, and the count restarted, every hundred ticks, when
/// its wall is checked.
pub fn tick_painting(check_valid_time: &mut u32) -> (r: bool)
    requires
        *old(check_valid_time) < PAINTING_CHECK_TICKS,
    ensures
        r == (*old(check_valid_time) + 1 >= PAINTING_CHECK_TICKS),
        *final(check_valid_time) == (if r { 0int } else { *old(check_valid_time) + 1 }),
        *final(check_valid_time) < PAINTING_CHECK_TICKS,
{
    *check_valid_time = *check_valid_time + 1;
    if *check_valid_time >= PAINTING_CHECK_TICKS {
        *check_valid_time = 0;
        true
    } else {
        false
    }
}

/// What an entity near a picking-up entity is, as far as pickup goes.
#[derive(Clone, Copy, Debug, PartialEq, Eq, Structural)]
pub enum PickupKind {
    /// An item, with the ticks before it can be picked up.
    Item { frozen_ticks: u32 },
    /// An arrow, and whether it is stuck in a block.
    Arrow { stuck: bool },
    /// Anything else.
    Other,
}

/// Whether an entity of this kind can be picked up now.
pub open spec fn can_be_picked(kind: PickupKind) -> bool {
    match kind {
        PickupKind::Item { frozen_ticks } => frozen_ticks == 0,
        PickupKind::Arrow { stuck } => stuck,
        PickupKind::Other => false,
    }
}

/// The id of a nearby entity where it can be picked up.
pub open spec fn picked_id(e: (u32, PickupKind)) -> Option<u32> {
    if can_be_picked(e.1) {
        Some(e.0)
    } else {
        None
    }
}

/// The ids, in order, of the nearby entities that can be picked up: items whose delay
/// ran out and arrows stuck in a block.
pub fn pickup_targets(nearby: &Vec<(u32, PickupKind)>) -> (r: Vec<u32>)
    ensures
        r@ == nearby@.filter_map(|e: (u32, PickupKind)| picked_id(e)),
{
    let mut out: Vec<u32> = Vec::new();
    let mut i: usize = 0;
    while i < nearby.len()
        invariant
            i <= nearby@.len(),
            out@ == nearby@.take(i as int).filter_map(|e: (u32, PickupKind)| picked_id(e)),
        decreases nearby@.len() - i,
    {
        let (id, kind) = nearby[i];
        let picked = match kind {
            PickupKind::Item { frozen_ticks } => frozen_ticks == 0,
            PickupKind::Arrow { stuck } => stuck,
            PickupKind::Other => false,
        };
        proof {
            nearby@.lemma_filter_map_take_succ(|e: (u32, PickupKind)| picked_id(e), i as int);
        }
        if picked {
            out.push(id);
        }
        proof {
            assert(out@ =~= nearby@.take(i + 1).filter_map(|e: (u32, PickupKind)| picked_id(e)));
        }
        i = i + 1;
    }
    assert(nearby@.take(nearby@.len() as int) =~= nearby@);
    out
}

/// The state after, and the decision of, the draw that decides whether a creature
/// plans a new path: one time in 20 where it follows a path, one time in 80 where it
/// has none.
pub open spec fn replan_of(s: u64, has_path: bool) -> (u64, bool) {
    if has_path {
        (int_bounded(s, 20).0, int_bounded(s, 20).1 == 0)
    } else {
        (int_bounded(s, 80).0, int_bounded(s, 80).1 == 0)
    }
}

/// The state after, and the decision of, the draw by which a creature keeps following
/// its path: it forgets the path one time in 100.
pub open spec fn keeps_path_of(s: u64) -> (u64, bool) {
    (int_bounded(s, 100).0, int_bounded(s, 100).1 != 0)
}

/// Whether a creature keeps following its path this tick.
pub fn keep_path(rand: &mut JavaRandom) -> (r: bool)
    ensures
        (final(rand)@, r) == keeps_path_of(old(rand)@),
{
    rand.next_int_bounded(100) != 0
}

/// The state after, and the offset of, one candidate target: up to six blocks
/// horizontally and three vertically.
pub open spec fn offset_of(s: u64) -> (u64, (int, int, int)) {
    let (s1, x) = int_bounded(s, 13);
    let (s2, y) = int_bounded(s1, 7);
    let (s3, z) = int_bounded(s2, 13);
    (s3, (x - 6, y - 3, z - 6))
}

/// The state after `n` candidate offsets drawn from state `s`, and the offsets.
pub open spec fn offsets_of(s: u64, n: nat) -> (u64, Seq<(int, int, int)>)
    decreases n,
{
    if n == 0 {
        (s, Seq::empty())
    } else {
        let (s1, prev) = offsets_of(s, (n - 1) as nat);
        let (s2, o) = offset_of(s1);
        (s2, prev.push(o))
    }
}

proof fn lemma_offsets_len(s: u64, n: nat)
    ensures
        offsets_of(s, n).1.len() == n,
    decreases n,
{
    if n > 0 {
        lemma_offsets_len(s, (n - 1) as nat);
    }
}

/// Decide whether a creature plans a new path and, where it does, draw the candidate
/// targets around the block `origin` it stands in.
pub fn plan_candidates(rand: &mut JavaRandom, has_path: bool, origin: BlockPos) -> (r: Option<Vec<BlockPos>>)
    requires
        origin.in_range(),
    ensures
        ({
            let (s1, plan) = replan_of(old(rand)@, has_path);
            let (s2, offsets) = offsets_of(s1, PATH_CANDIDATES as nat);
            &&& r is Some == plan
            &&& !plan ==> final(rand)@ == s1
            &&& r matches Some(c) ==> final(rand)@ == s2 && c@.len() == PATH_CANDIDATES
                && forall|i: int| 0 <= i < PATH_CANDIDATES ==> #[trigger] c@[i] == origin.spec_offset(offsets[i].0, offsets[i].1, offsets[i].2)
        }),
{
    let plan = if has_path {
        rand.next_int_bounded(20) == 0
    } else {
        rand.next_int_bounded(80) == 0
    };
    if !plan {
        return None;
    }
    let ghost start = rand@;
    let mut out: Vec<BlockPos> = Vec::new();
    let mut i: usize = 0;
    while i < PATH_CANDIDATES
        invariant
            origin.in_range(),
            i <= PATH_CANDIDATES,
            out@.len() == i,
            rand@ == offsets_of(start, i as nat).0,
            forall|j: int| 0 <= j < i ==> #[trigger] out@[j] == origin.spec_offset(offsets_of(start, i as nat).1[j].0, offsets_of(start, i as nat).1[j].1, offsets_of(start, i as nat).1[j].2),
        decreases PATH_CANDIDATES - i,
    {
        let dx = rand.next_int_bounded(13) - 6;
        let dy = rand.next_int_bounded(7) - 3;
        let dz = rand.next_int_bounded(13) - 6;
        out.push(origin.offset(dx, dy, dz));
        proof {
            let prev = offsets_of(start, i as nat);
            let next = offsets_of(start, (i + 1) as nat);
            lemma_offsets_len(start, i as nat);
            assert(next.1 == prev.1.push(offset_of(prev.0).1));
            assert forall|j: int| 0 <= j < i + 1 implies #[trigger] out@[j] == origin.spec_offset(next.1[j].0, next.1[j].1, next.1[j].2) by {
                if j < i {
                    assert(next.1[j] == prev.1[j]);
                }
            }
        }
        i = i + 1;
    }
    Some(out)
}

} // verus!
