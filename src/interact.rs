//! Interaction of players with blocks in the world.

use vstd::prelude::*;

use crate::block;
use crate::block::door_is_open;
use crate::block::is_active;
use crate::block::repeater_delay;
use crate::block::trapdoor_is_open;
use crate::block::with_flag;
use crate::block::with_repeater_delay;
use crate::geom::BlockPos;
use crate::world::scheduled_after;
use crate::world::World;

verus! {

/// The delay, in ticks, before a pressed button springs back.
pub const BUTTON_DELAY: u64 = 20;

/// Whether interacting with a block of this id does something.
pub open spec fn is_interactive(id: u8) -> bool {
    id == block::BUTTON || id == block::LEVER || id == block::TRAPDOOR || id == block::IRON_DOOR
        || id == block::WOOD_DOOR || id == block::REPEATER || id == block::REPEATER_LIT
}

/// The metadata that a button, lever, trapdoor or repeater gets when interacted with.
pub open spec fn switched_metadata(id: u8, metadata: u8) -> u8 {
    if id == block::BUTTON {
        with_flag(metadata, 8, true)
    } else if id == block::LEVER {
        with_flag(metadata, 8, !is_active(metadata))
    } else if id == block::TRAPDOOR {
        with_flag(metadata, 4, !trapdoor_is_open(metadata))
    } else {
        with_repeater_delay(metadata, ((repeater_delay(metadata) + 1) % 4) as u8)
    }
}

/// The metadata of the lower half of a wooden door once toggled.
pub open spec fn toggled_door(metadata: u8) -> u8 {
    with_flag(metadata, 4, !door_is_open(metadata))
}

/// Whether `after` shows the lower door half at `p`, with metadata `m`, toggled in
/// `before`, and the upper half above it brought along.
pub open spec fn door_toggled(before: World, after: World, p: BlockPos, m: u8) -> bool {
    &&& after.block_at(p) == (if before.loaded(p) {
        Some((block::WOOD_DOOR, toggled_door(m) & 15))
    } else {
        None
    })
    &&& (before.block_at(p.spec_offset(0, 1, 0)) matches Some((i, _)) && i == block::WOOD_DOOR)
        ==> after.block_at(p.spec_offset(0, 1, 0)) == Some(
        (block::WOOD_DOOR, with_flag(toggled_door(m), 8, true) & 15),
    )
}

/// Whether `after` is `before` once the block `id`, `metadata` at `pos` was interacted
/// with: switches flip or step, a button is pressed and its release scheduled, a
/// wooden door toggles from its lower half, and nothing else happens.
pub open spec fn interaction_done(before: World, after: World, pos: BlockPos, id: u8, metadata: u8) -> bool {
    &&& (!is_interactive(id) || id == block::IRON_DOOR || (id == block::BUTTON && is_active(metadata)))
        ==> after == before
    &&& (id == block::LEVER || id == block::TRAPDOOR || id == block::REPEATER || id == block::REPEATER_LIT
        || (id == block::BUTTON && !is_active(metadata))) ==> after.block_at(pos) == (if before.loaded(pos) {
        Some((id, switched_metadata(id, metadata) & 15))
    } else {
        None
    })
    &&& (id == block::BUTTON && !is_active(metadata)) ==> scheduled_after(before.ticks(), after.ticks(), pos,
        block::BUTTON, (before.spec_time() + BUTTON_DELAY) as u64)
    &&& (id == block::WOOD_DOOR && !block::door_is_upper(metadata)) ==> door_toggled(before, after, pos, metadata)
    &&& (id == block::WOOD_DOOR && block::door_is_upper(metadata)) ==> match before.block_at(pos.spec_offset(0, -1, 0)) {
        Some((i, m)) => (i == block::WOOD_DOOR && !block::door_is_upper(m)) ==> door_toggled(before, after, pos.spec_offset(0, -1, 0), m),
        None => true,
    }
}

impl World {
    /// Interact with the block at `pos`: true where an interaction was handled, which
    /// keeps the player's hand item from being used.
    pub fn interact_block(&mut self, pos: BlockPos) -> (r: bool)
        requires
            old(self).wf(),
            pos.in_range(),
            old(self).spec_time() + BUTTON_DELAY <= u64::MAX,
        ensures
            final(self).wf(),
            r == (old(self).block_at(pos) matches Some((id, _)) && is_interactive(id)),
            old(self).block_at(pos) is None ==> *final(self) == *old(self),
            old(self).block_at(pos) matches Some((id, m)) ==> interaction_done(*old(self), *final(self), pos, id, m),
    {
        match self.get_block(pos) {
            Some((id, metadata)) => self.handle_interact_block(pos, id, metadata),
            None => false,
        }
    }

    /// Handle an interaction with the block `id`, `metadata` known to stand at `pos`.
    pub fn handle_interact_block(&mut self, pos: BlockPos, id: u8, metadata: u8) -> (r: bool)
        requires
            old(self).wf(),
            pos.in_range(),
            old(self).spec_time() + BUTTON_DELAY <= u64::MAX,
        ensures
            final(self).wf(),
            r == is_interactive(id),
            interaction_done(*old(self), *final(self), pos, id, metadata),
    {
        if id == block::BUTTON {
            self.interact_button(pos, metadata)
        } else if id == block::LEVER || id == block::TRAPDOOR || id == block::REPEATER || id
            == block::REPEATER_LIT {
            self.interact_switch(pos, id, metadata)
        } else if id == block::IRON_DOOR {
            true
        } else if id == block::WOOD_DOOR {
            self.interact_wood_door(pos, metadata)
        } else {
            false
        }
    }

    /// Press a button that is not pressed yet, and schedule its release.
    fn interact_button(&mut self, pos: BlockPos, metadata: u8) -> (r: bool)
        requires
            old(self).wf(),
            old(self).spec_time() + BUTTON_DELAY <= u64::MAX,
        ensures
            final(self).wf(),
            r,
            is_active(metadata) ==> *final(self) == *old(self),
            !is_active(metadata) ==> final(self).block_at(pos) == (if old(self).loaded(pos) {
                Some((block::BUTTON, with_flag(metadata, 8, true) & 15))
            } else {
                None
            }),
            !is_active(metadata) ==> scheduled_after(old(self).ticks(), final(self).ticks(), pos,
                block::BUTTON, (old(self).spec_time() + BUTTON_DELAY) as u64),
    {
        if !block::is_switch_active(metadata) {
            let m = block::set_flag(metadata, 8, true);
            self.set_block(pos, block::BUTTON, m);
            self.schedule_tick(pos, block::BUTTON, BUTTON_DELAY);
        }
        true
    }

    /// Flip a lever or a trapdoor, or step a repeater's delay.
    fn interact_switch(&mut self, pos: BlockPos, id: u8, metadata: u8) -> (r: bool)
        requires
            old(self).wf(),
            id == block::LEVER || id == block::TRAPDOOR || id == block::REPEATER || id
                == block::REPEATER_LIT,
        ensures
            final(self).wf(),
            r,
            final(self).block_at(pos) == (if old(self).loaded(pos) {
                Some((id, switched_metadata(id, metadata) & 15))
            } else {
                None
            }),
    {
        let m = if id == block::LEVER {
            block::set_flag(metadata, 8, !block::is_switch_active(metadata))
        } else if id == block::TRAPDOOR {
            block::set_flag(metadata, 4, !block::is_trapdoor_open(metadata))
        } else {
            let delay = block::get_repeater_delay(metadata);
            block::set_repeater_delay(metadata, (delay + 1) % 4)
        };
        self.set_block(pos, id, m);
        true
    }

    /// Open or close a wooden door: the upper half hands the interaction to the half
    /// below it, the lower half toggles and brings the upper half along.
    fn interact_wood_door(&mut self, pos: BlockPos, metadata: u8) -> (r: bool)
        requires
            old(self).wf(),
            pos.in_range(),
        ensures
            final(self).wf(),
            r,
            !block::door_is_upper(metadata) ==> door_toggled(*old(self), *final(self), pos, metadata),
            block::door_is_upper(metadata) ==> match old(self).block_at(pos.spec_offset(0, -1, 0)) {
                Some((i, m)) => (i == block::WOOD_DOOR && !block::door_is_upper(m)) ==> door_toggled(*old(self), *final(self), pos.spec_offset(0, -1, 0), m),
                None => true,
            },
    {
        if !block::is_door_upper(metadata) {
            return self.toggle_lower_door(pos, metadata);
        }
        let below = pos.offset(0, -1, 0);
        let (i, m) = match self.get_block(below) {
            Some(b) => b,
            None => return true,
        };
        if i != block::WOOD_DOOR {
            return true;
        }
        if !block::is_door_upper(m) {
            return self.toggle_lower_door(below, m);
        }
        // A stack of upper halves: walk down to the lower half under them.
        let mut cur = below;
        let mut cur_meta = m;
        while block::is_door_upper(cur_meta)
            invariant
                self.wf(),
                cur.in_range(),
                block::door_is_upper(metadata),
                block::door_is_upper(m),
                old(self).block_at(pos.spec_offset(0, -1, 0)) == Some((block::WOOD_DOOR, m)),
            decreases cur.y + 1,
        {
            let next = cur.offset(0, -1, 0);
            match self.get_block(next) {
                Some((i, m)) => {
                    if i != block::WOOD_DOOR {
                        return true;
                    }
                    cur = next;
                    cur_meta = m;
                },
                None => {
                    return true;
                },
            }
        }
        self.toggle_lower_door(cur, cur_meta)
    }

    fn toggle_lower_door(&mut self, pos: BlockPos, metadata: u8) -> (r: bool)
        requires
            old(self).wf(),
            pos.in_range(),
        ensures
            final(self).wf(),
            r,
            final(self).block_at(pos) == (if old(self).loaded(pos) {
                Some((block::WOOD_DOOR, toggled_door(metadata) & 15))
            } else {
                None
            }),
            door_toggled(*old(self), *final(self), pos, metadata),
    {
        let open = block::is_door_open(metadata);
        let m = block::set_flag(metadata, 4, !open);
        self.set_block(pos, block::WOOD_DOOR, m);
        let above = pos.offset(0, 1, 0);
        if self.is_block(above, block::WOOD_DOOR) {
            let upper = block::set_flag(m, 8, true);
            self.set_block(above, block::WOOD_DOOR, upper);
        }
        true
    }
}

} // verus!
