//! A player's inventories, and the order in which the client's inventory window shows
//! them.

use vstd::prelude::*;

use crate::item::empty_stack;
use crate::item::ItemStack;

verus! {

/// Slots of the main inventory; the hotbar is its first nine.
pub const MAIN_SLOTS: usize = 36;
/// Slots of the armor inventory.
pub const ARMOR_SLOTS: usize = 4;
/// Slots of the crafting grid; the 2 by 2 grid is its top left corner.
pub const CRAFT_SLOTS: usize = 9;
/// Slots of the hotbar.
pub const HOTBAR_SLOTS: u8 = 9;

/// One slot update of the inventory window: the window slot and what it holds.
#[derive(Clone, Copy, Debug, PartialEq, Eq, Structural)]
pub struct WindowSlot {
    pub slot: i16,
    pub stack: Option<ItemStack>,
}

/// The stack that the window shows for an inventory stack: nothing for an empty one.
pub open spec fn shown(stack: ItemStack) -> Option<ItemStack> {
    if stack.spec_is_empty() {
        None
    } else {
        Some(stack)
    }
}

/// The window slot updates for a player's inventories, in the legacy order: the 2 by 2
/// crafting grid in slots 1 to 4, the armor in 5 to 8, then the main inventory in 9 to
/// 44, where window slot `9 + i` shows main slot `(i + 9) % 36`, so that the hotbar
/// comes last.
pub open spec fn window_of(craft: Seq<ItemStack>, armor: Seq<ItemStack>, main: Seq<ItemStack>) -> Seq<WindowSlot> {
    Seq::new(44, |i: int|
        if i < 4 {
            WindowSlot { slot: (i + 1) as i16, stack: shown(craft[i]) }
        } else if i < 8 {
            WindowSlot { slot: (i + 1) as i16, stack: shown(armor[i - 4]) }
        } else {
            WindowSlot { slot: (i + 1) as i16, stack: shown(main[(i - 8 + 9) % 36]) }
        })
}

/// The inventories of a player.
pub struct PlayerInventory {
    pub main_inv: Vec<ItemStack>,
    pub armor_inv: Vec<ItemStack>,
    pub craft_inv: Vec<ItemStack>,
    pub cursor_stack: ItemStack,
    /// The selected hotbar slot, in `0..9`.
    pub hand_slot: u8,
}

impl PlayerInventory {
    pub open spec fn wf(&self) -> bool {
        &&& self.main_inv@.len() == MAIN_SLOTS
        &&& self.armor_inv@.len() == ARMOR_SLOTS
        &&& self.craft_inv@.len() == CRAFT_SLOTS
        &&& self.hand_slot < HOTBAR_SLOTS
    }

    /// Empty inventories, the first hotbar slot selected.
    pub fn new() -> (r: PlayerInventory)
        ensures
            r.wf(),
            forall|i: int| 0 <= i < MAIN_SLOTS ==> r.main_inv@[i] == empty_stack(),
            forall|i: int| 0 <= i < ARMOR_SLOTS ==> r.armor_inv@[i] == empty_stack(),
            forall|i: int| 0 <= i < CRAFT_SLOTS ==> r.craft_inv@[i] == empty_stack(),
            r.cursor_stack == empty_stack(),
            r.hand_slot == 0,
    {
        PlayerInventory {
            main_inv: vec![ItemStack::empty(); MAIN_SLOTS],
            armor_inv: vec![ItemStack::empty(); ARMOR_SLOTS],
            craft_inv: vec![ItemStack::empty(); CRAFT_SLOTS],
            cursor_stack: ItemStack::empty(),
            hand_slot: 0,
        }
    }

    /// A copy of these inventories, slot for slot.
    pub fn snapshot(&self) -> (r: PlayerInventory)
        requires
            self.wf(),
        ensures
            r.wf(),
            r.main_inv@ == self.main_inv@,
            r.armor_inv@ == self.armor_inv@,
            r.craft_inv@ == self.craft_inv@,
            r.cursor_stack == self.cursor_stack,
            r.hand_slot == self.hand_slot,
    {
        PlayerInventory {
            main_inv: copy_stacks(&self.main_inv),
            armor_inv: copy_stacks(&self.armor_inv),
            craft_inv: copy_stacks(&self.craft_inv),
            cursor_stack: self.cursor_stack,
            hand_slot: self.hand_slot,
        }
    }

    /// The slot updates that show these inventories in the client's window.
    pub fn window_items(&self) -> (r: Vec<WindowSlot>)
        requires
            self.wf(),
        ensures
            r@ == window_of(self.craft_inv@, self.armor_inv@, self.main_inv@),
    {
        let mut out: Vec<WindowSlot> = Vec::new();
        let mut i: usize = 0;
        while i < 4
            invariant
                self.wf(),
                i <= 4,
                out@ == window_of(self.craft_inv@, self.armor_inv@, self.main_inv@).take(i as int),
            decreases 4 - i,
        {
            out.push(WindowSlot { slot: (i + 1) as i16, stack: self.craft_inv[i].to_non_empty() });
            i = i + 1;
            assert(out@ =~= window_of(self.craft_inv@, self.armor_inv@, self.main_inv@).take(i as int));
        }
        let mut i: usize = 0;
        while i < 4
            invariant
                self.wf(),
                i <= 4,
                out@ == window_of(self.craft_inv@, self.armor_inv@, self.main_inv@).take(4 + i),
            decreases 4 - i,
        {
            out.push(WindowSlot { slot: (i + 5) as i16, stack: self.armor_inv[i].to_non_empty() });
            i = i + 1;
            assert(out@ =~= window_of(self.craft_inv@, self.armor_inv@, self.main_inv@).take(4 + i));
        }
        let mut i: usize = 0;
        while i < 36
            invariant
                self.wf(),
                i <= 36,
                out@ == window_of(self.craft_inv@, self.armor_inv@, self.main_inv@).take(8 + i),
            decreases 36 - i,
        {
            out.push(WindowSlot { slot: (i + 9) as i16, stack: self.main_inv[(i + 9) % 36].to_non_empty() });
            i = i + 1;
            assert(out@ =~= window_of(self.craft_inv@, self.armor_inv@, self.main_inv@).take(8 + i));
        }
        assert(out@ =~= window_of(self.craft_inv@, self.armor_inv@, self.main_inv@));
        out
    }
}

/// Saving a player's inventories and restoring them later shows the client the very
/// window it saw before: the saved copy keeps every slot, the cursor stack and the
/// selected hotbar slot.
pub proof fn lemma_saved_inventory_restores(live: PlayerInventory, saved: PlayerInventory)
    requires
        live.wf(),
        saved.main_inv@ == live.main_inv@,
        saved.armor_inv@ == live.armor_inv@,
        saved.craft_inv@ == live.craft_inv@,
        saved.cursor_stack == live.cursor_stack,
        saved.hand_slot == live.hand_slot,
    ensures
        saved.wf(),
        window_of(saved.craft_inv@, saved.armor_inv@, saved.main_inv@) == window_of(
            live.craft_inv@,
            live.armor_inv@,
            live.main_inv@,
        ),
{
}

/// A copy of a list of stacks.
fn copy_stacks(stacks: &Vec<ItemStack>) -> (r: Vec<ItemStack>)
    ensures
        r@ == stacks@,
{
    let mut out: Vec<ItemStack> = Vec::new();
    let mut i: usize = 0;
    while i < stacks.len()
        invariant
            i <= stacks@.len(),
            out@ == stacks@.take(i as int),
        decreases stacks@.len() - i,
    {
        out.push(stacks[i]);
        i = i + 1;
        assert(out@ =~= stacks@.take(i as int));
    }
    assert(out@ =~= stacks@);
    out
}

} // verus!
