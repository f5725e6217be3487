//! Decisions the game loop takes on player input: what a dig status means,
//! which hotbar slot is selected, sneaking, creative slot writes, and what
//! closing a window does to the cursor and the crafting grid.

use vstd::prelude::*;
use crate::slot::{Slot, SlotView, empty_view};
use crate::click::DragState;
use crate::click_handler::views;
use crate::inventory::{
    CraftingGrid, GRID_SLOTS, INVENTORY_SLOTS, Inventory, insert_in_bounds, insert_spec,
    inventory_window_slot_spec, try_insert_into_range,
};

verus! {

/// What a block-dig packet asks for.
#[derive(Debug, Clone, Copy, PartialEq, Eq, Structural)]
pub enum DigAction {
    /// Break the block (status 0).
    Dig,
    /// Drop the whole held stack (status 3).
    DropStack,
    /// Drop one held item (status 4).
    DropOne,
    /// Any other status: nothing.
    Ignore,
}

/// The action of dig status `status`.
pub open spec fn dig_action_spec(status: i32) -> DigAction {
    if status == 0 {
        DigAction::Dig
    } else if status == 3 {
        DigAction::DropStack
    } else if status == 4 {
        DigAction::DropOne
    } else {
        DigAction::Ignore
    }
}

/// Decodes a block-dig status.
pub fn dig_action(status: i32) -> (r: DigAction)
    ensures
        r == dig_action_spec(status),
{
    match status {
        0 => DigAction::Dig,
        3 => DigAction::DropStack,
        4 => DigAction::DropOne,
        _ => DigAction::Ignore,
    }
}

/// The hotbar slot a held-item packet selects: the slot itself when it is
/// 0-8; anything else leaves the selection unchanged.
pub fn held_slot_update(slot: i16) -> (r: Option<u8>)
    ensures
        r == (if 0 <= slot <= 8 { Some(slot as u8) } else { None::<u8> }),
{
    if 0 <= slot && slot <= 8 {
        Some(slot as u8)
    } else {
        None
    }
}

/// Applies a held-item packet to the inventory.
pub fn select_hotbar_slot(inv: &mut Inventory, slot: i16)
    ensures
        final(inv).slots == old(inv).slots,
        final(inv).cursor == old(inv).cursor,
        final(inv).held_slot == (if 0 <= slot <= 8 { slot as u8 } else { old(inv).held_slot }),
{
    if let Some(idx) = held_slot_update(slot) {
        inv.held_slot = idx;
    }
}

/// Whether an entity action starts (`true`) or stops (`false`) sneaking;
/// `None` for any other action.
pub fn sneak_change(action_id: i32) -> (r: Option<bool>)
    ensures
        r == (if action_id == 0 {
            Some(true)
        } else if action_id == 1 {
            Some(false)
        } else {
            None::<bool>
        }),
{
    match action_id {
        0 => Some(true),
        1 => Some(false),
        _ => None,
    }
}

/// The inventory slot behind player-window slot `slot`: hotbar 36-44 is
/// 0-8 and main 9-35 stays 9-35.
pub open spec fn window_to_index_spec(slot: i16) -> Option<usize> {
    if 36 <= slot <= 44 {
        Some((slot - 36) as usize)
    } else if 9 <= slot <= 35 {
        Some(slot as usize)
    } else {
        None
    }
}

/// Maps a player-window protocol slot to an inventory slot.
pub fn window_to_index(slot: i16) -> (r: Option<usize>)
    ensures
        r == window_to_index_spec(slot),
{
    if 36 <= slot && slot <= 44 {
        Some((slot - 36) as usize)
    } else if 9 <= slot && slot <= 35 {
        Some(slot as usize)
    } else {
        None
    }
}

/// Mapping an inventory slot to its player-window slot and back gives the
/// slot again, and every window slot that maps comes from its slot.
pub proof fn window_index_roundtrip(index: int, slot: i16)
    requires
        0 <= index < INVENTORY_SLOTS,
    ensures
        window_to_index_spec(inventory_window_slot_spec(index, false) as i16) == Some(index as usize),
        window_to_index_spec(slot) matches Some(i) ==> inventory_window_slot_spec(i as int, false) == slot,
{
}

/// What a creative-mode slot packet does.
#[derive(Debug, Clone, Copy, PartialEq, Eq, Structural)]
pub enum CreativeSlotAction {
    /// Slot -1: drop the item into the world.
    Drop,
    /// Write the item into this inventory slot.
    Store(usize),
    /// The slot is not an inventory slot: nothing.
    Ignore,
}

/// Decodes the target of a creative slot packet.
pub fn creative_slot_action(slot: i16) -> (r: CreativeSlotAction)
    ensures
        r == (if slot == -1 {
            CreativeSlotAction::Drop
        } else {
            match window_to_index_spec(slot) {
                Some(i) => CreativeSlotAction::Store(i),
                None => CreativeSlotAction::Ignore,
            }
        }),
{
    if slot == -1 {
        CreativeSlotAction::Drop
    } else {
        match window_to_index(slot) {
            Some(i) => CreativeSlotAction::Store(i),
            None => CreativeSlotAction::Ignore,
        }
    }
}

/// Closing a window: the cursor is emptied and its item goes back into the
/// inventory (onto a stack with room for all of it, else into the first
/// empty slot); what does not fit is returned, as item id and count, to
/// be dropped in the world. Closing a crafting table also empties the grid
/// and sets it back to 2x2. Any drag in progress is cancelled.
pub fn close_window(
    inv: &mut Inventory,
    grid: &mut CraftingGrid,
    drag: &mut DragState,
    crafting_table: bool,
) -> (r: Option<(i32, i32)>)
    requires
        old(inv).slots@.len() == INVENTORY_SLOTS,
        old(inv).cursor.item_id matches Some(id) ==> insert_in_bounds(
            views(old(inv).slots@),
            id,
            old(inv).cursor.item_count as int,
            0,
            INVENTORY_SLOTS as int,
        ),
    ensures
        final(inv).cursor@ == empty_view(),
        final(inv).held_slot == old(inv).held_slot,
        final(inv).slots@.len() == INVENTORY_SLOTS,
        match old(inv).cursor.item_id {
            None => r is None && views(final(inv).slots@) == views(old(inv).slots@),
            Some(id) => match insert_spec(
                views(old(inv).slots@),
                id,
                old(inv).cursor.item_count as int,
                0,
                INVENTORY_SLOTS as int,
            ) {
                Some(s) => r is None && views(final(inv).slots@) == s,
                None => r == Some((id, old(inv).cursor.item_count)) && views(final(inv).slots@) == views(
                    old(inv).slots@,
                ),
            },
        },
        crafting_table ==> {
            &&& final(grid).grid_size == 2
            &&& final(grid).slots@.len() == GRID_SLOTS
            &&& forall|i: int| 0 <= i < GRID_SLOTS ==> (#[trigger] final(grid).slots@[i])@ == empty_view()
            &&& final(grid).output@ == empty_view()
        },
        !crafting_table ==> *final(grid) == *old(grid),
        *final(drag) is Inactive,
{
    let item_id = inv.cursor.item_id;
    let count = inv.cursor.item_count;
    inv.cursor = Slot::empty();
    let mut dropped: Option<(i32, i32)> = None;
    if let Some(id) = item_id {
        let placed = try_insert_into_range(&mut inv.slots, id, count, 0, INVENTORY_SLOTS);
        if !placed {
            dropped = Some((id, count));
        }
    }
    if crafting_table {
        grid.grid_size = 2;
        grid.clear();
    }
    drag.cancel();
    dropped
}

} // verus!
