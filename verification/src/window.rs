//! The window a player has open, how its protocol slots resolve, and how a
//! window click is routed to the rule that handles it.

use vstd::prelude::*;
use crate::slot::{Slot, SlotView, empty_view};
use crate::inventory::{CraftingGrid, Inventory};
use crate::click_handler::{left_click, left_click_spec, right_click, right_click_spec, views};
use crate::slot::view_can_stack;
use crate::slot::view_is_empty;
use crate::click::{
    ClickAction, WindowSlot, chest_mappable, chest_slot_spec, chest_spec, click_type_spec,
    crafting_table_mappable, crafting_table_slot_spec, crafting_table_spec, player_inv_mappable,
    player_inv_slot_spec, player_inventory_spec, resolve_chest, resolve_crafting_table,
    resolve_player_inventory, to_protocol_slot_chest, to_protocol_slot_crafting_table,
    to_protocol_slot_player_inv, click_type_from_action,
};

verus! {

/// The window a player currently has open.
#[derive(Debug, Clone, Copy)]
pub enum WindowType {
    /// The player's own inventory window (window id 0).
    PlayerInventory,
    /// A crafting table window (3x3 grid).
    CraftingTable {
        /// Window id assigned when the table was opened.
        window_id: u8,
    },
    /// A chest or double chest.
    Chest {
        /// Window id assigned when the chest was opened.
        window_id: u8,
        /// Number of container slots (27 or 54).
        container_size: usize,
        /// Block position of the container (the primary half of a double).
        position: (i32, i32, i32),
    },
}

/// The logical slot behind protocol slot `slot` of window `wt`.
pub open spec fn resolve_slot_spec(wt: WindowType, slot: i16) -> Option<WindowSlot> {
    match wt {
        WindowType::PlayerInventory => player_inventory_spec(slot),
        WindowType::CraftingTable { .. } => crafting_table_spec(slot),
        WindowType::Chest { container_size, .. } => chest_spec(slot, container_size),
    }
}

/// Resolves a protocol slot of the open window.
pub fn resolve_slot(wt: &WindowType, slot: i16) -> (r: Option<WindowSlot>)
    ensures
        r == resolve_slot_spec(*wt, slot),
{
    match wt {
        WindowType::PlayerInventory => resolve_player_inventory(slot),
        WindowType::CraftingTable { .. } => resolve_crafting_table(slot),
        WindowType::Chest { container_size, .. } => resolve_chest(slot, *container_size),
    }
}

/// Whether `ws` maps back to a protocol slot of `wt` without overflow.
pub open spec fn slot_mappable(wt: WindowType, ws: WindowSlot) -> bool {
    match wt {
        WindowType::PlayerInventory => player_inv_mappable(ws),
        WindowType::CraftingTable { .. } => crafting_table_mappable(ws),
        WindowType::Chest { container_size, .. } => chest_mappable(ws, container_size),
    }
}

/// The window id and protocol slot a slot update for `ws` is sent to.
pub open spec fn slot_target_spec(wt: WindowType, ws: WindowSlot) -> Option<(i32, i16)> {
    match wt {
        WindowType::PlayerInventory => match player_inv_slot_spec(ws) {
            Some(s) => Some((0i32, s)),
            None => None,
        },
        WindowType::CraftingTable { window_id } => match crafting_table_slot_spec(ws) {
            Some(s) => Some((window_id as i32, s)),
            None => None,
        },
        WindowType::Chest { window_id, container_size, .. } => match chest_slot_spec(ws, container_size) {
            Some(s) => Some((window_id as i32, s)),
            None => None,
        },
    }
}

/// Where a slot update for `ws` goes: the window id and its protocol slot,
/// or `None` where the window has no such slot.
pub fn slot_target(wt: &WindowType, ws: &WindowSlot) -> (r: Option<(i32, i16)>)
    requires
        slot_mappable(*wt, *ws),
    ensures
        r == slot_target_spec(*wt, *ws),
{
    let (window_id, proto) = match wt {
        WindowType::PlayerInventory => (0i32, to_protocol_slot_player_inv(ws)),
        WindowType::CraftingTable { window_id } => (*window_id as i32, to_protocol_slot_crafting_table(ws)),
        WindowType::Chest { window_id, container_size, .. } => (
            *window_id as i32,
            to_protocol_slot_chest(ws, *container_size),
        ),
    };
    match proto {
        Some(s) => Some((window_id, s)),
        None => None,
    }
}

/// The rule a window click is handed to.
#[derive(Debug, Clone, Copy)]
pub enum ClickStep {
    /// Begin collecting a drag of this type.
    BeginDrag {
        /// Drag type.
        drag_type: u8,
    },
    /// Record a slot of the current drag.
    AddDragSlot {
        /// Protocol slot dragged over.
        slot: i16,
    },
    /// Finish the current drag and distribute.
    EndDrag {
        /// Drag type.
        drag_type: u8,
    },
    /// A left or right click on a slot.
    Click {
        /// The slot clicked.
        ws: WindowSlot,
        /// Right button.
        right: bool,
    },
    /// A shift-click quick move.
    ShiftClick {
        /// The slot clicked.
        ws: WindowSlot,
    },
    /// Drop from the cursor.
    DropCursor {
        /// Drop the whole stack.
        drop_all: bool,
    },
    /// Drop from a slot.
    DropSlot {
        /// The slot dropped from.
        ws: WindowSlot,
        /// Drop the whole stack.
        drop_all: bool,
    },
    /// Swap a slot with a hotbar slot.
    HotbarSwap {
        /// The slot hovered.
        ws: WindowSlot,
        /// Hotbar slot (0-8).
        hotbar: u8,
    },
    /// Collect matching items onto the cursor.
    DoubleClick,
    /// Nothing to do.
    Ignore,
}

/// How a window click is handled.
#[derive(Debug, Clone, Copy)]
pub struct ClickRoute {
    /// The rule that handles the click.
    pub step: ClickStep,
    /// Whether plugins are told of the click first (and may cancel it).
    pub notify_container: bool,
}

/// The step for a slot-targeted click: `None` slot means ignore.
pub open spec fn slot_step(ws: Option<WindowSlot>, make: spec_fn(WindowSlot) -> ClickStep) -> ClickStep {
    match ws {
        Some(w) => make(w),
        None => ClickStep::Ignore,
    }
}

/// The step a click takes in window `wt`.
pub open spec fn click_step_spec(wt: WindowType, action: ClickAction) -> ClickStep {
    match action {
        ClickAction::StartDrag { drag_type } => ClickStep::BeginDrag { drag_type },
        ClickAction::AddDragSlot { slot } => ClickStep::AddDragSlot { slot },
        ClickAction::EndDrag { drag_type } => ClickStep::EndDrag { drag_type },
        ClickAction::LeftClick { slot } => slot_step(
            resolve_slot_spec(wt, slot),
            |w: WindowSlot| ClickStep::Click { ws: w, right: false },
        ),
        ClickAction::RightClick { slot } => slot_step(
            resolve_slot_spec(wt, slot),
            |w: WindowSlot| ClickStep::Click { ws: w, right: true },
        ),
        ClickAction::ShiftClick { slot } => slot_step(
            resolve_slot_spec(wt, slot),
            |w: WindowSlot| ClickStep::ShiftClick { ws: w },
        ),
        ClickAction::DropCursor { drop_all } => ClickStep::DropCursor { drop_all },
        ClickAction::DropSlot { slot, drop_all } => slot_step(
            resolve_slot_spec(wt, slot),
            |w: WindowSlot| ClickStep::DropSlot { ws: w, drop_all },
        ),
        ClickAction::HotbarSwap { slot, hotbar } => slot_step(
            resolve_slot_spec(wt, slot),
            |w: WindowSlot| ClickStep::HotbarSwap { ws: w, hotbar },
        ),
        ClickAction::OffhandSwap { .. } => ClickStep::Ignore,
        ClickAction::DoubleClick { .. } => ClickStep::DoubleClick,
    }
}

/// Whether a step acts on a resolved slot.
pub open spec fn targets_slot(step: ClickStep) -> bool {
    step is Click || step is ShiftClick || step is DropSlot || step is HotbarSwap
}

/// Routes a parsed click: drags are collected, slot clicks go to their
/// rule once the slot resolves in the open window (else the click is
/// ignored), the offhand swap is ignored. Plugins are told of a slot click
/// first when a container or crafting table is open and the click has a
/// public click type.
pub fn route_window_click(wt: &WindowType, action: &ClickAction) -> (r: ClickRoute)
    ensures
        r.step == click_step_spec(*wt, *action),
        r.notify_container == (targets_slot(r.step) && !(*wt is PlayerInventory) && click_type_spec(
            *action,
        ) is Some),
{
    let step = match action {
        ClickAction::StartDrag { drag_type } => ClickStep::BeginDrag { drag_type: *drag_type },
        ClickAction::AddDragSlot { slot } => ClickStep::AddDragSlot { slot: *slot },
        ClickAction::EndDrag { drag_type } => ClickStep::EndDrag { drag_type: *drag_type },
        ClickAction::LeftClick { slot } => match resolve_slot(wt, *slot) {
            Some(ws) => ClickStep::Click { ws, right: false },
            None => ClickStep::Ignore,
        },
        ClickAction::RightClick { slot } => match resolve_slot(wt, *slot) {
            Some(ws) => ClickStep::Click { ws, right: true },
            None => ClickStep::Ignore,
        },
        ClickAction::ShiftClick { slot } => match resolve_slot(wt, *slot) {
            Some(ws) => ClickStep::ShiftClick { ws },
            None => ClickStep::Ignore,
        },
        ClickAction::DropCursor { drop_all } => ClickStep::DropCursor { drop_all: *drop_all },
        ClickAction::DropSlot { slot, drop_all } => match resolve_slot(wt, *slot) {
            Some(ws) => ClickStep::DropSlot { ws, drop_all: *drop_all },
            None => ClickStep::Ignore,
        },
        ClickAction::HotbarSwap { slot, hotbar } => match resolve_slot(wt, *slot) {
            Some(ws) => ClickStep::HotbarSwap { ws, hotbar: *hotbar },
            None => ClickStep::Ignore,
        },
        ClickAction::OffhandSwap { .. } => ClickStep::Ignore,
        ClickAction::DoubleClick { .. } => ClickStep::DoubleClick,
    };
    let slot_click = match step {
        ClickStep::Click { .. } | ClickStep::ShiftClick { .. } | ClickStep::DropSlot { .. }
        | ClickStep::HotbarSwap { .. } => true,
        _ => false,
    };
    let is_player = match wt {
        WindowType::PlayerInventory => true,
        _ => false,
    };
    let notify = slot_click && !is_player && click_type_from_action(action).is_some();
    ClickRoute { step, notify_container: notify }
}

/// Where a shift-click on a slot moves its stack.
#[derive(Debug, Clone, Copy, PartialEq, Eq, Structural)]
pub enum ShiftMove {
    /// Craft as many results as fit into the inventory.
    CraftAll,
    /// Move the grid stack into the inventory.
    GridToInventory,
    /// Move the container stack into the inventory.
    ContainerToInventory,
    /// Move the inventory stack into the open chest.
    InventoryToContainer,
    /// Move the inventory stack into inventory slots `start..end`.
    InventoryRange {
        /// First slot.
        start: usize,
        /// One past the last slot.
        end: usize,
    },
    /// Nothing moves.
    Ignore,
}

/// The move a shift-click on `ws` makes in window `wt`.
pub open spec fn shift_move_spec(wt: WindowType, ws: WindowSlot) -> ShiftMove {
    match ws {
        WindowSlot::CraftOutput => ShiftMove::CraftAll,
        WindowSlot::CraftGrid(_) => ShiftMove::GridToInventory,
        WindowSlot::Container(_) => ShiftMove::ContainerToInventory,
        WindowSlot::MainInventory(_) => if wt is Chest {
            ShiftMove::InventoryToContainer
        } else {
            ShiftMove::InventoryRange { start: 0, end: 9 }
        },
        WindowSlot::Hotbar(_) => if wt is Chest {
            ShiftMove::InventoryToContainer
        } else {
            ShiftMove::InventoryRange { start: 9, end: 36 }
        },
        WindowSlot::Armor(_) | WindowSlot::Offhand => ShiftMove::Ignore,
    }
}

/// A shift-click on a stack of the player's own inventory (main part or
/// hotbar, any slot) sends it into the chest when a chest is open; with no
/// chest open it moves it to the other part of the inventory: main
/// inventory stacks (slots 9-35) to the hotbar (0-8), hotbar stacks to the
/// main inventory, never into the range the slot itself lies in.
pub proof fn shift_click_inventory_destination(wt: WindowType, ws: WindowSlot)
    requires
        ws is MainInventory || ws is Hotbar,
    ensures
        wt is Chest ==> shift_move_spec(wt, ws) == ShiftMove::InventoryToContainer,
        !(wt is Chest) ==> (shift_move_spec(wt, ws) matches ShiftMove::InventoryRange { start, end } && (
        ws is MainInventory ==> start == 0 && end == 9) && (ws is Hotbar ==> start == 9 && end == 36)),
        !(wt is Chest) && (ws matches WindowSlot::MainInventory(i) && 9 <= i < 36) ==> (shift_move_spec(
            wt,
            ws,
        ) matches ShiftMove::InventoryRange { start, end } && !(start <= ws->MainInventory_0 < end)),
        !(wt is Chest) && (ws matches WindowSlot::Hotbar(i) && i < 9) ==> (shift_move_spec(
            wt,
            ws,
        ) matches ShiftMove::InventoryRange { start, end } && !(start <= ws->Hotbar_0 < end)),
{
}

/// Decides a shift-click: the output crafts repeatedly, grid and
/// container stacks go to the inventory, inventory stacks go to an open
/// chest or else between the main inventory and the hotbar; armor and
/// offhand do nothing.
pub fn shift_move(wt: &WindowType, ws: &WindowSlot) -> (r: ShiftMove)
    ensures
        r == shift_move_spec(*wt, *ws),
{
    let chest = match wt {
        WindowType::Chest { .. } => true,
        _ => false,
    };
    match ws {
        WindowSlot::CraftOutput => ShiftMove::CraftAll,
        WindowSlot::CraftGrid(_) => ShiftMove::GridToInventory,
        WindowSlot::Container(_) => ShiftMove::ContainerToInventory,
        WindowSlot::MainInventory(_) => if chest {
            ShiftMove::InventoryToContainer
        } else {
            ShiftMove::InventoryRange { start: 0, end: 9 }
        },
        WindowSlot::Hotbar(_) => if chest {
            ShiftMove::InventoryToContainer
        } else {
            ShiftMove::InventoryRange { start: 9, end: 36 }
        },
        WindowSlot::Armor(_) | WindowSlot::Offhand => ShiftMove::Ignore,
    }
}

/// The first `n` dragged-over protocol slots that resolve in window `wt`,
/// each with its logical slot, in drag order.
pub open spec fn resolved_drag(wt: WindowType, slots: Seq<i16>, n: int) -> Seq<(i16, WindowSlot)>
    decreases n,
{
    if n <= 0 {
        Seq::empty()
    } else {
        match resolve_slot_spec(wt, slots[n - 1]) {
            Some(ws) => resolved_drag(wt, slots, n - 1).push((slots[n - 1], ws)),
            None => resolved_drag(wt, slots, n - 1),
        }
    }
}

/// The targets of a finished drag: the dragged-over slots that exist in
/// the open window, in drag order; the others are dropped.
pub fn resolve_drag_slots(wt: &WindowType, slots: &Vec<i16>) -> (r: Vec<(i16, WindowSlot)>)
    ensures
        r@ == resolved_drag(*wt, slots@, slots@.len() as int),
{
    let mut out: Vec<(i16, WindowSlot)> = Vec::new();
    let mut i: usize = 0;
    while i < slots.len()
        invariant
            i <= slots@.len(),
            out@ == resolved_drag(*wt, slots@, i as int),
        decreases slots@.len() - i,
    {
        let s = slots[i];
        if let Some(ws) = resolve_slot(wt, s) {
            out.push((s, ws));
        }
        i = i + 1;
    }
    out
}

/// The item a player-side window slot holds: the crafting output or a
/// grid slot, an inventory slot, or nothing for armor and offhand (not
/// tracked); `None` for a container slot, which the container stores.
pub open spec fn player_slot_spec(inv: Inventory, grid: CraftingGrid, ws: WindowSlot) -> Option<SlotView> {
    match ws {
        WindowSlot::CraftOutput => Some(grid.output@),
        WindowSlot::CraftGrid(i) => Some(grid.slots@[i as int]@),
        WindowSlot::MainInventory(i) => Some(inv.slots@[i as int]@),
        WindowSlot::Hotbar(i) => Some(inv.slots@[i as int]@),
        WindowSlot::Armor(_) | WindowSlot::Offhand => Some(empty_view()),
        WindowSlot::Container(_) => None,
    }
}

/// Whether `ws` indexes inside the grid and inventory it names.
pub open spec fn player_slot_in_range(inv: Inventory, grid: CraftingGrid, ws: WindowSlot) -> bool {
    match ws {
        WindowSlot::CraftGrid(i) => i < grid.slots@.len(),
        WindowSlot::MainInventory(i) => i < inv.slots@.len(),
        WindowSlot::Hotbar(i) => i < inv.slots@.len(),
        _ => true,
    }
}

/// Reads the item of a player-side window slot.
pub fn read_player_slot(inv: &Inventory, grid: &CraftingGrid, ws: &WindowSlot) -> (r: Option<Slot>)
    requires
        player_slot_in_range(*inv, *grid, *ws),
    ensures
        match (r, player_slot_spec(*inv, *grid, *ws)) {
            (Some(s), Some(v)) => s@ == v,
            (None, None) => true,
            _ => false,
        },
{
    match ws {
        WindowSlot::CraftOutput => Some(grid.output.copy()),
        WindowSlot::CraftGrid(i) => Some(grid.slots[*i].copy()),
        WindowSlot::MainInventory(i) => Some(inv.slots[*i].copy()),
        WindowSlot::Hotbar(i) => Some(inv.slots[*i].copy()),
        WindowSlot::Armor(_) | WindowSlot::Offhand => Some(Slot::empty()),
        WindowSlot::Container(_) => None,
    }
}

/// Writes an item into a player-side window slot: the crafting output, a
/// grid slot or an inventory slot; armor, offhand (not tracked) and
/// container slots (stored by the container) are left alone.
pub fn write_player_slot(inv: &mut Inventory, grid: &mut CraftingGrid, ws: &WindowSlot, item: Slot)
    requires
        player_slot_in_range(*old(inv), *old(grid), *ws),
    ensures
        final(inv).cursor == old(inv).cursor,
        final(inv).held_slot == old(inv).held_slot,
        final(grid).grid_size == old(grid).grid_size,
        match *ws {
            WindowSlot::CraftOutput => final(grid).output == item && final(grid).slots@ == old(grid).slots@
                && final(inv).slots@ == old(inv).slots@,
            WindowSlot::CraftGrid(i) => final(grid).slots@ == old(grid).slots@.update(i as int, item)
                && final(grid).output == old(grid).output && final(inv).slots@ == old(inv).slots@,
            WindowSlot::MainInventory(i) | WindowSlot::Hotbar(i) => final(inv).slots@ == old(inv).slots@.update(
                i as int,
                item,
            ) && *final(grid) == *old(grid),
            _ => *final(inv) == *old(inv) && *final(grid) == *old(grid),
        },
{
    match ws {
        WindowSlot::CraftOutput => {
            grid.output = item;
        },
        WindowSlot::CraftGrid(i) => {
            grid.slots.set(*i, item);
        },
        WindowSlot::MainInventory(i) | WindowSlot::Hotbar(i) => {
            inv.slots.set(*i, item);
        },
        _ => {},
    }
}

/// The slot and cursor after a left or right click on a slot holding `v`.
pub open spec fn slot_click_spec(v: SlotView, cursor: SlotView, right: bool) -> (SlotView, SlotView) {
    if right {
        right_click_spec(v, cursor)
    } else {
        left_click_spec(v, cursor)
    }
}

/// A left or right click on a player-side slot (grid, inventory, armor,
/// offhand): the click rule runs on the slot's item and the cursor, the
/// new item is written back (armor and offhand keep nothing) and the
/// cursor takes its new value.
pub fn click_player_slot(inv: &mut Inventory, grid: &mut CraftingGrid, ws: &WindowSlot, right: bool)
    requires
        player_slot_in_range(*old(inv), *old(grid), *ws),
        !(*ws is Container),
        !(*ws is CraftOutput),
        ({
            let v = player_slot_spec(*old(inv), *old(grid), *ws)->0;
            let c = old(inv).cursor@;
            &&& (view_can_stack(v, c) ==> v.count + c.count <= i32::MAX)
            &&& (view_is_empty(c) ==> v.count < i32::MAX)
        }),
    ensures
        ({
            let v = player_slot_spec(*old(inv), *old(grid), *ws)->0;
            let (slot_after, cursor_after) = slot_click_spec(v, old(inv).cursor@, right);
            &&& final(inv).cursor@ == cursor_after
            &&& final(inv).held_slot == old(inv).held_slot
            &&& final(grid).grid_size == old(grid).grid_size
            &&& final(grid).output == old(grid).output
            &&& match *ws {
                WindowSlot::CraftGrid(i) => views(final(grid).slots@) == views(old(grid).slots@).update(
                    i as int,
                    slot_after,
                ) && final(inv).slots@ == old(inv).slots@,
                WindowSlot::MainInventory(i) | WindowSlot::Hotbar(i) => views(final(inv).slots@) == views(
                    old(inv).slots@,
                ).update(i as int, slot_after) && final(grid).slots@ == old(grid).slots@,
                _ => final(inv).slots@ == old(inv).slots@ && final(grid).slots@ == old(grid).slots@,
            }
        }),
{
    let current = match read_player_slot(inv, grid, ws) {
        Some(s) => s,
        None => Slot::empty(),
    };
    let result = if right {
        right_click(&current, &inv.cursor)
    } else {
        left_click(&current, &inv.cursor)
    };
    let ghost before_inv = inv.slots@;
    let ghost before_grid = grid.slots@;
    write_player_slot(inv, grid, ws, result.clicked);
    inv.cursor = result.cursor;
    proof {
        match *ws {
            WindowSlot::CraftGrid(i) => {
                assert(views(grid.slots@) =~= views(before_grid).update(i as int, result.clicked@));
            },
            WindowSlot::MainInventory(i) => {
                assert(views(inv.slots@) =~= views(before_inv).update(i as int, result.clicked@));
            },
            WindowSlot::Hotbar(i) => {
                assert(views(inv.slots@) =~= views(before_inv).update(i as int, result.clicked@));
            },
            _ => {},
        }
    }
}

/// A number-key swap between a player-side slot (grid, inventory, armor,
/// offhand) and hotbar slot `hotbar`: each takes the other's item (armor
/// and offhand keep nothing).
pub fn swap_with_hotbar(inv: &mut Inventory, grid: &mut CraftingGrid, ws: &WindowSlot, hotbar: u8)
    requires
        player_slot_in_range(*old(inv), *old(grid), *ws),
        (hotbar as int) < old(inv).slots@.len(),
        !(*ws is Container),
    ensures
        ({
            let clicked = player_slot_spec(*old(inv), *old(grid), *ws)->0;
            let held = old(inv).slots@[hotbar as int]@;
            &&& final(inv).cursor == old(inv).cursor
            &&& final(inv).held_slot == old(inv).held_slot
            &&& final(grid).grid_size == old(grid).grid_size
            &&& match *ws {
                WindowSlot::CraftOutput => final(grid).output@ == held && final(grid).slots@ == old(grid).slots@
                    && views(final(inv).slots@) == views(old(inv).slots@).update(hotbar as int, clicked),
                WindowSlot::CraftGrid(i) => views(final(grid).slots@) == views(old(grid).slots@).update(
                    i as int,
                    held,
                ) && final(grid).output == old(grid).output && views(final(inv).slots@) == views(
                    old(inv).slots@,
                ).update(hotbar as int, clicked),
                WindowSlot::MainInventory(i) | WindowSlot::Hotbar(i) => views(final(inv).slots@) == swapped(
                    views(old(inv).slots@),
                    i as int,
                    hotbar as int,
                ) && final(grid).slots@ == old(grid).slots@ && final(grid).output == old(grid).output,
                _ => views(final(inv).slots@) == views(old(inv).slots@).update(hotbar as int, clicked)
                    && final(grid).slots@ == old(grid).slots@ && final(grid).output == old(grid).output,
            }
        }),
{
    let clicked = match read_player_slot(inv, grid, ws) {
        Some(s) => s,
        None => Slot::empty(),
    };
    let held = inv.slots[hotbar as usize].copy();
    let ghost inv0 = inv.slots@;
    let ghost grid0 = grid.slots@;
    write_player_slot(inv, grid, ws, held);
    let ghost inv1 = inv.slots@;
    let hotbar_ws = WindowSlot::Hotbar(hotbar as usize);
    write_player_slot(inv, grid, &hotbar_ws, clicked);
    proof {
        assert(views(inv.slots@) =~= views(inv1).update(hotbar as int, clicked@));
        match *ws {
            WindowSlot::CraftGrid(i) => {
                assert(views(grid.slots@) =~= views(grid0).update(i as int, held@));
                assert(inv1 == inv0);
            },
            WindowSlot::MainInventory(i) => {
                assert(views(inv1) =~= views(inv0).update(i as int, held@));
            },
            WindowSlot::Hotbar(i) => {
                assert(views(inv1) =~= views(inv0).update(i as int, held@));
            },
            _ => {
                assert(inv1 == inv0);
            },
        }
    }
}

/// The inventory after a number-key swap of inventory slot `i` with
/// hotbar slot `h`.
pub open spec fn swapped(s: Seq<SlotView>, i: int, h: int) -> Seq<SlotView> {
    s.update(i, s[h]).update(h, s[i])
}

/// Swapping an inventory slot with a hotbar slot twice gives the
/// inventory back.
pub proof fn hotbar_swap_undoes_itself(s: Seq<SlotView>, i: int, h: int)
    requires
        0 <= i < s.len(),
        0 <= h < s.len(),
    ensures
        swapped(swapped(s, i, h), i, h) == s,
{
    assert(swapped(swapped(s, i, h), i, h) =~= s);
}

} // verus!
