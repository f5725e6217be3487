use basalt_server::inventory::{CraftingGrid, Inventory};
use basalt_server::input::{
    CreativeSlotAction, DigAction, close_window, creative_slot_action, dig_action,
    held_slot_update, select_hotbar_slot, sneak_change, window_to_index,
};
use basalt_server::slot::Slot;
use basalt_server::click::DragState;

#[test]
fn dig_statuses() {
    assert_eq!(dig_action(0), DigAction::Dig);
    assert_eq!(dig_action(3), DigAction::DropStack);
    assert_eq!(dig_action(4), DigAction::DropOne);
    assert_eq!(dig_action(1), DigAction::Ignore);
    assert_eq!(dig_action(-7), DigAction::Ignore);
}

#[test]
fn held_slot_must_be_0_to_8() {
    assert_eq!(held_slot_update(3), Some(3));
    assert_eq!(held_slot_update(8), Some(8));
    assert_eq!(held_slot_update(9), None);
    assert_eq!(held_slot_update(-1), None);
    assert_eq!(held_slot_update(257), None);
    assert_eq!(held_slot_update(259), None);
}

#[test]
fn mod_held_item_slot_change() {
    let mut inv = Inventory::empty();
    select_hotbar_slot(&mut inv, 3);
    assert_eq!(inv.held_slot, 3);
    select_hotbar_slot(&mut inv, 40);
    assert_eq!(inv.held_slot, 3);
    select_hotbar_slot(&mut inv, 259);
    assert_eq!(inv.held_slot, 3);
}

#[test]
fn sneaking_actions() {
    assert_eq!(sneak_change(0), Some(true));
    assert_eq!(sneak_change(1), Some(false));
    assert_eq!(sneak_change(2), None);
}

#[test]
fn window_slots_map_to_inventory_slots() {
    assert_eq!(window_to_index(36), Some(0));
    assert_eq!(window_to_index(44), Some(8));
    assert_eq!(window_to_index(9), Some(9));
    assert_eq!(window_to_index(35), Some(35));
    assert_eq!(window_to_index(8), None);
    assert_eq!(window_to_index(45), None);
    assert_eq!(window_to_index(-1), None);
}

#[test]
fn creative_slot_targets() {
    assert_eq!(creative_slot_action(-1), CreativeSlotAction::Drop);
    assert_eq!(creative_slot_action(36), CreativeSlotAction::Store(0));
    assert_eq!(creative_slot_action(20), CreativeSlotAction::Store(20));
    assert_eq!(creative_slot_action(5), CreativeSlotAction::Ignore);
}

#[test]
fn close_window_returns_cursor_to_inventory() {
    let mut inv = Inventory::empty();
    inv.cursor = Slot::new(10, 5);
    let mut grid = CraftingGrid::new();
    let dropped = close_window(&mut inv, &mut grid, &mut DragState::Inactive, false);
    assert_eq!(dropped, None);
    assert!(inv.cursor.is_empty());
    assert_eq!(inv.slots[0].item_id, Some(10));
    assert_eq!(inv.slots[0].item_count, 5);
}

#[test]
fn close_window_stacks_cursor_onto_matching_stack() {
    let mut inv = Inventory::empty();
    inv.slots[4] = Slot::new(10, 60);
    inv.slots[7] = Slot::new(10, 30);
    inv.cursor = Slot::new(10, 5);
    let mut grid = CraftingGrid::new();
    assert_eq!(close_window(&mut inv, &mut grid, &mut DragState::Inactive, false), None);
    assert_eq!(inv.slots[4].item_count, 60);
    assert_eq!(inv.slots[7].item_count, 35);
}

#[test]
fn close_window_drops_cursor_when_inventory_full() {
    let mut inv = Inventory::empty();
    for i in 0..36 {
        inv.slots[i] = Slot::new(1, 64);
    }
    inv.cursor = Slot::new(10, 5);
    let mut grid = CraftingGrid::new();
    assert_eq!(close_window(&mut inv, &mut grid, &mut DragState::Inactive, false), Some((10, 5)));
    assert!(inv.cursor.is_empty());
}

#[test]
fn crafting_table_close_resets_to_2x2() {
    let mut inv = Inventory::empty();
    let mut grid = CraftingGrid::new();
    grid.grid_size = 3;
    grid.slots[0] = Slot::new(1, 4);
    grid.slots[4] = Slot::new(2, 8);
    close_window(&mut inv, &mut grid, &mut DragState::Inactive, true);
    assert_eq!(grid.grid_size, 2);
    assert!(grid.slots.iter().all(|s| s.is_empty()));
}

#[test]
fn player_inventory_close_preserves_2x2_grid() {
    let mut inv = Inventory::empty();
    let mut grid = CraftingGrid::new();
    grid.slots[0] = Slot::new(43, 1);
    close_window(&mut inv, &mut grid, &mut DragState::Inactive, false);
    assert_eq!(grid.grid_size, 2);
    assert_eq!(grid.slots[0].item_id, Some(43));
}

#[test]
fn drag_state_cleared_on_close_window() {
    let mut inv = Inventory::empty();
    let mut grid = CraftingGrid::new();
    let mut drag = DragState::start(0);
    drag.add_slot(10);
    drag.add_slot(20);
    close_window(&mut inv, &mut grid, &mut drag, false);
    assert!(matches!(drag, DragState::Inactive));
}

#[test]
fn drag_state_cleared_on_disconnect() {
    let mut drag = DragState::start(1);
    drag.add_slot(10);
    drag.cancel();
    assert!(matches!(drag, DragState::Inactive));
}
