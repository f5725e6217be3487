use basalt_server::inventory::{
    CraftingGrid, Inventory, can_take_craft_output, drop_from_stack, drop_from_window_slot,
    inventory_window_slot, take_craft_output, try_insert_into_range, window_inventory_slots,
};
use basalt_server::slot::Slot;

#[test]
fn empty_inventory() {
    let inv = Inventory::empty();
    assert_eq!(inv.slots.len(), 36);
    assert!(inv.slots.iter().all(|s| s.is_empty()));
    assert!(inv.cursor.is_empty());
    assert!(inv.held_item().is_empty());
}

#[test]
fn window_slots_order_main_then_hotbar() {
    let mut inv = Inventory::empty();
    inv.slots[0] = Slot::new(1, 1);
    inv.slots[9] = Slot::new(2, 1);
    let w = window_inventory_slots(&inv.slots);
    assert_eq!(w.len(), 36);
    assert_eq!(w[0].item_id, Some(2));
    assert_eq!(w[27].item_id, Some(1));
}

#[test]
fn inventory_slot_window_numbers() {
    assert_eq!(inventory_window_slot(0, false), 36);
    assert_eq!(inventory_window_slot(9, false), 9);
    assert_eq!(inventory_window_slot(0, true), 37);
    assert_eq!(inventory_window_slot(9, true), 10);
}

#[test]
fn insert_prefers_stack_with_room_then_empty_slot() {
    let mut slots = Inventory::empty().slots;
    slots[2] = Slot::new(7, 63);
    slots[5] = Slot::new(7, 10);
    assert!(try_insert_into_range(&mut slots, 7, 4, 0, 9));
    assert_eq!(slots[2].item_count, 63);
    assert_eq!(slots[5].item_count, 14);
    assert!(try_insert_into_range(&mut slots, 8, 4, 0, 9));
    assert_eq!(slots[0].item_id, Some(8));
    assert!(!try_insert_into_range(&mut slots, 9, 1, 2, 3));
}

#[test]
fn mod_q_key_drop_single_item() {
    let out = drop_from_stack(&Slot::new(10, 10), false).expect("item");
    assert_eq!(out.item_id, 10);
    assert_eq!(out.count, 1);
    assert_eq!(out.remaining.item_count, 9);
    assert!(drop_from_stack(&Slot::empty(), false).is_none());
}

#[test]
fn mod_ctrl_q_drop_full_stack() {
    let out = drop_from_window_slot(&Slot::new(10, 32), true).expect("item");
    assert_eq!(out.count, 32);
    assert!(out.remaining.is_empty());
}

#[test]
fn craft_output_onto_cursor() {
    let cursor = Slot::new(331, 2);
    let output = Slot::new(331, 4);
    assert!(can_take_craft_output(&cursor, &output));
    assert_eq!(take_craft_output(&cursor, &output).item_count, 6);
    assert!(!can_take_craft_output(&Slot::new(10, 1), &output));
    assert!(!can_take_craft_output(&Slot::new(331, 62), &output));
    assert_eq!(take_craft_output(&Slot::empty(), &output).item_count, 4);
}

#[test]
fn consuming_ingredients_takes_one_from_each() {
    let mut grid = CraftingGrid::new();
    grid.slots[0] = Slot::new(43, 1);
    grid.slots[1] = Slot::new(43, 3);
    grid.output = Slot::new(314, 1);
    grid.consume_ingredients();
    assert!(grid.slots[0].is_empty());
    assert_eq!(grid.slots[1].item_count, 2);
    assert!(grid.output.is_empty());
}

use basalt_server::inventory::craft_into_inventory;

#[test]
fn shift_click_crafts_until_ingredients_run_out() {
    let mut inv = Inventory::empty();
    let mut grid = CraftingGrid::new();
    grid.slots[0] = Slot::new(43, 2);
    grid.output = Slot::new(314, 1);
    assert!(craft_into_inventory(&mut inv, &mut grid));
    assert_eq!(inv.slots[0].item_id, Some(314));
    assert_eq!(grid.slots[0].item_count, 1);
    assert!(grid.output.is_empty());
    assert!(!craft_into_inventory(&mut inv, &mut grid));
}

#[test]
fn shift_click_stops_when_inventory_full() {
    let mut inv = Inventory::empty();
    for i in 0..36 {
        inv.slots[i] = Slot::new(100, 64);
    }
    let mut grid = CraftingGrid::new();
    grid.slots[0] = Slot::new(43, 4);
    grid.output = Slot::new(314, 1);
    assert!(!craft_into_inventory(&mut inv, &mut grid));
    assert_eq!(grid.slots[0].item_count, 4);
    assert_eq!(grid.output.item_id, Some(314));
}
