use basalt_server::container::{
    ContainerBacking, ContainerView, container_viewer_count, container_viewer_count_excluding,
};

#[test]
fn single_chest_routes_all_27_slots() {
    let view = ContainerView::single_chest((1, 64, 2));
    assert_eq!(view.size, 27);
    assert_eq!(view.inventory_type, 2);
    assert_eq!(view.title, "Chest");
    assert_eq!(view.slot_to_part(0), Some(((1, 64, 2), 0)));
    assert_eq!(view.slot_to_part(26), Some(((1, 64, 2), 26)));
    assert_eq!(view.slot_to_part(27), None);
}

#[test]
fn double_chest_routes_halves() {
    let view = ContainerView::double_chest((0, 64, 0), (1, 64, 0));
    assert_eq!(view.size, 54);
    assert_eq!(view.inventory_type, 5);
    assert_eq!(view.title, "Large Chest");
    assert_eq!(view.slot_to_part(5), Some(((0, 64, 0), 5)));
    assert_eq!(view.slot_to_part(27), Some(((1, 64, 0), 0)));
    assert_eq!(view.slot_to_part(53), Some(((1, 64, 0), 26)));
    assert_eq!(view.slot_to_part(54), None);
}

#[test]
fn viewers_of_a_block_are_counted() {
    let chest = ContainerBacking::Block { position: (5, 64, 5) };
    let other = ContainerBacking::Block { position: (6, 64, 5) };
    let viewers = vec![(1u64, chest), (2u64, other), (3u64, chest), (4u64, ContainerBacking::Virtual)];
    assert_eq!(container_viewer_count(&viewers, &chest), 2);
    assert_eq!(container_viewer_count(&viewers, &other), 1);
    assert_eq!(container_viewer_count(&viewers, &ContainerBacking::Virtual), 0);
    assert_eq!(container_viewer_count_excluding(&viewers, &chest, 1), 1);
    assert_eq!(container_viewer_count_excluding(&viewers, &chest, 2), 2);
}

use basalt_server::container::{
    chest_inventory_type, container_window_items, fit_slots, insert_into_container, part_slots,
};
use basalt_server::inventory::{Inventory, empty_slots};
use basalt_server::slot::Slot;

#[test]
fn shift_click_into_chest_stacks_then_fills() {
    let mut chest = empty_slots(27);
    chest[3] = Slot::new(10, 60);
    chest[5] = Slot::new(10, 20);
    assert!(insert_into_container(&mut chest, 10, 10));
    assert_eq!(chest[3].item_count, 60);
    assert_eq!(chest[5].item_count, 30);
    assert!(insert_into_container(&mut chest, 11, 4));
    assert_eq!(chest[0].item_id, Some(11));
    assert_eq!(chest[0].item_count, 4);
}

#[test]
fn shift_click_into_full_chest_fails() {
    let mut chest = empty_slots(27);
    for s in chest.iter_mut() {
        *s = Slot::new(1, 64);
    }
    assert!(!insert_into_container(&mut chest, 2, 1));
    assert!(chest.iter().all(|s| s.item_id == Some(1) && s.item_count == 64));
}

#[test]
fn chest_window_types() {
    assert_eq!(chest_inventory_type(27), 2);
    assert_eq!(chest_inventory_type(54), 5);
}

#[test]
fn part_slots_take_at_most_count() {
    let chest = empty_slots(27);
    assert_eq!(part_slots(&chest, 10).len(), 10);
    assert_eq!(part_slots(&chest, 40).len(), 27);
}

#[test]
fn initial_slots_are_fitted_to_size() {
    let fitted = fit_slots(vec![Slot::new(1, 1), Slot::new(2, 2)], 5);
    assert_eq!(fitted.len(), 5);
    assert_eq!(fitted[1].item_id, Some(2));
    assert!(fitted[4].is_empty());
    let cut = fit_slots(vec![Slot::new(1, 1), Slot::new(2, 2)], 1);
    assert_eq!(cut.len(), 1);
    assert_eq!(cut[0].item_id, Some(1));
}

#[test]
fn window_items_list_container_then_main_then_hotbar() {
    let mut inv = Inventory::empty();
    inv.slots[0] = Slot::new(5, 1);
    inv.slots[9] = Slot::new(6, 1);
    let chest = vec![Slot::new(7, 1); 27];
    let items = container_window_items(&chest, &inv.slots);
    assert_eq!(items.len(), 63);
    assert_eq!(items[0].item_id, Some(7));
    assert_eq!(items[27].item_id, Some(6));
    assert_eq!(items[54].item_id, Some(5));
}

use basalt_server::container::{ChestNeighbor, chest_view, open_crafting_table};
use basalt_server::inventory::CraftingGrid;

#[test]
fn double_chest_forms_with_matching_neighbour() {
    let neighbors = vec![
        ChestNeighbor { position: (4, 60, 59), is_chest: false, facing: 2, chest_type: 0 },
        ChestNeighbor { position: (6, 60, 59), is_chest: true, facing: 2, chest_type: 2 },
    ];
    let view = chest_view((5, 60, 59), 1, 2, &neighbors);
    assert_eq!(view.size, 54);
    assert_eq!(view.parts[0].position, (5, 60, 59));
    assert_eq!(view.parts[1].position, (6, 60, 59));
    let view = chest_view((6, 60, 59), 2, 2, &vec![
        ChestNeighbor { position: (5, 60, 59), is_chest: true, facing: 2, chest_type: 1 },
    ]);
    assert_eq!(view.parts[0].position, (5, 60, 59));
    assert_eq!(view.parts[1].position, (6, 60, 59));
}

#[test]
fn single_chest_without_partner() {
    let neighbors = vec![
        ChestNeighbor { position: (6, 60, 59), is_chest: true, facing: 3, chest_type: 2 },
        ChestNeighbor { position: (4, 60, 59), is_chest: true, facing: 2, chest_type: 1 },
    ];
    let view = chest_view((5, 60, 59), 1, 2, &neighbors);
    assert_eq!(view.size, 27);
    assert_eq!(view.title, "Chest");
    assert_eq!(chest_view((5, 60, 59), 0, 2, &neighbors).size, 27);
}

#[test]
fn open_crafting_table_sends_window() {
    let mut grid = CraftingGrid::new();
    grid.slots[0] = Slot::new(43, 1);
    let mut inv = Inventory::empty();
    inv.slots[0] = Slot::new(1, 3);
    let items = open_crafting_table(&mut grid, &inv.slots);
    assert_eq!(grid.grid_size, 3);
    assert!(grid.slots.iter().all(|s| s.is_empty()));
    assert_eq!(items.len(), 46);
    assert_eq!(items[37].item_id, Some(1));
}
