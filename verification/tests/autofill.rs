use basalt_server::autofill::apply_recipe_fill;
use basalt_server::inventory::{CraftingGrid, Inventory};
use basalt_server::recipe::{Recipe, ShapedRecipe, aggregate_requirements, build_placement_plan, find_inventory_drain};
use basalt_server::slot::Slot;

fn sticks() -> Recipe {
    Recipe::Shaped(ShapedRecipe {
        width: 1,
        height: 2,
        pattern: vec![Some(43), Some(43)],
        result_id: 879,
        result_count: 4,
    })
}

#[test]
fn auto_fill_stick_recipe_drains_inventory_and_fills_grid() {
    let mut inv = Inventory::empty();
    inv.slots[0] = Slot::new(43, 2);
    let mut grid = CraftingGrid::new();
    let plan = build_placement_plan(&sticks(), grid.grid_size).expect("fits");
    let req = aggregate_requirements(&plan);
    let drain = find_inventory_drain(&inv.slots, &req).expect("enough planks");
    let overflow = apply_recipe_fill(&mut inv, &mut grid, &plan, &drain);
    assert!(overflow.is_empty());
    assert!(inv.slots[0].is_empty());
    assert_eq!(grid.slots[0].item_id, Some(43));
    assert_eq!(grid.slots[0].item_count, 1);
    assert_eq!(grid.slots[2].item_id, Some(43));
    assert!(grid.slots[1].is_empty());
}

#[test]
fn auto_fill_aborts_silently_with_empty_inventory() {
    let inv = Inventory::empty();
    let grid = CraftingGrid::new();
    let plan = build_placement_plan(&sticks(), grid.grid_size).expect("fits");
    let req = aggregate_requirements(&plan);
    assert_eq!(find_inventory_drain(&inv.slots, &req), None);
}

#[test]
fn auto_fill_returns_existing_grid_contents_to_inventory() {
    let mut inv = Inventory::empty();
    inv.slots[0] = Slot::new(43, 2);
    let mut grid = CraftingGrid::new();
    grid.slots[1] = Slot::new(56, 1);
    let plan = build_placement_plan(&sticks(), grid.grid_size).expect("fits");
    let req = aggregate_requirements(&plan);
    let drain = find_inventory_drain(&inv.slots, &req).expect("enough planks");
    let overflow = apply_recipe_fill(&mut inv, &mut grid, &plan, &drain);
    assert!(overflow.is_empty());
    assert_eq!(inv.slots[0].item_id, Some(56));
    assert_eq!(inv.slots[0].item_count, 1);
    assert!(grid.slots[1].is_empty());
}

#[test]
fn auto_fill_overflows_returns_into_the_world() {
    let mut inv = Inventory::empty();
    for i in 0..36 {
        inv.slots[i] = Slot::new(1, 64);
    }
    inv.slots[0] = Slot::new(43, 2);
    let mut grid = CraftingGrid::new();
    grid.slots[3] = Slot::new(56, 3);
    let plan = vec![(0usize, 43), (2usize, 43)];
    let drain = vec![(0usize, 2)];
    let overflow = apply_recipe_fill(&mut inv, &mut grid, &plan, &drain);
    // The emptied hotbar slot takes the diamond stack, so nothing overflows.
    assert!(overflow.is_empty());
    assert_eq!(inv.slots[0].item_id, Some(56));

    let mut grid = CraftingGrid::new();
    grid.slots[3] = Slot::new(57, 3);
    let overflow = apply_recipe_fill(&mut inv, &mut grid, &[], &[]);
    assert_eq!(overflow.len(), 1);
    assert_eq!(overflow[0].item_id, Some(57));
    assert_eq!(overflow[0].item_count, 3);
    assert!(grid.slots.iter().all(|s| s.is_empty()));
}

#[test]
fn partial_drain_leaves_the_rest_of_the_stack() {
    let mut inv = Inventory::empty();
    inv.slots[4] = Slot::new(43, 10);
    let mut grid = CraftingGrid::new();
    grid.grid_size = 3;
    let overflow = apply_recipe_fill(&mut inv, &mut grid, &[(4, 43)], &[(4, 3)]);
    assert!(overflow.is_empty());
    assert_eq!(inv.slots[4].item_count, 7);
    assert_eq!(grid.slots[4].item_id, Some(43));
}

#[test]
fn fill_removes_exactly_the_required_items() {
    let mut inv = Inventory::empty();
    inv.slots[0] = Slot::new(43, 2);
    inv.slots[5] = Slot::new(43, 4);
    inv.slots[7] = Slot::new(879, 3);
    let before: i32 = inv.slots.iter().map(|s| s.item_count).sum();
    let plan = vec![(0usize, 43), (1usize, 43), (2usize, 879), (3usize, 43)];
    let req = aggregate_requirements(&plan);
    let drain = find_inventory_drain(&inv.slots, &req).expect("enough");
    let mut grid = CraftingGrid::new();
    let overflow = apply_recipe_fill(&mut inv, &mut grid, &plan, &drain);
    assert!(overflow.is_empty());
    let after: i32 = inv.slots.iter().map(|s| s.item_count).sum();
    assert_eq!(before - after, 4);
    assert_eq!(inv.slots[5].item_count, 3);
    assert_eq!(inv.slots[7].item_count, 2);
}

#[test]
fn fill_accepts_counts_beyond_a_stack() {
    let mut inv = Inventory::empty();
    inv.slots[4] = Slot::new(43, 100);
    let mut grid = CraftingGrid::new();
    grid.slots[0] = Slot::new(56, 90);
    let overflow = apply_recipe_fill(&mut inv, &mut grid, &[(0, 43)], &[(4, 3)]);
    assert!(overflow.is_empty());
    assert_eq!(inv.slots[4].item_count, 97);
    assert_eq!(inv.slots[0].item_id, Some(56));
    assert_eq!(inv.slots[0].item_count, 90);
    assert_eq!(grid.slots[0].item_id, Some(43));
}
