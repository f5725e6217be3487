use basalt_server::inventory::empty_slots;
use basalt_server::recipe::{
    CRAFTING_TABLE_ITEM_ID, Recipe, RecipeDisplay, ShapedRecipe, ShapelessRecipe, SlotDisplay,
    aggregate_requirements, build_placement_plan, find_inventory_drain, to_display,
};
use basalt_server::slot::Slot;

fn shaped(width: u8, height: u8, pattern: Vec<Option<i32>>) -> Recipe {
    Recipe::Shaped(ShapedRecipe { width, height, pattern, result_id: 999, result_count: 1 })
}

fn shapeless(ingredients: Vec<i32>) -> Recipe {
    Recipe::Shapeless(ShapelessRecipe { ingredients, result_id: 999, result_count: 1 })
}

#[test]
fn to_display_shaped_preserves_dimensions_and_pattern() {
    let r = shaped(2, 1, vec![Some(43), Some(43)]);
    match to_display(&r) {
        RecipeDisplay::CraftingShaped { width, height, ingredients, result, crafting_station } => {
            assert_eq!(width, 2);
            assert_eq!(height, 1);
            assert_eq!(ingredients.len(), 2);
            assert!(matches!(ingredients[0], SlotDisplay::Item { item_id: 43 }));
            assert!(matches!(result, SlotDisplay::ItemStack { .. }));
            assert!(
                matches!(crafting_station, SlotDisplay::Item { item_id } if item_id == CRAFTING_TABLE_ITEM_ID)
            );
        }
        _ => panic!("expected CraftingShaped"),
    }
}

#[test]
fn to_display_shaped_maps_none_to_empty() {
    let r = shaped(2, 2, vec![Some(1), None, None, Some(2)]);
    match to_display(&r) {
        RecipeDisplay::CraftingShaped { ingredients, .. } => {
            assert!(matches!(ingredients[0], SlotDisplay::Item { item_id: 1 }));
            assert!(matches!(ingredients[1], SlotDisplay::Empty));
            assert!(matches!(ingredients[2], SlotDisplay::Empty));
            assert!(matches!(ingredients[3], SlotDisplay::Item { item_id: 2 }));
        }
        _ => panic!("expected CraftingShaped"),
    }
}

#[test]
fn to_display_shapeless_maps_each_ingredient() {
    let r = shapeless(vec![10, 20, 30]);
    match to_display(&r) {
        RecipeDisplay::CraftingShapeless { ingredients, .. } => {
            assert_eq!(ingredients.len(), 3);
            assert!(matches!(ingredients[0], SlotDisplay::Item { item_id: 10 }));
            assert!(matches!(ingredients[2], SlotDisplay::Item { item_id: 30 }));
        }
        _ => panic!("expected CraftingShapeless"),
    }
}

#[test]
fn placement_plan_shaped_top_left_aligned_in_3x3() {
    let r = shaped(1, 2, vec![Some(43), Some(43)]);
    let plan = build_placement_plan(&r, 3).expect("fits");
    assert_eq!(plan, vec![(0, 43), (3, 43)]);
}

#[test]
fn placement_plan_shaped_skips_pattern_holes() {
    let r = shaped(2, 2, vec![Some(1), Some(2), Some(3), None]);
    let plan = build_placement_plan(&r, 3).expect("fits");
    assert_eq!(plan, vec![(0, 1), (1, 2), (3, 3)]);
}

#[test]
fn placement_plan_shaped_3x3_in_2x2_returns_none() {
    let r = shaped(3, 3, vec![Some(1); 9]);
    assert_eq!(build_placement_plan(&r, 2), None);
}

#[test]
fn placement_plan_shapeless_walks_slots_in_order() {
    let r = shapeless(vec![10, 20, 30]);
    let plan = build_placement_plan(&r, 3).expect("fits");
    assert_eq!(plan, vec![(0, 10), (1, 20), (2, 30)]);
}

#[test]
fn placement_plan_shapeless_too_many_ingredients_returns_none() {
    let r = shapeless(vec![1, 2, 3, 4, 5]);
    assert_eq!(build_placement_plan(&r, 2), None);
}

#[test]
fn placement_plan_2x2_pattern_in_2x2_grid() {
    let r = shaped(2, 2, vec![Some(5), Some(6), Some(7), Some(8)]);
    let plan = build_placement_plan(&r, 2).expect("fits");
    assert_eq!(plan, vec![(0, 5), (1, 6), (2, 7), (3, 8)]);
}

#[test]
fn aggregate_requirements_counts_each_item() {
    let plan = vec![(0, 43), (1, 43), (3, 43), (4, 879)];
    let mut req = aggregate_requirements(&plan);
    req.sort_by_key(|(id, _)| *id);
    assert_eq!(req, vec![(43, 3), (879, 1)]);
}

#[test]
fn aggregate_requirements_keeps_first_occurrence_order() {
    let plan = vec![(0, 879), (1, 43), (2, 879)];
    assert_eq!(aggregate_requirements(&plan), vec![(879, 2), (43, 1)]);
    assert!(aggregate_requirements(&[]).is_empty());
}

#[test]
fn drain_finds_single_slot_with_enough_count() {
    let mut slots = empty_slots(36);
    slots[0] = Slot::new(43, 8);
    let plan = find_inventory_drain(&slots, &[(43, 3)]).expect("sufficient");
    assert_eq!(plan, vec![(0, 3)]);
}

#[test]
fn drain_splits_across_slots_when_needed() {
    let mut slots = empty_slots(36);
    slots[0] = Slot::new(43, 2);
    slots[5] = Slot::new(43, 4);
    let plan = find_inventory_drain(&slots, &[(43, 5)]).expect("sufficient");
    assert_eq!(plan, vec![(0, 2), (5, 3)]);
}

#[test]
fn drain_returns_none_when_inventory_short() {
    let mut slots = empty_slots(36);
    slots[0] = Slot::new(43, 2);
    assert_eq!(find_inventory_drain(&slots, &[(43, 3)]), None);
}

#[test]
fn drain_counts_only_the_first_36_slots() {
    let mut slots = empty_slots(46);
    slots[3] = Slot::new(43, 2);
    slots[40] = Slot::new(43, 9);
    assert_eq!(find_inventory_drain(&slots, &[(43, 2)]), Some(vec![(3, 2)]));
    assert_eq!(find_inventory_drain(&slots, &[(43, 3)]), None);
}

#[test]
fn drain_handles_mixed_ingredients() {
    let mut slots = empty_slots(36);
    slots[0] = Slot::new(43, 4);
    slots[10] = Slot::new(879, 2);
    let plan = find_inventory_drain(&slots, &[(43, 2), (879, 1)]).expect("sufficient");
    assert!(plan.contains(&(0, 2)));
    assert!(plan.contains(&(10, 1)));
}

use basalt_server::recipe::{CATEGORY_CRAFTING_MISC, book_entry, unlock_entry};

#[test]
fn unlocking_builds_a_notified_entry() {
    let r = shaped(1, 2, vec![Some(43), Some(43)]);
    let e = unlock_entry(false, 0, &r).expect("new recipe");
    assert_eq!(e.display_id, 0);
    assert_eq!(e.group, 0);
    assert_eq!(e.category, CATEGORY_CRAFTING_MISC);
    assert_eq!(e.category, 3);
    assert!(e.crafting_requirements.is_none());
    assert_eq!(e.flags, 0x01);
    assert!(matches!(e.display, RecipeDisplay::CraftingShaped { width: 1, height: 2, .. }));
}

#[test]
fn unlocking_a_known_recipe_sends_nothing() {
    let r = shapeless(vec![1, 2]);
    assert!(unlock_entry(true, 4, &r).is_none());
}

#[test]
fn join_book_entries_have_no_notification() {
    let r = shapeless(vec![1, 2]);
    let e = book_entry(7, &r);
    assert_eq!(e.display_id, 7);
    assert_eq!(e.flags, 0);
    assert!(matches!(e.display, RecipeDisplay::CraftingShapeless { .. }));
}
