use basalt_server::click_handler::{
    can_stack, collect_double_click, distribute_drag, left_click, right_click, with_count,
    ClickResult, CollectResult, DragResult,
};
use basalt_server::slot::Slot;

// ── left_click ──────────────────────────────────────────────

#[test]
fn left_click_both_empty() {
    let ClickResult { clicked, cursor } = left_click(&Slot::empty(), &Slot::empty());
    assert!(clicked.is_empty());
    assert!(cursor.is_empty());
}

#[test]
fn left_click_pick_up() {
    let item = Slot::new(1, 10);
    let ClickResult { clicked, cursor } = left_click(&item, &Slot::empty());
    assert!(clicked.is_empty());
    assert_eq!(cursor.item_id, Some(1));
    assert_eq!(cursor.item_count, 10);
}

#[test]
fn left_click_place() {
    let item = Slot::new(1, 10);
    let ClickResult { clicked, cursor } = left_click(&Slot::empty(), &item);
    assert_eq!(clicked.item_id, Some(1));
    assert_eq!(clicked.item_count, 10);
    assert!(cursor.is_empty());
}

#[test]
fn left_click_stack_same_item() {
    let slot_item = Slot::new(1, 30);
    let cursor_item = Slot::new(1, 20);
    let ClickResult { clicked, cursor } = left_click(&slot_item, &cursor_item);
    assert_eq!(clicked.item_count, 50);
    assert_eq!(clicked.item_id, Some(1));
    assert!(cursor.is_empty());
}

#[test]
fn left_click_stack_overflow() {
    let slot_item = Slot::new(1, 50);
    let cursor_item = Slot::new(1, 30);
    let ClickResult { clicked, cursor } = left_click(&slot_item, &cursor_item);
    assert_eq!(clicked.item_count, 64);
    assert_eq!(clicked.item_id, Some(1));
    assert_eq!(cursor.item_count, 16);
    assert_eq!(cursor.item_id, Some(1));
}

#[test]
fn left_click_swap_different_items() {
    let slot_item = Slot::new(1, 10);
    let cursor_item = Slot::new(2, 5);
    let ClickResult { clicked, cursor } = left_click(&slot_item, &cursor_item);
    assert_eq!(clicked.item_id, Some(2));
    assert_eq!(clicked.item_count, 5);
    assert_eq!(cursor.item_id, Some(1));
    assert_eq!(cursor.item_count, 10);
}

#[test]
fn left_click_stack_preserves_component_data() {
    let data = vec![0xAA, 0xBB];
    let slot_item = Slot {
        item_count: 10,
        item_id: Some(1),
        component_data: data.clone(),
    };
    let cursor_item = Slot {
        item_count: 5,
        item_id: Some(1),
        component_data: data.clone(),
    };
    let ClickResult { clicked, cursor } = left_click(&slot_item, &cursor_item);
    assert_eq!(clicked.item_count, 15);
    assert_eq!(clicked.component_data, data);
    assert!(cursor.is_empty());
}

// ── right_click ─────────────────────────────────────────────

#[test]
fn right_click_both_empty() {
    let ClickResult { clicked, cursor } = right_click(&Slot::empty(), &Slot::empty());
    assert!(clicked.is_empty());
    assert!(cursor.is_empty());
}

#[test]
fn right_click_pick_up_half_even() {
    let item = Slot::new(1, 10);
    let ClickResult { clicked, cursor } = right_click(&item, &Slot::empty());
    assert_eq!(clicked.item_count, 5);
    assert_eq!(cursor.item_count, 5);
}

#[test]
fn right_click_pick_up_half_odd() {
    let item = Slot::new(1, 7);
    let ClickResult { clicked, cursor } = right_click(&item, &Slot::empty());
    // ceil(7/2) = 4 to cursor, floor(7/2) = 3 stays
    assert_eq!(clicked.item_count, 3);
    assert_eq!(cursor.item_count, 4);
}

#[test]
fn right_click_pick_up_half_one() {
    let item = Slot::new(1, 1);
    let ClickResult { clicked, cursor } = right_click(&item, &Slot::empty());
    assert!(clicked.is_empty());
    assert_eq!(cursor.item_count, 1);
}

#[test]
fn right_click_place_one_into_empty() {
    let cursor_item = Slot::new(1, 10);
    let ClickResult { clicked, cursor } = right_click(&Slot::empty(), &cursor_item);
    assert_eq!(clicked.item_count, 1);
    assert_eq!(clicked.item_id, Some(1));
    assert_eq!(cursor.item_count, 9);
}

#[test]
fn right_click_place_one_onto_stack() {
    let slot_item = Slot::new(1, 5);
    let cursor_item = Slot::new(1, 10);
    let ClickResult { clicked, cursor } = right_click(&slot_item, &cursor_item);
    assert_eq!(clicked.item_count, 6);
    assert_eq!(cursor.item_count, 9);
}

#[test]
fn right_click_place_one_last() {
    let slot_item = Slot::new(1, 5);
    let cursor_item = Slot::new(1, 1);
    let ClickResult { clicked, cursor } = right_click(&slot_item, &cursor_item);
    assert_eq!(clicked.item_count, 6);
    assert!(cursor.is_empty());
}

#[test]
fn right_click_swap_different() {
    let slot_item = Slot::new(1, 10);
    let cursor_item = Slot::new(2, 5);
    let ClickResult { clicked, cursor } = right_click(&slot_item, &cursor_item);
    assert_eq!(clicked.item_id, Some(2));
    assert_eq!(clicked.item_count, 5);
    assert_eq!(cursor.item_id, Some(1));
    assert_eq!(cursor.item_count, 10);
}

#[test]
fn right_click_slot_full_no_place() {
    let slot_item = Slot::new(1, 64);
    let cursor_item = Slot::new(1, 5);
    let ClickResult { clicked, cursor } = right_click(&slot_item, &cursor_item);
    assert_eq!(clicked.item_count, 64);
    assert_eq!(cursor.item_count, 5);
}

// ── distribute_drag ─────────────────────────────────────────

#[test]
fn left_drag_even() {
    let cursor = Slot::new(1, 8);
    let slots = vec![Slot::empty(), Slot::empty(), Slot::empty(), Slot::empty()];
    let DragResult {
        slots: result,
        cursor: rem,
    } = distribute_drag(&cursor, &slots, true);
    for s in &result {
        assert_eq!(s.item_count, 2);
        assert_eq!(s.item_id, Some(1));
    }
    assert!(rem.is_empty());
}

#[test]
fn left_drag_uneven() {
    let cursor = Slot::new(1, 7);
    let slots = vec![Slot::empty(), Slot::empty(), Slot::empty()];
    let DragResult {
        slots: result,
        cursor: rem,
    } = distribute_drag(&cursor, &slots, true);
    for s in &result {
        assert_eq!(s.item_count, 2);
    }
    assert_eq!(rem.item_count, 1);
}

#[test]
fn left_drag_skip_incompatible() {
    let cursor = Slot::new(1, 6);
    let slots = vec![Slot::empty(), Slot::new(2, 5), Slot::empty()];
    let DragResult {
        slots: result,
        cursor: rem,
    } = distribute_drag(&cursor, &slots, true);
    // Only slots 0 and 2 are compatible
    assert_eq!(result[0].item_count, 3);
    assert_eq!(result[0].item_id, Some(1));
    assert_eq!(result[1].item_count, 5);
    assert_eq!(result[1].item_id, Some(2));
    assert_eq!(result[2].item_count, 3);
    assert_eq!(result[2].item_id, Some(1));
    assert!(rem.is_empty());
}

#[test]
fn left_drag_respect_max() {
    let cursor = Slot::new(1, 20);
    let slots = vec![Slot::new(1, 60), Slot::empty()];
    let DragResult {
        slots: result,
        cursor: rem,
    } = distribute_drag(&cursor, &slots, true);
    // Slot 0 has space for 4, slot 1 has space for 64
    // per_slot = 20 / 2 = 10, but slot 0 capped at 4
    assert_eq!(result[0].item_count, 64);
    assert_eq!(result[1].item_count, 10);
    // Used 4 + 10 = 14, remaining = 6
    assert_eq!(rem.item_count, 6);
}

#[test]
fn right_drag() {
    let cursor = Slot::new(1, 10);
    let slots = vec![Slot::empty(), Slot::empty(), Slot::empty()];
    let DragResult {
        slots: result,
        cursor: rem,
    } = distribute_drag(&cursor, &slots, false);
    for s in &result {
        assert_eq!(s.item_count, 1);
    }
    assert_eq!(rem.item_count, 7);
}

#[test]
fn right_drag_not_enough() {
    let cursor = Slot::new(1, 2);
    let slots = vec![
        Slot::empty(),
        Slot::empty(),
        Slot::empty(),
        Slot::empty(),
        Slot::empty(),
    ];
    let DragResult {
        slots: result,
        cursor: rem,
    } = distribute_drag(&cursor, &slots, false);
    assert_eq!(result[0].item_count, 1);
    assert_eq!(result[1].item_count, 1);
    assert!(result[2].is_empty());
    assert!(result[3].is_empty());
    assert!(result[4].is_empty());
    assert!(rem.is_empty());
}

#[test]
fn distribute_drag_empty_cursor() {
    let slots = vec![Slot::new(1, 10), Slot::empty()];
    let DragResult {
        slots: result,
        cursor: rem,
    } = distribute_drag(&Slot::empty(), &slots, true);
    assert_eq!(result[0].item_count, 10);
    assert!(result[1].is_empty());
    assert!(rem.is_empty());
}

// ── collect_double_click ────────────────────────────────────

#[test]
fn collect_from_multiple() {
    let cursor = Slot::new(1, 5);
    let slots = vec![Slot::new(1, 10), Slot::new(1, 8), Slot::new(2, 3)];
    let CollectResult {
        updates,
        cursor: new_cursor,
    } = collect_double_click(&cursor, &slots);
    assert_eq!(new_cursor.item_count, 23);
    // Slot 0 fully taken
    assert!(updates[0].as_ref().unwrap().is_empty());
    // Slot 1 fully taken
    assert!(updates[1].as_ref().unwrap().is_empty());
    // Slot 2 different item, unchanged
    assert!(updates[2].is_none());
}

#[test]
fn collect_stops_at_64() {
    let cursor = Slot::new(1, 50);
    let slots = vec![Slot::new(1, 20), Slot::new(1, 10)];
    let CollectResult {
        updates,
        cursor: new_cursor,
    } = collect_double_click(&cursor, &slots);
    assert_eq!(new_cursor.item_count, 64);
    // Slot 0: took 14 of 20, leaving 6
    assert_eq!(updates[0].as_ref().unwrap().item_count, 6);
    // Slot 1: not touched because cursor already at 64
    assert!(updates[1].is_none());
}

#[test]
fn collect_skips_different() {
    let cursor = Slot::new(1, 5);
    let slots = vec![Slot::new(2, 10), Slot::new(3, 8)];
    let CollectResult {
        updates,
        cursor: new_cursor,
    } = collect_double_click(&cursor, &slots);
    assert_eq!(new_cursor.item_count, 5);
    assert!(updates[0].is_none());
    assert!(updates[1].is_none());
}

#[test]
fn collect_empties_source() {
    let cursor = Slot::new(1, 1);
    let slots = vec![Slot::new(1, 3), Slot::new(1, 2)];
    let CollectResult {
        updates,
        cursor: new_cursor,
    } = collect_double_click(&cursor, &slots);
    assert_eq!(new_cursor.item_count, 6);
    assert!(updates[0].as_ref().unwrap().is_empty());
    assert!(updates[1].as_ref().unwrap().is_empty());
}

// ── helpers ─────────────────────────────────────────────────

#[test]
fn can_stack_same_item() {
    assert!(can_stack(&Slot::new(1, 5), &Slot::new(1, 10)));
}

#[test]
fn can_stack_different_id() {
    assert!(!can_stack(&Slot::new(1, 5), &Slot::new(2, 10)));
}

#[test]
fn can_stack_different_component_data() {
    let a = Slot {
        item_count: 5,
        item_id: Some(1),
        component_data: vec![0xAA],
    };
    let b = Slot {
        item_count: 5,
        item_id: Some(1),
        component_data: vec![0xBB],
    };
    assert!(!can_stack(&a, &b));
}

#[test]
fn can_stack_empty_slots() {
    assert!(!can_stack(&Slot::empty(), &Slot::empty()));
}

#[test]
fn with_count_zero_returns_empty() {
    let slot = Slot::new(1, 10);
    let result = with_count(&slot, 0);
    assert!(result.is_empty());
    assert!(result.item_id.is_none());
}

#[test]
fn with_count_preserves_data() {
    let slot = Slot {
        item_count: 10,
        item_id: Some(42),
        component_data: vec![0xAA, 0xBB],
    };
    let result = with_count(&slot, 5);
    assert_eq!(result.item_count, 5);
    assert_eq!(result.item_id, Some(42));
    assert_eq!(result.component_data, vec![0xAA, 0xBB]);
}

