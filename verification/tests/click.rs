use basalt_server::click::{
    parse_click_action, resolve_chest, resolve_crafting_table, resolve_player_inventory,
    to_protocol_slot_chest, to_protocol_slot_crafting_table, to_protocol_slot_player_inv,
    ClickAction, DragState, WindowSlot,
};

// ---------------------------------------------------------------
// parse_click_action
// ---------------------------------------------------------------

#[test]
fn parse_mode0_left_click() {
    assert_eq!(
        parse_click_action(10, 0, 0),
        Some(ClickAction::LeftClick { slot: 10 })
    );
}

#[test]
fn parse_mode0_right_click() {
    assert_eq!(
        parse_click_action(5, 1, 0),
        Some(ClickAction::RightClick { slot: 5 })
    );
}

#[test]
fn parse_mode0_invalid_button() {
    assert_eq!(parse_click_action(0, 2, 0), None);
}

#[test]
fn parse_mode1_shift_click() {
    assert_eq!(
        parse_click_action(12, 0, 1),
        Some(ClickAction::ShiftClick { slot: 12 })
    );
    // Any button value works for shift-click
    assert_eq!(
        parse_click_action(12, 1, 1),
        Some(ClickAction::ShiftClick { slot: 12 })
    );
}

#[test]
fn parse_mode2_hotbar_swap() {
    for hotbar in 0..=8 {
        assert_eq!(
            parse_click_action(20, hotbar, 2),
            Some(ClickAction::HotbarSwap {
                slot: 20,
                hotbar: hotbar as u8,
            })
        );
    }
}

#[test]
fn parse_mode2_offhand_swap() {
    assert_eq!(
        parse_click_action(15, 40, 2),
        Some(ClickAction::OffhandSwap { slot: 15 })
    );
}

#[test]
fn parse_mode2_invalid_button() {
    assert_eq!(parse_click_action(0, 9, 2), None);
    assert_eq!(parse_click_action(0, 39, 2), None);
    assert_eq!(parse_click_action(0, 41, 2), None);
}

#[test]
fn parse_mode3_creative_middle_click_ignored() {
    assert_eq!(parse_click_action(10, 2, 3), None);
}

#[test]
fn parse_mode4_drop_cursor_single() {
    assert_eq!(
        parse_click_action(-999, 0, 4),
        Some(ClickAction::DropCursor { drop_all: false })
    );
}

#[test]
fn parse_mode4_drop_cursor_all() {
    assert_eq!(
        parse_click_action(-999, 1, 4),
        Some(ClickAction::DropCursor { drop_all: true })
    );
}

#[test]
fn parse_mode4_drop_slot_single() {
    assert_eq!(
        parse_click_action(36, 0, 4),
        Some(ClickAction::DropSlot {
            slot: 36,
            drop_all: false,
        })
    );
}

#[test]
fn parse_mode4_drop_slot_all() {
    assert_eq!(
        parse_click_action(36, 1, 4),
        Some(ClickAction::DropSlot {
            slot: 36,
            drop_all: true,
        })
    );
}

#[test]
fn parse_mode5_start_drag_left() {
    assert_eq!(
        parse_click_action(-999, 0, 5),
        Some(ClickAction::StartDrag { drag_type: 0 })
    );
}

#[test]
fn parse_mode5_start_drag_right() {
    assert_eq!(
        parse_click_action(-999, 4, 5),
        Some(ClickAction::StartDrag { drag_type: 1 })
    );
}

#[test]
fn parse_mode5_start_drag_middle() {
    assert_eq!(
        parse_click_action(-999, 8, 5),
        Some(ClickAction::StartDrag { drag_type: 2 })
    );
}

#[test]
fn parse_mode5_add_drag_slot_left() {
    assert_eq!(
        parse_click_action(10, 1, 5),
        Some(ClickAction::AddDragSlot { slot: 10 })
    );
}

#[test]
fn parse_mode5_add_drag_slot_right() {
    assert_eq!(
        parse_click_action(20, 5, 5),
        Some(ClickAction::AddDragSlot { slot: 20 })
    );
}

#[test]
fn parse_mode5_add_drag_slot_middle() {
    assert_eq!(
        parse_click_action(30, 9, 5),
        Some(ClickAction::AddDragSlot { slot: 30 })
    );
}

#[test]
fn parse_mode5_end_drag_left() {
    assert_eq!(
        parse_click_action(-999, 2, 5),
        Some(ClickAction::EndDrag { drag_type: 0 })
    );
}

#[test]
fn parse_mode5_end_drag_right() {
    assert_eq!(
        parse_click_action(-999, 6, 5),
        Some(ClickAction::EndDrag { drag_type: 1 })
    );
}

#[test]
fn parse_mode5_end_drag_middle() {
    assert_eq!(
        parse_click_action(-999, 10, 5),
        Some(ClickAction::EndDrag { drag_type: 2 })
    );
}

#[test]
fn parse_mode5_invalid_button() {
    assert_eq!(parse_click_action(0, 3, 5), None);
    assert_eq!(parse_click_action(0, 7, 5), None);
    assert_eq!(parse_click_action(0, 11, 5), None);
}

#[test]
fn parse_mode6_double_click() {
    assert_eq!(
        parse_click_action(5, 0, 6),
        Some(ClickAction::DoubleClick { slot: 5 })
    );
}

#[test]
fn parse_unknown_mode_returns_none() {
    assert_eq!(parse_click_action(0, 0, 7), None);
    assert_eq!(parse_click_action(0, 0, -1), None);
    assert_eq!(parse_click_action(0, 0, 100), None);
}

// ---------------------------------------------------------------
// resolve_player_inventory
// ---------------------------------------------------------------

#[test]
fn player_inv_craft_output() {
    assert_eq!(resolve_player_inventory(0), Some(WindowSlot::CraftOutput));
}

#[test]
fn player_inv_craft_grid() {
    for i in 1..=4 {
        assert_eq!(
            resolve_player_inventory(i),
            Some(WindowSlot::CraftGrid((i - 1) as usize))
        );
    }
}

#[test]
fn player_inv_armor() {
    for i in 5..=8 {
        assert_eq!(
            resolve_player_inventory(i),
            Some(WindowSlot::Armor((i - 5) as usize))
        );
    }
}

#[test]
fn player_inv_main_inventory() {
    assert_eq!(
        resolve_player_inventory(9),
        Some(WindowSlot::MainInventory(9))
    );
    assert_eq!(
        resolve_player_inventory(35),
        Some(WindowSlot::MainInventory(35))
    );
}

#[test]
fn player_inv_hotbar() {
    assert_eq!(resolve_player_inventory(36), Some(WindowSlot::Hotbar(0)));
    assert_eq!(resolve_player_inventory(44), Some(WindowSlot::Hotbar(8)));
}

#[test]
fn player_inv_offhand() {
    assert_eq!(resolve_player_inventory(45), Some(WindowSlot::Offhand));
}

#[test]
fn player_inv_out_of_range() {
    assert_eq!(resolve_player_inventory(-1), None);
    assert_eq!(resolve_player_inventory(46), None);
    assert_eq!(resolve_player_inventory(100), None);
}

// ---------------------------------------------------------------
// resolve_crafting_table
// ---------------------------------------------------------------

#[test]
fn crafting_table_output() {
    assert_eq!(resolve_crafting_table(0), Some(WindowSlot::CraftOutput));
}

#[test]
fn crafting_table_grid() {
    for i in 1..=9 {
        assert_eq!(
            resolve_crafting_table(i),
            Some(WindowSlot::CraftGrid((i - 1) as usize))
        );
    }
}

#[test]
fn crafting_table_main_inventory() {
    // Protocol 10 = internal 9
    assert_eq!(
        resolve_crafting_table(10),
        Some(WindowSlot::MainInventory(9))
    );
    // Protocol 36 = internal 35
    assert_eq!(
        resolve_crafting_table(36),
        Some(WindowSlot::MainInventory(35))
    );
}

#[test]
fn crafting_table_hotbar() {
    assert_eq!(resolve_crafting_table(37), Some(WindowSlot::Hotbar(0)));
    assert_eq!(resolve_crafting_table(45), Some(WindowSlot::Hotbar(8)));
}

#[test]
fn crafting_table_out_of_range() {
    assert_eq!(resolve_crafting_table(-1), None);
    assert_eq!(resolve_crafting_table(46), None);
}

// ---------------------------------------------------------------
// resolve_chest
// ---------------------------------------------------------------

#[test]
fn chest_single_container_slots() {
    // Single chest: 27 container slots
    assert_eq!(resolve_chest(0, 27), Some(WindowSlot::Container(0)));
    assert_eq!(resolve_chest(26, 27), Some(WindowSlot::Container(26)));
}

#[test]
fn chest_single_main_inventory() {
    // Protocol 27 = internal 9
    assert_eq!(resolve_chest(27, 27), Some(WindowSlot::MainInventory(9)));
    // Protocol 53 = internal 35
    assert_eq!(resolve_chest(53, 27), Some(WindowSlot::MainInventory(35)));
}

#[test]
fn chest_single_hotbar() {
    // Protocol 54 = hotbar 0
    assert_eq!(resolve_chest(54, 27), Some(WindowSlot::Hotbar(0)));
    // Protocol 62 = hotbar 8
    assert_eq!(resolve_chest(62, 27), Some(WindowSlot::Hotbar(8)));
}

#[test]
fn chest_single_out_of_range() {
    assert_eq!(resolve_chest(-1, 27), None);
    assert_eq!(resolve_chest(63, 27), None);
}

#[test]
fn chest_double_container_slots() {
    // Double chest: 54 container slots
    assert_eq!(resolve_chest(0, 54), Some(WindowSlot::Container(0)));
    assert_eq!(resolve_chest(53, 54), Some(WindowSlot::Container(53)));
}

#[test]
fn chest_double_main_inventory() {
    // Protocol 54 = internal 9
    assert_eq!(resolve_chest(54, 54), Some(WindowSlot::MainInventory(9)));
    // Protocol 80 = internal 35
    assert_eq!(resolve_chest(80, 54), Some(WindowSlot::MainInventory(35)));
}

#[test]
fn chest_double_hotbar() {
    // Protocol 81 = hotbar 0
    assert_eq!(resolve_chest(81, 54), Some(WindowSlot::Hotbar(0)));
    // Protocol 89 = hotbar 8
    assert_eq!(resolve_chest(89, 54), Some(WindowSlot::Hotbar(8)));
}

#[test]
fn chest_double_out_of_range() {
    assert_eq!(resolve_chest(90, 54), None);
}

// ---------------------------------------------------------------
// to_protocol_slot roundtrips — player inventory
// ---------------------------------------------------------------

#[test]
fn roundtrip_player_inv_all_slots() {
    for slot in 0..=45i16 {
        let ws = resolve_player_inventory(slot).unwrap();
        let back = to_protocol_slot_player_inv(&ws).unwrap();
        assert_eq!(back, slot, "roundtrip failed for player inv slot {slot}");
    }
}

#[test]
fn player_inv_container_returns_none() {
    assert_eq!(to_protocol_slot_player_inv(&WindowSlot::Container(0)), None);
}

// ---------------------------------------------------------------
// to_protocol_slot roundtrips — crafting table
// ---------------------------------------------------------------

#[test]
fn roundtrip_crafting_table_output_and_grid() {
    for slot in 0..=9i16 {
        let ws = resolve_crafting_table(slot).unwrap();
        let back = to_protocol_slot_crafting_table(&ws).unwrap();
        assert_eq!(
            back, slot,
            "roundtrip failed for crafting table slot {slot}"
        );
    }
}

#[test]
fn roundtrip_crafting_table_hotbar() {
    for slot in 37..=45i16 {
        let ws = resolve_crafting_table(slot).unwrap();
        let back = to_protocol_slot_crafting_table(&ws).unwrap();
        assert_eq!(
            back, slot,
            "roundtrip failed for crafting table slot {slot}"
        );
    }
}

#[test]
fn roundtrip_crafting_table_main_inventory() {
    for slot in 10..=36i16 {
        let ws = resolve_crafting_table(slot).unwrap();
        let back = to_protocol_slot_crafting_table(&ws).unwrap();
        assert_eq!(
            back, slot,
            "roundtrip failed for crafting table slot {slot}"
        );
    }
}

#[test]
fn crafting_table_armor_returns_none() {
    assert_eq!(to_protocol_slot_crafting_table(&WindowSlot::Armor(0)), None);
}

#[test]
fn crafting_table_offhand_returns_none() {
    assert_eq!(to_protocol_slot_crafting_table(&WindowSlot::Offhand), None);
}

#[test]
fn crafting_table_container_returns_none() {
    assert_eq!(
        to_protocol_slot_crafting_table(&WindowSlot::Container(0)),
        None
    );
}

// ---------------------------------------------------------------
// to_protocol_slot roundtrips — chest
// ---------------------------------------------------------------

#[test]
fn roundtrip_chest_single_all_slots() {
    for slot in 0..63i16 {
        let ws = resolve_chest(slot, 27).unwrap();
        let back = to_protocol_slot_chest(&ws, 27).unwrap();
        assert_eq!(back, slot, "roundtrip failed for single chest slot {slot}");
    }
}

#[test]
fn roundtrip_chest_double_all_slots() {
    for slot in 0..90i16 {
        let ws = resolve_chest(slot, 54).unwrap();
        let back = to_protocol_slot_chest(&ws, 54).unwrap();
        assert_eq!(back, slot, "roundtrip failed for double chest slot {slot}");
    }
}

#[test]
fn chest_craft_output_returns_none() {
    assert_eq!(to_protocol_slot_chest(&WindowSlot::CraftOutput, 27), None);
}

#[test]
fn chest_armor_returns_none() {
    assert_eq!(to_protocol_slot_chest(&WindowSlot::Armor(0), 27), None);
}

#[test]
fn chest_offhand_returns_none() {
    assert_eq!(to_protocol_slot_chest(&WindowSlot::Offhand, 27), None);
}

// ---------------------------------------------------------------
// DragState transitions
// ---------------------------------------------------------------

#[test]
fn drag_state_none_is_default() {
    let state = DragState::Inactive;
    assert!(matches!(state, DragState::Inactive));
}

#[test]
fn drag_state_active_collects_slots() {
    let mut state = DragState::Active {
        drag_type: 0,
        slots: Vec::new(),
    };
    if let DragState::Active { slots, .. } = &mut state {
        slots.push(10);
        slots.push(20);
        slots.push(30);
    }
    if let DragState::Active { drag_type, slots } = &state {
        assert_eq!(*drag_type, 0);
        assert_eq!(slots, &[10, 20, 30]);
    } else {
        panic!("expected Active state");
    }
}

#[test]
fn drag_state_full_lifecycle() {
    // Start drag
    let action = parse_click_action(-999, 0, 5).unwrap();
    assert!(matches!(action, ClickAction::StartDrag { drag_type: 0 }));

    let mut state = DragState::Active {
        drag_type: 0,
        slots: Vec::new(),
    };

    // Add slots
    let add1 = parse_click_action(5, 1, 5).unwrap();
    assert!(matches!(add1, ClickAction::AddDragSlot { slot: 5 }));
    if let DragState::Active { slots, .. } = &mut state {
        slots.push(5);
    }

    let add2 = parse_click_action(10, 1, 5).unwrap();
    assert!(matches!(add2, ClickAction::AddDragSlot { slot: 10 }));
    if let DragState::Active { slots, .. } = &mut state {
        slots.push(10);
    }

    // End drag
    let end = parse_click_action(-999, 2, 5).unwrap();
    assert!(matches!(end, ClickAction::EndDrag { drag_type: 0 }));

    // Verify accumulated slots
    if let DragState::Active { slots, .. } = &state {
        assert_eq!(slots, &[5, 10]);
    }

    // Reset state
    let state = DragState::Inactive;
    assert!(matches!(state, DragState::Inactive));
}

#[test]
fn drag_state_right_click_lifecycle() {
    // Right-click drag: button 4 start, button 5 add, button 6 end
    let start = parse_click_action(-999, 4, 5).unwrap();
    assert!(matches!(start, ClickAction::StartDrag { drag_type: 1 }));

    let add = parse_click_action(15, 5, 5).unwrap();
    assert!(matches!(add, ClickAction::AddDragSlot { slot: 15 }));

    let end = parse_click_action(-999, 6, 5).unwrap();
    assert!(matches!(end, ClickAction::EndDrag { drag_type: 1 }));
}

// ---------------------------------------------------------------
// Edge cases
// ---------------------------------------------------------------

#[test]
fn parse_negative_slot_mode0() {
    // slot -999 with mode 0 = click outside window = drop entire cursor
    assert_eq!(
        parse_click_action(-999, 0, 0),
        Some(ClickAction::DropCursor { drop_all: true })
    );
    // slot -999 with mode 0, button 1 = right-click outside = drop single
    assert_eq!(
        parse_click_action(-999, 1, 0),
        Some(ClickAction::DropCursor { drop_all: false })
    );
}

#[test]
fn resolve_chest_zero_container_size() {
    // Degenerate case: 0-size container goes straight to player inv
    assert_eq!(resolve_chest(0, 0), Some(WindowSlot::MainInventory(9)));
    assert_eq!(resolve_chest(26, 0), Some(WindowSlot::MainInventory(35)));
    assert_eq!(resolve_chest(27, 0), Some(WindowSlot::Hotbar(0)));
}

#[test]
fn player_inv_boundary_values() {
    // Exact boundaries
    assert!(resolve_player_inventory(0).is_some());
    assert!(resolve_player_inventory(45).is_some());
    assert!(resolve_player_inventory(-1).is_none());
    assert!(resolve_player_inventory(46).is_none());
}

#[test]
fn crafting_table_boundary_values() {
    assert!(resolve_crafting_table(0).is_some());
    assert!(resolve_crafting_table(45).is_some());
    assert!(resolve_crafting_table(-1).is_none());
    assert!(resolve_crafting_table(46).is_none());
}

