//! Click parsing, drag state, and window slot resolution.
//!
//! Converts raw protocol (slot, button, mode) triples from the
//! WindowClick packet into typed [`ClickAction`] variants, tracks
//! multi-packet drag operations via [`DragState`], and maps protocol
//! slot numbers to logical [`WindowSlot`] locations and back.

use vstd::prelude::*;

verus! {

/// A parsed click action from the client's WindowClick packet.
#[derive(Debug, Clone, Copy, PartialEq, Eq, Structural)]
pub enum ClickAction {
    /// Left-click on a slot (pick up stack / place stack / swap with cursor).
    LeftClick { slot: i16 },
    /// Right-click on a slot (pick up half / place one / split cursor).
    RightClick { slot: i16 },
    /// Shift-click to quick-move an item between inventory regions.
    ShiftClick { slot: i16 },
    /// Double-click to collect matching items onto the cursor.
    DoubleClick { slot: i16 },
    /// Drop the item held on the cursor (click outside the window).
    DropCursor { drop_all: bool },
    /// Drop from a specific slot (Q key while hovering).
    DropSlot { slot: i16, drop_all: bool },
    /// Swap a slot with a hotbar slot (number keys 1-9).
    HotbarSwap { slot: i16, hotbar: u8 },
    /// Swap a slot with the offhand (F key).
    OffhandSwap { slot: i16 },
    /// Begin a drag: 0 = left (distribute), 1 = right (one each), 2 = middle.
    StartDrag { drag_type: u8 },
    /// Add a slot to the current drag operation.
    AddDragSlot { slot: i16 },
    /// Finish a drag operation and distribute items.
    EndDrag { drag_type: u8 },
}

/// The action a WindowClick (slot, button, mode) triple stands for.
pub open spec fn click_action_spec(slot: i16, button: i8, mode: i32) -> Option<ClickAction> {
    if mode == 0 {
        if slot == -999 {
            Some(ClickAction::DropCursor { drop_all: button == 0 })
        } else if button == 0 {
            Some(ClickAction::LeftClick { slot })
        } else if button == 1 {
            Some(ClickAction::RightClick { slot })
        } else {
            None
        }
    } else if mode == 1 {
        Some(ClickAction::ShiftClick { slot })
    } else if mode == 2 {
        if button == 40 {
            Some(ClickAction::OffhandSwap { slot })
        } else if 0 <= button <= 8 {
            Some(ClickAction::HotbarSwap { slot, hotbar: button as u8 })
        } else {
            None
        }
    } else if mode == 3 {
        None
    } else if mode == 4 {
        if slot == -999 {
            Some(ClickAction::DropCursor { drop_all: button == 1 })
        } else {
            Some(ClickAction::DropSlot { slot, drop_all: button == 1 })
        }
    } else if mode == 5 {
        if button == 0 {
            Some(ClickAction::StartDrag { drag_type: 0 })
        } else if button == 4 {
            Some(ClickAction::StartDrag { drag_type: 1 })
        } else if button == 8 {
            Some(ClickAction::StartDrag { drag_type: 2 })
        } else if button == 1 || button == 5 || button == 9 {
            Some(ClickAction::AddDragSlot { slot })
        } else if button == 2 {
            Some(ClickAction::EndDrag { drag_type: 0 })
        } else if button == 6 {
            Some(ClickAction::EndDrag { drag_type: 1 })
        } else if button == 10 {
            Some(ClickAction::EndDrag { drag_type: 2 })
        } else {
            None
        }
    } else if mode == 6 {
        Some(ClickAction::DoubleClick { slot })
    } else {
        None
    }
}

/// Parses a WindowClick packet's (slot, button, mode) into a [`ClickAction`].
///
/// Returns `None` for combinations the server does not handle (for example
/// creative middle-click, mode 3).
pub fn parse_click_action(slot: i16, button: i8, mode: i32) -> (r: Option<ClickAction>)
    ensures
        r == click_action_spec(slot, button, mode),
{
    match mode {
        0 => {
            if slot == -999 {
                return Some(ClickAction::DropCursor { drop_all: button == 0 });
            }
            match button {
                0 => Some(ClickAction::LeftClick { slot }),
                1 => Some(ClickAction::RightClick { slot }),
                _ => None,
            }
        },
        1 => Some(ClickAction::ShiftClick { slot }),
        2 => {
            if button == 40 {
                Some(ClickAction::OffhandSwap { slot })
            } else if 0 <= button && button <= 8 {
                Some(ClickAction::HotbarSwap { slot, hotbar: button as u8 })
            } else {
                None
            }
        },
        3 => None,
        4 => {
            if slot == -999 {
                Some(ClickAction::DropCursor { drop_all: button == 1 })
            } else {
                Some(ClickAction::DropSlot { slot, drop_all: button == 1 })
            }
        },
        5 => match button {
            0 => Some(ClickAction::StartDrag { drag_type: 0 }),
            4 => Some(ClickAction::StartDrag { drag_type: 1 }),
            8 => Some(ClickAction::StartDrag { drag_type: 2 }),
            1 | 5 | 9 => Some(ClickAction::AddDragSlot { slot }),
            2 => Some(ClickAction::EndDrag { drag_type: 0 }),
            6 => Some(ClickAction::EndDrag { drag_type: 1 }),
            10 => Some(ClickAction::EndDrag { drag_type: 2 }),
            _ => None,
        },
        6 => Some(ClickAction::DoubleClick { slot }),
        _ => None,
    }
}

/// State of a multi-packet drag operation for one player.
#[derive(Debug, Clone)]
pub enum DragState {
    /// No drag in progress.
    Inactive,
    /// A drag is active, collecting target slots.
    Active {
        /// Drag type: 0 = left (distribute evenly), 1 = right (one each), 2 = middle.
        drag_type: u8,
        /// Slots added so far via [`ClickAction::AddDragSlot`] packets.
        slots: Vec<i16>,
    },
}

impl DragState {
    /// A fresh drag of the given type, with no slots yet.
    pub fn start(drag_type: u8) -> (r: DragState)
        ensures
            r matches DragState::Active { drag_type: t, slots } && t == drag_type && slots@.len()
                == 0,
    {
        DragState::Active { drag_type, slots: Vec::new() }
    }

    /// Ends any drag in progress without distributing (the window closed or
    /// the player left).
    pub fn cancel(&mut self)
        ensures
            *final(self) is Inactive,
    {
        *self = DragState::Inactive;
    }

    /// Records a dragged-over slot; a state without an active drag is unchanged.
    pub fn add_slot(&mut self, slot: i16)
        ensures
            match (*old(self), *final(self)) {
                (DragState::Inactive, DragState::Inactive) => true,
                (
                    DragState::Active { drag_type: t, slots: s },
                    DragState::Active { drag_type: t2, slots: s2 },
                ) => t2 == t && s2@ == s@.push(slot),
                _ => false,
            },
    {
        match self {
            DragState::Inactive => {},
            DragState::Active { slots, .. } => {
                slots.push(slot);
            },
        }
    }
}

/// A slot's logical location within a window, independent of the
/// protocol numbering of the window type.
#[derive(Debug, Clone, Copy, PartialEq, Eq, Structural)]
pub enum WindowSlot {
    /// The crafting output slot.
    CraftOutput,
    /// A crafting grid input slot (0-based index).
    CraftGrid(usize),
    /// An armor slot: 0 = helmet, 1 = chestplate, 2 = leggings, 3 = boots.
    Armor(usize),
    /// Main inventory slot (internal index 9-35).
    MainInventory(usize),
    /// Hotbar slot (internal index 0-8).
    Hotbar(usize),
    /// The offhand slot.
    Offhand,
    /// A container-specific slot (chest, furnace, ...).
    Container(usize),
}

/// Category of a window slot, without its index.
#[derive(Debug, Clone, Copy, PartialEq, Eq, Structural)]
pub enum WindowSlotKind {
    CraftOutput,
    CraftGrid,
    Armor,
    MainInventory,
    Hotbar,
    Offhand,
    Container,
}

/// Click type reported to container listeners.
#[derive(Debug, Clone, Copy, PartialEq, Eq, Structural)]
pub enum ContainerClickType {
    LeftClick,
    RightClick,
    ShiftClick,
    DoubleClick,
    DropSlot { drop_all: bool },
    HotbarSwap { hotbar: u8 },
    OffhandSwap,
}

/// Player inventory window layout (window 0):
/// 0 output, 1-4 2x2 grid, 5-8 armor, 9-35 main, 36-44 hotbar, 45 offhand.
pub open spec fn player_inventory_spec(slot: i16) -> Option<WindowSlot> {
    if slot == 0 {
        Some(WindowSlot::CraftOutput)
    } else if 1 <= slot <= 4 {
        Some(WindowSlot::CraftGrid((slot - 1) as usize))
    } else if 5 <= slot <= 8 {
        Some(WindowSlot::Armor((slot - 5) as usize))
    } else if 9 <= slot <= 35 {
        Some(WindowSlot::MainInventory(slot as usize))
    } else if 36 <= slot <= 44 {
        Some(WindowSlot::Hotbar((slot - 36) as usize))
    } else if slot == 45 {
        Some(WindowSlot::Offhand)
    } else {
        None
    }
}

/// Resolves a protocol slot in the player inventory window.
pub fn resolve_player_inventory(slot: i16) -> (r: Option<WindowSlot>)
    ensures
        r == player_inventory_spec(slot),
{
    match slot {
        0 => Some(WindowSlot::CraftOutput),
        1..=4 => Some(WindowSlot::CraftGrid((slot - 1) as usize)),
        5..=8 => Some(WindowSlot::Armor((slot - 5) as usize)),
        9..=35 => Some(WindowSlot::MainInventory(slot as usize)),
        36..=44 => Some(WindowSlot::Hotbar((slot - 36) as usize)),
        45 => Some(WindowSlot::Offhand),
        _ => None,
    }
}

/// Crafting table window layout: 0 output, 1-9 3x3 grid, 10-36 main
/// inventory (internal 9-35), 37-45 hotbar (internal 0-8).
pub open spec fn crafting_table_spec(slot: i16) -> Option<WindowSlot> {
    if slot == 0 {
        Some(WindowSlot::CraftOutput)
    } else if 1 <= slot <= 9 {
        Some(WindowSlot::CraftGrid((slot - 1) as usize))
    } else if 10 <= slot <= 36 {
        Some(WindowSlot::MainInventory((slot - 1) as usize))
    } else if 37 <= slot <= 45 {
        Some(WindowSlot::Hotbar((slot - 37) as usize))
    } else {
        None
    }
}

/// Resolves a protocol slot in a crafting table window.
pub fn resolve_crafting_table(slot: i16) -> (r: Option<WindowSlot>)
    ensures
        r == crafting_table_spec(slot),
{
    match slot {
        0 => Some(WindowSlot::CraftOutput),
        1..=9 => Some(WindowSlot::CraftGrid((slot - 1) as usize)),
        10..=36 => Some(WindowSlot::MainInventory((slot - 1) as usize)),
        37..=45 => Some(WindowSlot::Hotbar((slot - 37) as usize)),
        _ => None,
    }
}

/// Chest window layout: `0..size` container, then 27 main inventory slots
/// (internal 9-35), then 9 hotbar slots (internal 0-8).
pub open spec fn chest_spec(slot: i16, size: usize) -> Option<WindowSlot> {
    if slot < 0 {
        None
    } else if slot < size {
        Some(WindowSlot::Container(slot as usize))
    } else if slot < size + 27 {
        Some(WindowSlot::MainInventory((slot - size + 9) as usize))
    } else if slot < size + 36 {
        Some(WindowSlot::Hotbar((slot - size - 27) as usize))
    } else {
        None
    }
}

/// Resolves a protocol slot in a chest or other container window.
pub fn resolve_chest(slot: i16, container_size: usize) -> (r: Option<WindowSlot>)
    ensures
        r == chest_spec(slot, container_size),
{
    if slot < 0 {
        return None;
    }
    let s = slot as usize;
    if s < container_size {
        Some(WindowSlot::Container(s))
    } else if s < container_size + 27 {
        Some(WindowSlot::MainInventory(s - container_size + 9))
    } else if s < container_size + 36 {
        Some(WindowSlot::Hotbar(s - container_size - 27))
    } else {
        None
    }
}

/// Whether mapping `ws` back to the player inventory stays within `i16`.
pub open spec fn player_inv_mappable(ws: WindowSlot) -> bool {
    match ws {
        WindowSlot::CraftGrid(i) => (i as i16) + 1 <= i16::MAX,
        WindowSlot::Armor(i) => (i as i16) + 5 <= i16::MAX,
        WindowSlot::Hotbar(i) => (i as i16) + 36 <= i16::MAX,
        _ => true,
    }
}

/// The player inventory protocol slot of `ws`.
pub open spec fn player_inv_slot_spec(ws: WindowSlot) -> Option<i16> {
    match ws {
        WindowSlot::CraftOutput => Some(0),
        WindowSlot::CraftGrid(i) => Some(((i as i16) + 1) as i16),
        WindowSlot::Armor(i) => Some(((i as i16) + 5) as i16),
        WindowSlot::MainInventory(i) => Some(i as i16),
        WindowSlot::Hotbar(i) => Some(((i as i16) + 36) as i16),
        WindowSlot::Offhand => Some(45),
        WindowSlot::Container(_) => None,
    }
}

/// Maps a [`WindowSlot`] back to a player inventory protocol slot;
/// `None` for container slots.
pub fn to_protocol_slot_player_inv(ws: &WindowSlot) -> (r: Option<i16>)
    requires
        player_inv_mappable(*ws),
    ensures
        r == player_inv_slot_spec(*ws),
{
    match ws {
        WindowSlot::CraftOutput => Some(0),
        WindowSlot::CraftGrid(i) => Some(*i as i16 + 1),
        WindowSlot::Armor(i) => Some(*i as i16 + 5),
        WindowSlot::MainInventory(i) => Some(*i as i16),
        WindowSlot::Hotbar(i) => Some(*i as i16 + 36),
        WindowSlot::Offhand => Some(45),
        WindowSlot::Container(_) => None,
    }
}

/// Whether mapping `ws` back to a crafting table window stays within `i16`.
pub open spec fn crafting_table_mappable(ws: WindowSlot) -> bool {
    match ws {
        WindowSlot::CraftGrid(i) => (i as i16) + 1 <= i16::MAX,
        WindowSlot::MainInventory(i) => (i as i16) + 1 <= i16::MAX,
        WindowSlot::Hotbar(i) => (i as i16) + 37 <= i16::MAX,
        _ => true,
    }
}

/// The crafting table protocol slot of `ws`.
pub open spec fn crafting_table_slot_spec(ws: WindowSlot) -> Option<i16> {
    match ws {
        WindowSlot::CraftOutput => Some(0),
        WindowSlot::CraftGrid(i) => Some(((i as i16) + 1) as i16),
        WindowSlot::MainInventory(i) => Some(((i as i16) + 1) as i16),
        WindowSlot::Hotbar(i) => Some(((i as i16) + 37) as i16),
        _ => None,
    }
}

/// Maps a [`WindowSlot`] back to a crafting table protocol slot; `None`
/// for armor, offhand and container slots.
pub fn to_protocol_slot_crafting_table(ws: &WindowSlot) -> (r: Option<i16>)
    requires
        crafting_table_mappable(*ws),
    ensures
        r == crafting_table_slot_spec(*ws),
{
    match ws {
        WindowSlot::CraftOutput => Some(0),
        WindowSlot::CraftGrid(i) => Some(*i as i16 + 1),
        WindowSlot::MainInventory(i) => Some(*i as i16 + 1),
        WindowSlot::Hotbar(i) => Some(*i as i16 + 37),
        _ => None,
    }
}

/// Whether mapping `ws` back to a chest window stays within `usize`.
pub open spec fn chest_mappable(ws: WindowSlot, size: usize) -> bool {
    match ws {
        WindowSlot::MainInventory(i) => i >= 9 && i - 9 + size <= usize::MAX,
        WindowSlot::Hotbar(i) => i + size + 27 <= usize::MAX,
        _ => true,
    }
}

/// The chest window protocol slot of `ws`.
pub open spec fn chest_slot_spec(ws: WindowSlot, size: usize) -> Option<i16> {
    match ws {
        WindowSlot::Container(i) => Some(i as i16),
        WindowSlot::MainInventory(i) => Some((i - 9 + size) as i16),
        WindowSlot::Hotbar(i) => Some((i + size + 27) as i16),
        _ => None,
    }
}

/// Maps a [`WindowSlot`] back to a chest window protocol slot; `None` for
/// craft output, craft grid, armor and offhand.
pub fn to_protocol_slot_chest(ws: &WindowSlot, container_size: usize) -> (r: Option<i16>)
    requires
        chest_mappable(*ws, container_size),
    ensures
        r == chest_slot_spec(*ws, container_size),
{
    match ws {
        WindowSlot::Container(i) => Some(*i as i16),
        WindowSlot::MainInventory(i) => Some((*i - 9 + container_size) as i16),
        WindowSlot::Hotbar(i) => Some((*i + container_size + 27) as i16),
        _ => None,
    }
}

/// The category of a window slot.
pub open spec fn slot_kind_spec(ws: WindowSlot) -> WindowSlotKind {
    match ws {
        WindowSlot::CraftOutput => WindowSlotKind::CraftOutput,
        WindowSlot::CraftGrid(_) => WindowSlotKind::CraftGrid,
        WindowSlot::Armor(_) => WindowSlotKind::Armor,
        WindowSlot::MainInventory(_) => WindowSlotKind::MainInventory,
        WindowSlot::Hotbar(_) => WindowSlotKind::Hotbar,
        WindowSlot::Offhand => WindowSlotKind::Offhand,
        WindowSlot::Container(_) => WindowSlotKind::Container,
    }
}

impl WindowSlot {
    /// The slot's category, without its index.
    pub fn to_kind(self) -> (r: WindowSlotKind)
        ensures
            r == slot_kind_spec(self),
    {
        match self {
            WindowSlot::CraftOutput => WindowSlotKind::CraftOutput,
            WindowSlot::CraftGrid(_) => WindowSlotKind::CraftGrid,
            WindowSlot::Armor(_) => WindowSlotKind::Armor,
            WindowSlot::MainInventory(_) => WindowSlotKind::MainInventory,
            WindowSlot::Hotbar(_) => WindowSlotKind::Hotbar,
            WindowSlot::Offhand => WindowSlotKind::Offhand,
            WindowSlot::Container(_) => WindowSlotKind::Container,
        }
    }

    /// Whether the slot is in a crafting grid.
    pub fn is_craft_slot(&self) -> (r: bool)
        ensures
            r == (*self is CraftGrid),
    {
        matches!(self, WindowSlot::CraftGrid(_))
    }
}

/// The click type reported to container listeners; `None` for the
/// transient phases (drop cursor, drag start/add/end).
pub open spec fn click_type_spec(action: ClickAction) -> Option<ContainerClickType> {
    match action {
        ClickAction::LeftClick { .. } => Some(ContainerClickType::LeftClick),
        ClickAction::RightClick { .. } => Some(ContainerClickType::RightClick),
        ClickAction::ShiftClick { .. } => Some(ContainerClickType::ShiftClick),
        ClickAction::DoubleClick { .. } => Some(ContainerClickType::DoubleClick),
        ClickAction::DropSlot { drop_all, .. } => Some(ContainerClickType::DropSlot { drop_all }),
        ClickAction::HotbarSwap { hotbar, .. } => Some(ContainerClickType::HotbarSwap { hotbar }),
        ClickAction::OffhandSwap { .. } => Some(ContainerClickType::OffhandSwap),
        _ => None,
    }
}

/// Maps a click action to the click type reported to container listeners.
pub fn click_type_from_action(action: &ClickAction) -> (r: Option<ContainerClickType>)
    ensures
        r == click_type_spec(*action),
{
    match action {
        ClickAction::LeftClick { .. } => Some(ContainerClickType::LeftClick),
        ClickAction::RightClick { .. } => Some(ContainerClickType::RightClick),
        ClickAction::ShiftClick { .. } => Some(ContainerClickType::ShiftClick),
        ClickAction::DoubleClick { .. } => Some(ContainerClickType::DoubleClick),
        ClickAction::DropSlot { drop_all, .. } => Some(ContainerClickType::DropSlot { drop_all: *drop_all }),
        ClickAction::HotbarSwap { hotbar, .. } => Some(ContainerClickType::HotbarSwap { hotbar: *hotbar }),
        ClickAction::OffhandSwap { .. } => Some(ContainerClickType::OffhandSwap),
        ClickAction::DropCursor { .. }
        | ClickAction::StartDrag { .. }
        | ClickAction::AddDragSlot { .. }
        | ClickAction::EndDrag { .. } => None,
    }
}

/// Every player inventory slot 0..=45 resolves, and mapping it back gives
/// the same protocol slot.
pub proof fn player_inventory_roundtrip(slot: i16)
    requires
        0 <= slot <= 45,
    ensures
        player_inventory_spec(slot) is Some,
        player_inv_mappable(player_inventory_spec(slot).unwrap()),
        player_inv_slot_spec(player_inventory_spec(slot).unwrap()) == Some(slot),
{
}

/// Every crafting table slot 0..=45 resolves, and mapping it back gives
/// the same protocol slot.
pub proof fn crafting_table_roundtrip(slot: i16)
    requires
        0 <= slot <= 45,
    ensures
        crafting_table_spec(slot) is Some,
        crafting_table_mappable(crafting_table_spec(slot).unwrap()),
        crafting_table_slot_spec(crafting_table_spec(slot).unwrap()) == Some(slot),
{
}

/// Every chest window slot below `size + 36` resolves, and mapping it back
/// gives the same protocol slot.
pub proof fn chest_roundtrip(slot: i16, size: usize)
    requires
        0 <= slot < size + 36,
    ensures
        chest_spec(slot, size) is Some,
        chest_mappable(chest_spec(slot, size).unwrap(), size),
        chest_slot_spec(chest_spec(slot, size).unwrap(), size) == Some(slot),
{
}

/// Protocol slots outside each window's range resolve to nothing.
pub proof fn out_of_range_slots_resolve_to_none(slot: i16, size: usize)
    ensures
        (slot < 0 || slot > 45) ==> player_inventory_spec(slot) is None,
        (slot < 0 || slot > 45) ==> crafting_table_spec(slot) is None,
        (slot < 0 || slot >= size + 36) ==> chest_spec(slot, size) is None,
{
}

/// Logical slots that a window does not show have no protocol slot there:
/// container slots in the player inventory; armor, offhand and container
/// slots in a crafting table; crafting and equipment slots in a chest.
pub proof fn slots_missing_from_windows(i: usize, size: usize)
    ensures
        player_inv_slot_spec(WindowSlot::Container(i)) is None,
        crafting_table_slot_spec(WindowSlot::Armor(i)) is None,
        crafting_table_slot_spec(WindowSlot::Offhand) is None,
        crafting_table_slot_spec(WindowSlot::Container(i)) is None,
        chest_slot_spec(WindowSlot::CraftOutput, size) is None,
        chest_slot_spec(WindowSlot::CraftGrid(i), size) is None,
        chest_slot_spec(WindowSlot::Armor(i), size) is None,
        chest_slot_spec(WindowSlot::Offhand, size) is None,
{
}

/// Logical slots that the player inventory window shows.
pub open spec fn in_player_inventory(ws: WindowSlot) -> bool {
    match ws {
        WindowSlot::CraftOutput | WindowSlot::Offhand => true,
        WindowSlot::CraftGrid(i) => i < 4,
        WindowSlot::Armor(i) => i < 4,
        WindowSlot::MainInventory(i) => 9 <= i <= 35,
        WindowSlot::Hotbar(i) => i < 9,
        WindowSlot::Container(_) => false,
    }
}

/// Logical slots that a crafting table window shows.
pub open spec fn in_crafting_table(ws: WindowSlot) -> bool {
    match ws {
        WindowSlot::CraftOutput => true,
        WindowSlot::CraftGrid(i) => i < 9,
        WindowSlot::MainInventory(i) => 9 <= i <= 35,
        WindowSlot::Hotbar(i) => i < 9,
        _ => false,
    }
}

/// Logical slots that a chest window of `size` container slots shows.
pub open spec fn in_chest(ws: WindowSlot, size: usize) -> bool {
    match ws {
        WindowSlot::Container(i) => i < size,
        WindowSlot::MainInventory(i) => 9 <= i <= 35,
        WindowSlot::Hotbar(i) => i < 9,
        _ => false,
    }
}

/// Mapping a logical slot shown by a window to its protocol slot and
/// resolving that slot again gives back the logical slot.
pub proof fn window_slot_roundtrip(ws: WindowSlot, size: usize)
    requires
        size + 36 <= i16::MAX,
    ensures
        in_player_inventory(ws) ==> player_inv_mappable(ws),
        in_player_inventory(ws) ==> player_inv_slot_spec(ws) is Some && player_inventory_spec(
            player_inv_slot_spec(ws).unwrap(),
        ) == Some(ws),
        in_crafting_table(ws) ==> crafting_table_mappable(ws),
        in_crafting_table(ws) ==> crafting_table_slot_spec(ws) is Some && crafting_table_spec(
            crafting_table_slot_spec(ws).unwrap(),
        ) == Some(ws),
        in_chest(ws, size) ==> chest_mappable(ws, size),
        in_chest(ws, size) ==> chest_slot_spec(ws, size) is Some && chest_spec(
            chest_slot_spec(ws, size).unwrap(),
            size,
        ) == Some(ws),
{
}

} // verus!
