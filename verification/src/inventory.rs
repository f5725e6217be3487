//! Player inventory and crafting grid state, and the slot-level rules the
//! game loop applies to them: quick-move insertion, drops, taking the
//! crafting output and consuming ingredients.

use vstd::prelude::*;
use crate::slot::{
    Slot, SlotView, MAX_STACK, amount, copy_bytes, empty_view, is_normal, view_is_empty,
    view_with_count,
};
use crate::click_handler::{views, amount_prefix, total_amount};

verus! {

/// Number of inventory slots: hotbar 0..9, then main inventory 9..36.
pub const INVENTORY_SLOTS: usize = 36;

/// A player's inventory: 36 slots (hotbar first), the cursor and the
/// selected hotbar slot.
pub struct Inventory {
    /// Hotbar (0..9) then main inventory (9..36).
    pub slots: Vec<Slot>,
    /// Item held by the mouse.
    pub cursor: Slot,
    /// Selected hotbar slot (0-8).
    pub held_slot: u8,
}

/// `n` empty slots.
pub fn empty_slots(n: usize) -> (r: Vec<Slot>)
    ensures
        r@.len() == n,
        forall|i: int| 0 <= i < n ==> (#[trigger] r@[i])@ == empty_view(),
{
    let mut r: Vec<Slot> = Vec::new();
    let mut i: usize = 0;
    while i < n
        invariant
            i <= n,
            r@.len() == i,
            forall|j: int| 0 <= j < i ==> (#[trigger] r@[j])@ == empty_view(),
        decreases n - i,
    {
        r.push(Slot::empty());
        i = i + 1;
    }
    r
}

impl Inventory {
    /// An inventory with every slot and the cursor empty, hotbar slot 0 selected.
    pub fn empty() -> (r: Inventory)
        ensures
            r.slots@.len() == INVENTORY_SLOTS,
            forall|i: int| 0 <= i < INVENTORY_SLOTS ==> (#[trigger] r.slots@[i])@ == empty_view(),
            r.cursor@ == empty_view(),
            r.held_slot == 0,
    {
        Inventory { slots: empty_slots(INVENTORY_SLOTS), cursor: Slot::empty(), held_slot: 0 }
    }

    /// The item in the selected hotbar slot.
    pub fn held_item(&self) -> (r: &Slot)
        requires
            (self.held_slot as int) < self.slots@.len(),
        ensures
            *r == self.slots@[self.held_slot as int],
    {
        &self.slots[self.held_slot as usize]
    }
}

/// Inventory slots in the order a container window lists them after its
/// own slots: main inventory (9..36) then hotbar (0..9).
pub fn window_inventory_slots(slots: &Vec<Slot>) -> (r: Vec<Slot>)
    requires
        slots@.len() >= INVENTORY_SLOTS,
    ensures
        r@.len() == INVENTORY_SLOTS,
        forall|i: int| 0 <= i < 27 ==> (#[trigger] r@[i])@ == slots@[i + 9]@,
        forall|i: int| 27 <= i < 36 ==> (#[trigger] r@[i])@ == slots@[i - 27]@,
{
    let mut r: Vec<Slot> = Vec::new();
    let mut i: usize = 9;
    while i < INVENTORY_SLOTS
        invariant
            9 <= i <= INVENTORY_SLOTS,
            slots@.len() >= INVENTORY_SLOTS,
            r@.len() == i - 9,
            forall|j: int| 0 <= j < i - 9 ==> (#[trigger] r@[j])@ == slots@[j + 9]@,
        decreases INVENTORY_SLOTS - i,
    {
        r.push(slots[i].copy());
        i = i + 1;
    }
    let mut i: usize = 0;
    while i < 9
        invariant
            i <= 9,
            slots@.len() >= INVENTORY_SLOTS,
            r@.len() == 27 + i,
            forall|j: int| 0 <= j < 27 ==> (#[trigger] r@[j])@ == slots@[j + 9]@,
            forall|j: int| 27 <= j < 27 + i ==> (#[trigger] r@[j])@ == slots@[j - 27]@,
        decreases 9 - i,
    {
        r.push(slots[i].copy());
        i = i + 1;
    }
    r
}

/// The protocol window slot of inventory slot `index`: in a crafting table
/// window hotbar 0-8 is 37-45 and main 9-35 is 10-36; in the player
/// inventory window hotbar 0-8 is 36-44 and main 9-35 stays 9-35.
pub open spec fn inventory_window_slot_spec(index: int, crafting_table: bool) -> int {
    if crafting_table {
        if index < 9 { index + 37 } else { index + 1 }
    } else {
        if index < 9 { index + 36 } else { index }
    }
}

/// Maps an inventory slot index to its protocol slot in the open window.
pub fn inventory_window_slot(index: usize, crafting_table: bool) -> (r: i16)
    requires
        index < INVENTORY_SLOTS,
    ensures
        r == inventory_window_slot_spec(index as int, crafting_table),
{
    if crafting_table {
        if index < 9 { (index + 37) as i16 } else { (index + 1) as i16 }
    } else {
        if index < 9 { (index + 36) as i16 } else { index as i16 }
    }
}

/// Whether slot `s` can take `count` more items of `id` on its stack.
pub open spec fn stack_fits(s: SlotView, id: i32, count: int) -> bool {
    s.id == Some(id) && s.count < MAX_STACK && MAX_STACK - s.count >= count
}

/// First index in `k..end` whose stack can take `count` items of `id`.
pub open spec fn first_stack_target(s: Seq<SlotView>, id: i32, count: int, k: int, end: int) -> Option<int>
    decreases end - k,
{
    if k >= end {
        None
    } else if stack_fits(s[k], id, count) {
        Some(k)
    } else {
        first_stack_target(s, id, count, k + 1, end)
    }
}

/// First empty index in `k..end`.
pub open spec fn first_empty(s: Seq<SlotView>, k: int, end: int) -> Option<int>
    decreases end - k,
{
    if k >= end {
        None
    } else if view_is_empty(s[k]) {
        Some(k)
    } else {
        first_empty(s, k + 1, end)
    }
}

/// The slots after inserting `count` items of `id` into `start..end`:
/// onto the first stack with room for all of them, else into the first
/// empty slot; `None` when neither exists.
pub open spec fn insert_spec(s: Seq<SlotView>, id: i32, count: int, start: int, end: int) -> Option<Seq<SlotView>> {
    match first_stack_target(s, id, count, start, end) {
        Some(i) => Some(s.update(i, SlotView { count: s[i].count + count, ..s[i] })),
        None => match first_empty(s, start, end) {
            Some(i) => Some(s.update(i, SlotView { count, id: Some(id), data: Seq::empty() })),
            None => None,
        },
    }
}

/// Insertion arithmetic stays within `i32` for every slot of `start..end`
/// holding item `id`.
pub open spec fn insert_in_bounds(s: Seq<SlotView>, id: i32, count: int, start: int, end: int) -> bool {
    forall|i: int|
        start <= i < end && (#[trigger] s[i]).id == Some(id) && s[i].count < MAX_STACK ==> {
            &&& MAX_STACK - s[i].count <= i32::MAX
            &&& s[i].count + count >= i32::MIN
        }
}

/// Quick-move: inserts `count` items of `item_id` into `slots[start..end]`,
/// first onto a stack with room for all of them, otherwise into the first
/// empty slot. Returns whether the items were placed.
pub fn try_insert_into_range(slots: &mut Vec<Slot>, item_id: i32, count: i32, start: usize, end: usize) -> (r: bool)
    requires
        start <= end <= old(slots)@.len(),
        insert_in_bounds(views(old(slots)@), item_id, count as int, start as int, end as int),
    ensures
        final(slots)@.len() == old(slots)@.len(),
        match insert_spec(views(old(slots)@), item_id, count as int, start as int, end as int) {
            Some(s) => r && views(final(slots)@) == s,
            None => !r && views(final(slots)@) == views(old(slots)@),
        },
{
    let ghost s0 = views(slots@);
    let mut target: Option<usize> = None;
    let mut i: usize = start;
    while i < end && target.is_none()
        invariant
            start <= i <= end <= slots@.len(),
            s0 == views(slots@),
            insert_in_bounds(s0, item_id, count as int, start as int, end as int),
            target is None ==> first_stack_target(s0, item_id, count as int, i as int, end as int)
                == first_stack_target(s0, item_id, count as int, start as int, end as int),
            target matches Some(t) ==> t < end && first_stack_target(s0, item_id, count as int, start as int, end as int) == Some(t as int),
        decreases end - i + (if target is None { 1int } else { 0int }),
    {
        let s = &slots[i];
        assert(s0[i as int] == s@);
        if s.item_id == Some(item_id) && s.item_count < MAX_STACK && MAX_STACK - s.item_count >= count {
            target = Some(i);
        } else {
            i = i + 1;
        }
    }
    if let Some(t) = target {
        proof {
            lemma_first_stack_target(s0, item_id, count as int, start as int, end as int);
        }
        let s = &slots[t];
        assert(s0[t as int] == s@);
        let updated = Slot {
            item_count: s.item_count + count,
            item_id: s.item_id,
            component_data: copy_bytes(&s.component_data),
        };
        slots.set(t, updated);
        assert(views(slots@) =~= s0.update(t as int, SlotView { count: s0[t as int].count + count, ..s0[t as int] }));
        return true;
    }
    let mut i: usize = start;
    while i < end && target.is_none()
        invariant
            start <= i <= end <= slots@.len(),
            s0 == views(slots@),
            first_stack_target(s0, item_id, count as int, start as int, end as int) is None,
            target is None ==> first_empty(s0, i as int, end as int) == first_empty(s0, start as int, end as int),
            target matches Some(t) ==> t < end && first_empty(s0, start as int, end as int) == Some(t as int),
        decreases end - i + (if target is None { 1int } else { 0int }),
    {
        assert(s0[i as int] == slots@[i as int]@);
        if slots[i].is_empty() {
            target = Some(i);
        } else {
            i = i + 1;
        }
    }
    if let Some(t) = target {
        slots.set(t, Slot::new(item_id, count));
        assert(views(slots@) =~= s0.update(t as int, SlotView { count: count as int, id: Some(item_id), data: Seq::empty() }));
        return true;
    }
    false
}

pub(crate) proof fn lemma_amount_prefix_update(s: Seq<SlotView>, i: int, x: SlotView, n: int)
    requires
        0 <= i < s.len(),
        0 <= n <= s.len(),
    ensures
        amount_prefix(s.update(i, x), n) == amount_prefix(s, n) + if i < n {
            amount(x) - amount(s[i])
        } else {
            0
        },
    decreases n,
{
    if n > 0 {
        lemma_amount_prefix_update(s, i, x, n - 1);
    }
}

pub(crate) proof fn lemma_first_stack_target(s: Seq<SlotView>, id: i32, count: int, k: int, end: int)
    ensures
        first_stack_target(s, id, count, k, end) matches Some(i) ==> k <= i < end && stack_fits(
            s[i],
            id,
            count,
        ),
    decreases end - k,
{
    if k < end && !stack_fits(s[k], id, count) {
        lemma_first_stack_target(s, id, count, k + 1, end);
    }
}

pub(crate) proof fn lemma_first_empty(s: Seq<SlotView>, k: int, end: int)
    ensures
        first_empty(s, k, end) matches Some(i) ==> k <= i < end && view_is_empty(s[i]),
    decreases end - k,
{
    if k < end && !view_is_empty(s[k]) {
        lemma_first_empty(s, k + 1, end);
    }
}

/// A successful quick-move adds exactly `count` items to the slots and
/// leaves the item count unchanged when it fails (slots stored
/// canonically, positive count).
pub proof fn insert_adds_exactly_count(s: Seq<SlotView>, id: i32, count: int, start: int, end: int)
    requires
        0 <= start <= end <= s.len(),
        count > 0,
        forall|i: int| 0 <= i < s.len() ==> is_normal(#[trigger] s[i]),
    ensures
        insert_spec(s, id, count, start, end) matches Some(t) ==> total_amount(t) == total_amount(s)
            + count,
{
    lemma_first_stack_target(s, id, count, start, end);
    lemma_first_empty(s, start, end);
    match first_stack_target(s, id, count, start, end) {
        Some(i) => {
            assert(is_normal(s[i]));
            lemma_amount_prefix_update(s, i, SlotView { count: s[i].count + count, ..s[i] }, s.len() as int);
        },
        None => match first_empty(s, start, end) {
            Some(i) => {
                assert(is_normal(s[i]));
                lemma_amount_prefix_update(s, i, SlotView { count, id: Some(id), data: Seq::empty() }, s.len() as int);
            },
            None => {},
        },
    }
}

/// What a drop spawns and what stays behind.
pub struct DropOutcome {
    /// Item id of the dropped stack.
    pub item_id: i32,
    /// Number of items dropped.
    pub count: i32,
    /// What is left in the slot (or on the cursor).
    pub remaining: Slot,
}

/// Items a drop takes: the whole stack, or one item.
pub open spec fn drop_count_spec(s: SlotView, drop_all: bool) -> int {
    if drop_all { s.count } else { 1 }
}

/// Drops from a held stack or the cursor (Q key, click outside the
/// window): the whole stack or one item; the rest keeps its components.
/// `None` when there is no item.
pub fn drop_from_stack(slot: &Slot, drop_all: bool) -> (r: Option<DropOutcome>)
    ensures
        match slot.item_id {
            None => r is None,
            Some(id) => r matches Some(o) && o.item_id == id && o.count == drop_count_spec(slot@, drop_all)
                && o.remaining@ == if o.count >= slot@.count {
                    empty_view()
                } else {
                    SlotView { count: slot@.count - o.count, ..slot@ }
                },
        },
{
    let item_id = match slot.item_id {
        Some(id) => id,
        None => return None,
    };
    let count = if drop_all { slot.item_count } else { 1 };
    let remaining = if count >= slot.item_count {
        Slot::empty()
    } else {
        Slot {
            item_count: slot.item_count - count,
            item_id: slot.item_id,
            component_data: copy_bytes(&slot.component_data),
        }
    };
    Some(DropOutcome { item_id, count, remaining })
}

/// Drops from a window slot (Q key while hovering): the whole stack or one
/// item; the rest is a plain stack of the same item. `None` when there is
/// no item.
pub fn drop_from_window_slot(slot: &Slot, drop_all: bool) -> (r: Option<DropOutcome>)
    ensures
        match slot.item_id {
            None => r is None,
            Some(id) => r matches Some(o) && o.item_id == id && o.count == drop_count_spec(slot@, drop_all)
                && o.remaining@ == if o.count >= slot@.count {
                    empty_view()
                } else {
                    SlotView { count: slot@.count - o.count, id: Some(id), data: Seq::empty() }
                },
        },
{
    let item_id = match slot.item_id {
        Some(id) => id,
        None => return None,
    };
    let count = if drop_all { slot.item_count } else { 1 };
    let remaining = if count >= slot.item_count {
        Slot::empty()
    } else {
        Slot::new(item_id, slot.item_count - count)
    };
    Some(DropOutcome { item_id, count, remaining })
}

/// Dropping never creates or destroys items: what is dropped plus what is
/// left equals what the stack held.
pub proof fn drop_conserves_items(s: SlotView, drop_all: bool)
    requires
        !view_is_empty(s),
    ensures
        drop_count_spec(s, drop_all) + amount(
            if drop_count_spec(s, drop_all) >= s.count {
                empty_view()
            } else {
                SlotView { count: s.count - drop_count_spec(s, drop_all), ..s }
            },
        ) == amount(s),
{
}

/// Whether the crafting output can be taken onto the cursor: there is an
/// output, and the cursor is empty or holds the same item with room for it.
pub open spec fn can_take_output_spec(cursor: SlotView, output: SlotView) -> bool {
    !view_is_empty(output) && (view_is_empty(cursor) || (cursor.id == output.id && cursor.count
        + output.count <= MAX_STACK))
}

/// Decides whether a click on the crafting output can take it.
pub fn can_take_craft_output(cursor: &Slot, output: &Slot) -> (r: bool)
    requires
        cursor@.id == output@.id ==> cursor@.count + output@.count <= i32::MAX,
    ensures
        r == can_take_output_spec(cursor@, output@),
{
    if output.is_empty() {
        return false;
    }
    if !cursor.is_empty() && (cursor.item_id != output.item_id || cursor.item_count
        + output.item_count > MAX_STACK) {
        return false;
    }
    true
}

/// The cursor after taking the crafting output: the output itself on an
/// empty cursor, otherwise the cursor stack grown by the output count.
pub fn take_craft_output(cursor: &Slot, output: &Slot) -> (r: Slot)
    requires
        can_take_output_spec(cursor@, output@),
    ensures
        r@ == if view_is_empty(cursor@) {
            output@
        } else {
            SlotView { count: cursor@.count + output@.count, ..cursor@ }
        },
{
    if cursor.is_empty() {
        output.copy()
    } else {
        Slot {
            item_count: cursor.item_count + output.item_count,
            item_id: cursor.item_id,
            component_data: copy_bytes(&cursor.component_data),
        }
    }
}

/// Number of slots of a crafting grid (3x3).
pub const GRID_SLOTS: usize = 9;

/// A crafting grid: 2x2 in the player inventory, 3x3 at a crafting table.
pub struct CraftingGrid {
    /// Side of the active grid (2 or 3).
    pub grid_size: u8,
    /// Grid slots, row-major; only the first `grid_size * grid_size` are used.
    pub slots: Vec<Slot>,
    /// Current crafting output.
    pub output: Slot,
}

/// Number of grid slots in use.
pub open spec fn active_slots(grid_size: u8) -> int {
    let n = grid_size as int * grid_size as int;
    if n < GRID_SLOTS { n } else { GRID_SLOTS as int }
}

/// A grid slot after one ingredient is consumed.
pub open spec fn consumed_slot(s: SlotView) -> SlotView {
    if s.id is Some {
        if s.count - 1 <= 0 { empty_view() } else { SlotView { count: s.count - 1, ..s } }
    } else {
        s
    }
}

/// Taking the crafting output from a grid of side `g` (at most 3: 2 in the
/// player inventory, 3 at a crafting table) takes exactly one item from
/// each of the first `g * g` grid slots that holds one, and leaves every
/// other slot as it was: whatever grid `after` meets the contract of
/// [`CraftingGrid::consume_ingredients`] for `before`.
pub proof fn crafting_consumes_one_from_each_used_slot(g: u8, before: Seq<SlotView>, after: Seq<SlotView>, i: int)
    requires
        g <= 3,
        before.len() == GRID_SLOTS,
        after.len() == GRID_SLOTS,
        forall|j: int|
            0 <= j < GRID_SLOTS ==> (#[trigger] after[j]) == if j < active_slots(g) {
                consumed_slot(before[j])
            } else {
                before[j]
            },
        0 <= i < GRID_SLOTS,
    ensures
        i < g * g && before[i].id is Some && before[i].count > 1 ==> after[i].id == before[i].id
            && after[i].count == before[i].count - 1 && after[i].data == before[i].data,
        i < g * g && before[i].id is Some && before[i].count <= 1 ==> after[i] == empty_view(),
        i >= g * g || before[i].id is None ==> after[i] == before[i],
{
    assert(g * g <= 9) by (nonlinear_arith)
        requires
            g <= 3,
    ;
    assert(after[i] == if i < active_slots(g) { consumed_slot(before[i]) } else { before[i] });
}

impl CraftingGrid {
    /// An empty 2x2 grid.
    pub fn new() -> (r: CraftingGrid)
        ensures
            r.grid_size == 2,
            r.slots@.len() == GRID_SLOTS,
            forall|i: int| 0 <= i < GRID_SLOTS ==> (#[trigger] r.slots@[i])@ == empty_view(),
            r.output@ == empty_view(),
    {
        CraftingGrid { grid_size: 2, slots: empty_slots(GRID_SLOTS), output: Slot::empty() }
    }

    /// Empties every slot and the output.
    pub fn clear(&mut self)
        ensures
            final(self).grid_size == old(self).grid_size,
            final(self).slots@.len() == GRID_SLOTS,
            forall|i: int| 0 <= i < GRID_SLOTS ==> (#[trigger] final(self).slots@[i])@ == empty_view(),
            final(self).output@ == empty_view(),
    {
        self.slots = empty_slots(GRID_SLOTS);
        self.output = Slot::empty();
    }

    /// Consumes one ingredient from each occupied slot of the active grid
    /// after the output is taken; slots that run out become empty, and the
    /// output is cleared.
    pub fn consume_ingredients(&mut self)
        requires
            old(self).slots@.len() == GRID_SLOTS,
            forall|i: int| 0 <= i < GRID_SLOTS ==> (#[trigger] old(self).slots@[i]).item_count > i32::MIN,
        ensures
            final(self).grid_size == old(self).grid_size,
            final(self).slots@.len() == GRID_SLOTS,
            forall|i: int|
                0 <= i < GRID_SLOTS ==> (#[trigger] final(self).slots@[i])@ == if i < active_slots(
                    old(self).grid_size,
                ) {
                    consumed_slot(old(self).slots@[i]@)
                } else {
                    old(self).slots@[i]@
                },
            final(self).output@ == empty_view(),
    {
        let gs = self.grid_size as usize;
        assert(gs * gs <= 255 * 255) by (nonlinear_arith)
            requires
                gs <= 255,
        ;
        let n: usize = gs * gs;
        let limit: usize = if n < GRID_SLOTS { n } else { GRID_SLOTS };
        let ghost before = self.slots@;
        let mut i: usize = 0;
        while i < limit
            invariant
                limit == active_slots(self.grid_size),
                self.grid_size == old(self).grid_size,
                before == old(self).slots@,
                limit <= GRID_SLOTS,
                i <= limit,
                self.slots@.len() == GRID_SLOTS,
                before.len() == GRID_SLOTS,
                forall|j: int| 0 <= j < GRID_SLOTS ==> (#[trigger] before[j]).item_count > i32::MIN,
                forall|j: int|
                    0 <= j < GRID_SLOTS ==> (#[trigger] self.slots@[j])@ == if j < i {
                        consumed_slot(before[j]@)
                    } else {
                        before[j]@
                    },
            decreases limit - i,
        {
            let s = &self.slots[i];
            assert(s@ == before[i as int]@);
            if s.item_id.is_some() {
                let c = s.item_count - 1;
                let updated = if c <= 0 {
                    Slot::empty()
                } else {
                    Slot { item_count: c, item_id: s.item_id, component_data: copy_bytes(&s.component_data) }
                };
                self.slots.set(i, updated);
            }
            i = i + 1;
        }
        self.output = Slot::empty();
    }

    /// Item ids of the nine grid slots, as the recipe matcher reads them.
    pub fn item_ids(&self) -> (r: Vec<Option<i32>>)
        requires
            self.slots@.len() == GRID_SLOTS,
        ensures
            r@.len() == GRID_SLOTS,
            forall|i: int| 0 <= i < GRID_SLOTS ==> #[trigger] r@[i] == self.slots@[i].item_id,
    {
        let mut r: Vec<Option<i32>> = Vec::new();
        let mut i: usize = 0;
        while i < GRID_SLOTS
            invariant
                i <= GRID_SLOTS,
                self.slots@.len() == GRID_SLOTS,
                r@.len() == i,
                forall|j: int| 0 <= j < i ==> #[trigger] r@[j] == self.slots@[j].item_id,
            decreases GRID_SLOTS - i,
        {
            r.push(self.slots[i].item_id);
            i = i + 1;
        }
        r
    }

    /// Item ids of the active grid slots, `None` beyond the active grid, as
    /// reported to listeners when the grid changes.
    pub fn active_item_ids(&self) -> (r: Vec<Option<i32>>)
        requires
            self.slots@.len() == GRID_SLOTS,
        ensures
            r@.len() == GRID_SLOTS,
            forall|i: int|
                0 <= i < GRID_SLOTS ==> #[trigger] r@[i] == if i < active_slots(self.grid_size) {
                    self.slots@[i].item_id
                } else {
                    None
                },
    {
        let gs = self.grid_size as usize;
        assert(gs * gs <= 255 * 255) by (nonlinear_arith)
            requires
                gs <= 255,
        ;
        let n: usize = gs * gs;
        let limit: usize = if n < GRID_SLOTS { n } else { GRID_SLOTS };
        let mut r: Vec<Option<i32>> = Vec::new();
        let mut i: usize = 0;
        while i < GRID_SLOTS
            invariant
                limit == active_slots(self.grid_size),
                i <= GRID_SLOTS,
                self.slots@.len() == GRID_SLOTS,
                r@.len() == i,
                forall|j: int|
                    0 <= j < i ==> #[trigger] r@[j] == if j < limit {
                        self.slots@[j].item_id
                    } else {
                        None
                    },
            decreases GRID_SLOTS - i,
        {
            if i < limit {
                r.push(self.slots[i].item_id);
            } else {
                r.push(None);
            }
            i = i + 1;
        }
        r
    }
}

/// One round of shift-click crafting: the output goes into the inventory
/// (onto a stack with room for all of it, else into the first empty
/// slot); when it fits, one ingredient is consumed from each occupied slot
/// of the active grid and the output is cleared. Returns whether the
/// output fit; nothing changes when it did not or there was no output.
pub fn craft_into_inventory(inv: &mut Inventory, grid: &mut CraftingGrid) -> (r: bool)
    requires
        old(inv).slots@.len() == INVENTORY_SLOTS,
        old(grid).slots@.len() == GRID_SLOTS,
        forall|i: int| 0 <= i < GRID_SLOTS ==> (#[trigger] old(grid).slots@[i]).item_count > i32::MIN,
        old(grid).output.item_id matches Some(id) ==> insert_in_bounds(
            views(old(inv).slots@),
            id,
            old(grid).output.item_count as int,
            0,
            INVENTORY_SLOTS as int,
        ),
    ensures
        final(inv).cursor == old(inv).cursor,
        final(inv).held_slot == old(inv).held_slot,
        final(inv).slots@.len() == INVENTORY_SLOTS,
        match old(grid).output.item_id {
            None => !r && final(inv).slots@ == old(inv).slots@ && *final(grid) == *old(grid),
            Some(id) => match insert_spec(
                views(old(inv).slots@),
                id,
                old(grid).output.item_count as int,
                0,
                INVENTORY_SLOTS as int,
            ) {
                Some(s) => {
                    &&& r
                    &&& views(final(inv).slots@) == s
                    &&& final(grid).grid_size == old(grid).grid_size
                    &&& final(grid).slots@.len() == GRID_SLOTS
                    &&& forall|i: int|
                        0 <= i < GRID_SLOTS ==> (#[trigger] final(grid).slots@[i])@ == if i < active_slots(
                            old(grid).grid_size,
                        ) {
                            consumed_slot(old(grid).slots@[i]@)
                        } else {
                            old(grid).slots@[i]@
                        }
                    &&& final(grid).output@ == empty_view()
                },
                None => !r && views(final(inv).slots@) == views(old(inv).slots@) && *final(grid) == *old(grid),
            },
        },
{
    let id = match grid.output.item_id {
        Some(id) => id,
        None => return false,
    };
    let placed = try_insert_into_range(&mut inv.slots, id, grid.output.item_count, 0, INVENTORY_SLOTS);
    if placed {
        grid.consume_ingredients();
    }
    placed
}

/// Taking the crafting output removes exactly one item from each occupied
/// slot of the active grid (slots stored canonically).
pub proof fn consume_takes_one_each(s: SlotView)
    requires
        is_normal(s),
    ensures
        amount(consumed_slot(s)) == if view_is_empty(s) { 0 } else { amount(s) - 1 },
{
}

} // verus!
