//! Pure inventory click computations: left and right clicks, drag
//! distribution and double-click collection. Each takes the current
//! slots and cursor and returns their new values.

use vstd::prelude::*;
use crate::slot::{
    Slot, SlotView, MAX_STACK, amount, is_normal, bytes_equal, copy_bytes, empty_view, view_can_stack, view_is_empty,
    view_with_count,
};

verus! {

/// New state of the clicked slot and of the cursor after a single-slot click.
pub struct ClickResult {
    /// New value of the clicked slot.
    pub clicked: Slot,
    /// New value of the cursor (item held by the mouse).
    pub cursor: Slot,
}

/// Whether two slots hold the same item type and can stack.
pub fn can_stack(a: &Slot, b: &Slot) -> (r: bool)
    ensures
        r == view_can_stack(a@, b@),
{
    match (a.item_id, b.item_id) {
        (Some(a_id), Some(b_id)) => a_id == b_id && bytes_equal(&a.component_data, &b.component_data),
        _ => false,
    }
}

/// A copy of `slot` holding `count` items; the empty slot when `count <= 0`.
pub fn with_count(slot: &Slot, count: i32) -> (r: Slot)
    ensures
        r@ == view_with_count(slot@, count as int),
{
    if count <= 0 {
        return Slot::empty();
    }
    Slot { item_count: count, item_id: slot.item_id, component_data: copy_bytes(&slot.component_data) }
}

/// What a left-click leaves in the clicked slot and on the cursor.
pub open spec fn left_click_spec(clicked: SlotView, cursor: SlotView) -> (SlotView, SlotView) {
    if view_is_empty(clicked) && view_is_empty(cursor) {
        (empty_view(), empty_view())
    } else if view_is_empty(cursor) {
        (empty_view(), clicked)
    } else if view_is_empty(clicked) {
        (cursor, empty_view())
    } else if view_can_stack(clicked, cursor) {
        let total = clicked.count + cursor.count;
        if total <= MAX_STACK {
            (view_with_count(clicked, total), empty_view())
        } else {
            (view_with_count(clicked, MAX_STACK as int), view_with_count(cursor, total - MAX_STACK))
        }
    } else {
        (cursor, clicked)
    }
}

/// What a right-click leaves in the clicked slot and on the cursor.
pub open spec fn right_click_spec(clicked: SlotView, cursor: SlotView) -> (SlotView, SlotView) {
    if view_is_empty(clicked) && view_is_empty(cursor) {
        (empty_view(), empty_view())
    } else if view_is_empty(cursor) {
        let half_up = (clicked.count + 1) / 2;
        (view_with_count(clicked, clicked.count - half_up), view_with_count(clicked, half_up))
    } else if view_is_empty(clicked) {
        (view_with_count(cursor, 1), view_with_count(cursor, cursor.count - 1))
    } else if view_can_stack(clicked, cursor) {
        if clicked.count >= MAX_STACK {
            (clicked, cursor)
        } else {
            (view_with_count(clicked, clicked.count + 1), view_with_count(cursor, cursor.count - 1))
        }
    } else {
        (cursor, clicked)
    }
}

/// Left-click on a slot.
///
/// - both empty: nothing happens
/// - cursor empty: the whole stack moves to the cursor
/// - slot empty: the whole cursor moves into the slot
/// - same item: the cursor stacks onto the slot up to 64, the rest stays on the cursor
/// - different items: slot and cursor swap
pub fn left_click(clicked: &Slot, cursor: &Slot) -> (r: ClickResult)
    requires
        view_can_stack(clicked@, cursor@) ==> clicked@.count + cursor@.count <= i32::MAX,
    ensures
        (r.clicked@, r.cursor@) == left_click_spec(clicked@, cursor@),
{
    let clicked_empty = clicked.is_empty();
    let cursor_empty = cursor.is_empty();

    if clicked_empty && cursor_empty {
        return ClickResult { clicked: Slot::empty(), cursor: Slot::empty() };
    }
    if cursor_empty {
        return ClickResult { clicked: Slot::empty(), cursor: clicked.copy() };
    }
    if clicked_empty {
        return ClickResult { clicked: cursor.copy(), cursor: Slot::empty() };
    }
    if can_stack(clicked, cursor) {
        let total = clicked.item_count + cursor.item_count;
        if total <= MAX_STACK {
            ClickResult { clicked: with_count(clicked, total), cursor: Slot::empty() }
        } else {
            ClickResult {
                clicked: with_count(clicked, MAX_STACK),
                cursor: with_count(cursor, total - MAX_STACK),
            }
        }
    } else {
        ClickResult { clicked: cursor.copy(), cursor: clicked.copy() }
    }
}

/// Right-click on a slot.
///
/// - both empty: nothing happens
/// - cursor empty: half the stack (rounded up) moves to the cursor
/// - slot empty: one item moves from the cursor into the slot
/// - same item, slot below 64: one item moves from the cursor onto the slot
/// - same item, slot full: nothing happens
/// - different items: slot and cursor swap
pub fn right_click(clicked: &Slot, cursor: &Slot) -> (r: ClickResult)
    requires
        view_is_empty(cursor@) ==> clicked@.count < i32::MAX,
    ensures
        (r.clicked@, r.cursor@) == right_click_spec(clicked@, cursor@),
{
    let clicked_empty = clicked.is_empty();
    let cursor_empty = cursor.is_empty();

    if clicked_empty && cursor_empty {
        return ClickResult { clicked: Slot::empty(), cursor: Slot::empty() };
    }
    if cursor_empty {
        let half_up = (clicked.item_count + 1) / 2;
        let remain = clicked.item_count - half_up;
        return ClickResult { clicked: with_count(clicked, remain), cursor: with_count(clicked, half_up) };
    }
    if clicked_empty {
        return ClickResult {
            clicked: with_count(cursor, 1),
            cursor: with_count(cursor, cursor.item_count - 1),
        };
    }
    if can_stack(clicked, cursor) {
        if clicked.item_count >= MAX_STACK {
            return ClickResult { clicked: clicked.copy(), cursor: cursor.copy() };
        }
        return ClickResult {
            clicked: with_count(clicked, clicked.item_count + 1),
            cursor: with_count(cursor, cursor.item_count - 1),
        };
    }
    ClickResult { clicked: cursor.copy(), cursor: clicked.copy() }
}

/// A left-click never creates or destroys items: the clicked slot and the
/// cursor hold as many items together after the click as before.
pub proof fn left_click_conserves_items(clicked: SlotView, cursor: SlotView)
    ensures
        amount(left_click_spec(clicked, cursor).0) + amount(left_click_spec(clicked, cursor).1)
            == amount(clicked) + amount(cursor),
{
}

/// A right-click never creates or destroys items.
pub proof fn right_click_conserves_items(clicked: SlotView, cursor: SlotView)
    ensures
        amount(right_click_spec(clicked, cursor).0) + amount(right_click_spec(clicked, cursor).1)
            == amount(clicked) + amount(cursor),
{
}

/// Clicks keep stacks within the stack limit: when neither the slot nor the
/// cursor holds more than 64 items, neither does afterwards.
pub proof fn clicks_respect_max_stack(clicked: SlotView, cursor: SlotView)
    requires
        amount(clicked) <= MAX_STACK,
        amount(cursor) <= MAX_STACK,
    ensures
        amount(left_click_spec(clicked, cursor).0) <= MAX_STACK,
        amount(left_click_spec(clicked, cursor).1) <= MAX_STACK,
        amount(right_click_spec(clicked, cursor).0) <= MAX_STACK,
        amount(right_click_spec(clicked, cursor).1) <= MAX_STACK,
{
}


/// New state of every slot in a drag and of the cursor after distribution.
pub struct DragResult {
    /// New values for each slot in the drag (same order as input).
    pub slots: Vec<Slot>,
    /// Remaining cursor after distribution.
    pub cursor: Slot,
}

/// The views of a sequence of slots.
pub open spec fn views(s: Seq<Slot>) -> Seq<SlotView> {
    s.map_values(|x: Slot| x@)
}

/// A drag target accepts the cursor's item when it is empty or holds the
/// same item with room left.
pub open spec fn drag_compatible(s: SlotView, c: SlotView) -> bool {
    view_is_empty(s) || (view_can_stack(s, c) && s.count < MAX_STACK)
}

/// Room left in a drag target.
pub open spec fn drag_space(s: SlotView) -> int {
    if view_is_empty(s) { MAX_STACK as int } else { MAX_STACK - s.count }
}

/// Number of compatible drag targets among the first `n` slots.
pub open spec fn count_compatible(slots: Seq<SlotView>, c: SlotView, n: int) -> int
    decreases n,
{
    if n <= 0 {
        0
    } else {
        count_compatible(slots, c, n - 1) + if drag_compatible(slots[n - 1], c) { 1int } else { 0int }
    }
}

/// Items an even (left) drag gives each compatible slot: the cursor count
/// divided by the number of compatible slots.
pub open spec fn drag_per_slot(c: SlotView, slots: Seq<SlotView>) -> int {
    let k = count_compatible(slots, c, slots.len() as int);
    if k == 0 { 0 } else { c.count / k }
}

/// Whether the drag divides the cursor evenly (left drag with at least one
/// item per compatible slot); otherwise compatible slots get one item each,
/// in order, while items last.
pub open spec fn drag_even(c: SlotView, slots: Seq<SlotView>, left: bool) -> bool {
    left && drag_per_slot(c, slots) > 0
}

/// Items the drag adds to slot `i`.
pub open spec fn drag_add(c: SlotView, slots: Seq<SlotView>, left: bool, i: int) -> int {
    if !drag_compatible(slots[i], c) {
        0
    } else if drag_even(c, slots, left) {
        if drag_per_slot(c, slots) <= drag_space(slots[i]) {
            drag_per_slot(c, slots)
        } else {
            drag_space(slots[i])
        }
    } else if count_compatible(slots, c, i) < c.count {
        1
    } else {
        0
    }
}

/// Items the drag takes from the cursor for the first `n` slots.
pub open spec fn drag_total(c: SlotView, slots: Seq<SlotView>, left: bool, n: int) -> int
    decreases n,
{
    if n <= 0 {
        0
    } else {
        drag_total(c, slots, left, n - 1) + drag_add(c, slots, left, n - 1)
    }
}

/// Slot `i` after the drag.
pub open spec fn drag_slot_after(c: SlotView, slots: Seq<SlotView>, left: bool, i: int) -> SlotView {
    if drag_add(c, slots, left, i) > 0 {
        view_with_count(c, slots[i].count + drag_add(c, slots, left, i))
    } else {
        slots[i]
    }
}

/// The slots and cursor after a drag ends.
pub open spec fn drag_spec(c: SlotView, slots: Seq<SlotView>, left: bool) -> (Seq<SlotView>, SlotView) {
    if view_is_empty(c) {
        (slots, c)
    } else {
        (
            Seq::new(slots.len(), |i: int| drag_slot_after(c, slots, left, i)),
            view_with_count(c, c.count - drag_total(c, slots, left, slots.len() as int)),
        )
    }
}

proof fn lemma_count_compatible_bounds(slots: Seq<SlotView>, c: SlotView, n: int, m: int)
    requires
        0 <= n <= m,
    ensures
        0 <= count_compatible(slots, c, n) <= count_compatible(slots, c, m),
        count_compatible(slots, c, m) - count_compatible(slots, c, n) <= m - n,
    decreases m,
{
    if m > n {
        lemma_count_compatible_bounds(slots, c, n, m - 1);
    } else if n > 0 {
        lemma_count_compatible_bounds(slots, c, n - 1, n - 1);
    }
}

proof fn lemma_count_compatible_pos(slots: Seq<SlotView>, c: SlotView, i: int, m: int)
    requires
        0 <= i < m,
        drag_compatible(slots[i], c),
    ensures
        count_compatible(slots, c, i) + 1 <= count_compatible(slots, c, m),
    decreases m,
{
    if m > i + 1 {
        lemma_count_compatible_pos(slots, c, i, m - 1);
        lemma_count_compatible_bounds(slots, c, m - 1, m - 1);
    } else {
        lemma_count_compatible_bounds(slots, c, i, i);
    }
}

proof fn lemma_drag_total_one_each(c: SlotView, slots: Seq<SlotView>, left: bool, n: int)
    requires
        0 <= n <= slots.len(),
        !drag_even(c, slots, left),
        c.count > 0,
    ensures
        drag_total(c, slots, left, n) == if count_compatible(slots, c, n) < c.count {
            count_compatible(slots, c, n)
        } else {
            c.count
        },
    decreases n,
{
    if n > 0 {
        lemma_drag_total_one_each(c, slots, left, n - 1);
        lemma_count_compatible_bounds(slots, c, n - 1, n - 1);
    }
}

proof fn lemma_drag_total_even(c: SlotView, slots: Seq<SlotView>, left: bool, n: int)
    requires
        0 <= n <= slots.len(),
        drag_even(c, slots, left),
    ensures
        0 <= drag_total(c, slots, left, n) <= drag_per_slot(c, slots) * count_compatible(slots, c, n),
    decreases n,
{
    if n > 0 {
        lemma_drag_total_even(c, slots, left, n - 1);
        lemma_count_compatible_bounds(slots, c, n - 1, n - 1);
        let p = drag_per_slot(c, slots);
        let k = count_compatible(slots, c, n - 1);
        assert(p * (k + 1) == p * k + p) by (nonlinear_arith);
    }
}

proof fn lemma_per_slot_bound(count: int, k: int)
    requires
        count >= 0,
        k > 0,
    ensures
        (count / k) * k <= count,
        count / k >= 0,
{
    assert((count / k) * k <= count) by (nonlinear_arith)
        requires
            count >= 0,
            k > 0,
    ;
    assert(count / k >= 0) by (nonlinear_arith)
        requires
            count >= 0,
            k > 0,
    ;
}

/// Ends a drag: distributes the cursor over the dragged slots.
///
/// With `left_drag`, the cursor is divided evenly over the compatible slots
/// (each capped by its room); when there are fewer items than compatible
/// slots, and for a right drag, each compatible slot gets one item in order
/// while items last. Incompatible slots are left unchanged.
pub fn distribute_drag(cursor: &Slot, slots: &[Slot], left_drag: bool) -> (r: DragResult)
    requires
        slots@.len() <= i32::MAX,
        forall|i: int|
            0 <= i < slots@.len() && view_is_empty(#[trigger] slots@[i]@) ==> slots@[i]@.count
                <= i32::MAX - MAX_STACK,
    ensures
        views(r.slots@) == drag_spec(cursor@, views(slots@), left_drag).0,
        r.cursor@ == drag_spec(cursor@, views(slots@), left_drag).1,
{
    let ghost c = cursor@;
    let ghost vs = views(slots@);
    let n = slots.len();
    if cursor.is_empty() {
        let mut out: Vec<Slot> = Vec::new();
        let mut i: usize = 0;
        while i < n
            invariant
                n == slots@.len(),
                i <= n,
                out@.len() == i,
                forall|j: int| 0 <= j < i ==> (#[trigger] out@[j])@ == slots@[j]@,
            decreases n - i,
        {
            out.push(slots[i].copy());
            i = i + 1;
        }
        assert(views(out@) =~= vs);
        return DragResult { slots: out, cursor: cursor.copy() };
    }
    // Count compatible slots.
    let mut k: i32 = 0;
    let mut i: usize = 0;
    while i < n
        invariant
            n == slots@.len(),
            n <= i32::MAX,
            i <= n,
            vs == views(slots@),
            vs.len() == n,
            c == cursor@,
            k == count_compatible(vs, c, i as int),
        decreases n - i,
    {
        proof {
            lemma_count_compatible_bounds(vs, c, 0, i as int);
        }
        let s = &slots[i];
        assert(vs[i as int] == s@);
        if s.is_empty() || (can_stack(s, cursor) && s.item_count < MAX_STACK) {
            k = k + 1;
        }
        i = i + 1;
    }
    let per_slot: i32 = if k > 0 { cursor.item_count / k } else { 0 };
    proof {
        if k > 0 {
            lemma_per_slot_bound(c.count, k as int);
        }
    }
    let even = left_drag && per_slot > 0;
    assert(k > 0 ==> per_slot == drag_per_slot(c, vs));
    assert(k > 0 ==> even == drag_even(c, vs, left_drag));
    let mut out: Vec<Slot> = Vec::new();
    let mut remaining: i32 = cursor.item_count;
    let mut rank: i32 = 0;
    let mut i: usize = 0;
    while i < n
        invariant
            n == slots@.len(),
            n <= i32::MAX,
            i <= n,
            vs == views(slots@),
            vs.len() == n,
            c == cursor@,
            !view_is_empty(c),
            k == count_compatible(vs, c, n as int),
            k > 0 ==> per_slot == drag_per_slot(c, vs),
            k > 0 ==> even == drag_even(c, vs, left_drag),
            k > 0 ==> per_slot * k <= c.count,
            per_slot >= 0,
            even ==> per_slot > 0 && k > 0,
            rank == count_compatible(vs, c, i as int),
            remaining == c.count - drag_total(c, vs, left_drag, i as int),
            out@.len() == i,
            forall|j: int| 0 <= j < i ==> (#[trigger] out@[j])@ == drag_slot_after(c, vs, left_drag, j),
            forall|j: int|
                0 <= j < slots@.len() && view_is_empty(#[trigger] slots@[j]@) ==> slots@[j]@.count
                    <= i32::MAX - MAX_STACK,
        decreases n - i,
    {
        proof {
            lemma_count_compatible_bounds(vs, c, i as int, n as int);
            lemma_count_compatible_bounds(vs, c, i as int + 1, n as int);
            lemma_count_compatible_bounds(vs, c, i as int, i as int + 1);
            if even {
                lemma_drag_total_even(c, vs, left_drag, i as int);
                lemma_drag_total_even(c, vs, left_drag, i as int + 1);
                assert(per_slot * rank <= per_slot * k) by (nonlinear_arith)
                    requires
                        per_slot >= 0,
                        rank <= k,
                ;
            } else {
                lemma_drag_total_one_each(c, vs, left_drag, i as int);
            }
        }
        let s = &slots[i];
        assert(vs[i as int] == s@);
        let compatible = s.is_empty() || (can_stack(s, cursor) && s.item_count < MAX_STACK);
        assert(compatible == drag_compatible(vs[i as int], c));
        if compatible {
            proof {
                lemma_count_compatible_pos(vs, c, i as int, n as int);
            }
            let space: i32 = if s.is_empty() { MAX_STACK } else { MAX_STACK - s.item_count };
            let add: i32 = if even {
                if per_slot <= space { per_slot } else { space }
            } else if remaining > 0 {
                1
            } else {
                0
            };
            assert(add == drag_add(c, vs, left_drag, i as int));
            if add > 0 {
                out.push(with_count(cursor, s.item_count + add));
            } else {
                out.push(s.copy());
            }
            remaining = remaining - add;
            rank = rank + 1;
        } else {
            out.push(s.copy());
        }
        i = i + 1;
    }
    proof {
        if even {
            lemma_drag_total_even(c, vs, left_drag, n as int);
            assert(per_slot * k <= c.count);
        } else {
            assert(count_compatible(vs, c, vs.len() as int) == k);
            lemma_count_compatible_bounds(vs, c, 0, n as int);
            assert(!drag_even(c, vs, left_drag));
            lemma_drag_total_one_each(c, vs, left_drag, n as int);
        }
    }
    assert(views(out@) =~= drag_spec(c, vs, left_drag).0);
    DragResult { slots: out, cursor: with_count(cursor, remaining) }
}

/// Items held by the first `n` slots of `s`.
pub open spec fn amount_prefix(s: Seq<SlotView>, n: int) -> int
    decreases n,
{
    if n <= 0 {
        0
    } else {
        amount_prefix(s, n - 1) + amount(s[n - 1])
    }
}

/// Items held by all slots of `s`.
pub open spec fn total_amount(s: Seq<SlotView>) -> int {
    amount_prefix(s, s.len() as int)
}

proof fn lemma_drag_add_bounds(c: SlotView, slots: Seq<SlotView>, left: bool, i: int)
    requires
        0 <= i < slots.len(),
        !view_is_empty(c),
    ensures
        0 <= drag_add(c, slots, left, i),
        drag_compatible(slots[i], c) ==> drag_add(c, slots, left, i) <= drag_space(slots[i]),
        drag_add(c, slots, left, i) > 0 ==> drag_compatible(slots[i], c),
{
}

proof fn lemma_drag_total_le_cursor(c: SlotView, slots: Seq<SlotView>, left: bool)
    requires
        !view_is_empty(c),
    ensures
        0 <= drag_total(c, slots, left, slots.len() as int) <= c.count,
{
    let n = slots.len() as int;
    lemma_count_compatible_bounds(slots, c, 0, n);
    if drag_even(c, slots, left) {
        lemma_drag_total_even(c, slots, left, n);
        lemma_per_slot_bound(c.count, count_compatible(slots, c, n));
    } else {
        lemma_drag_total_one_each(c, slots, left, n);
    }
}

proof fn lemma_drag_prefix(c: SlotView, slots: Seq<SlotView>, left: bool, n: int)
    requires
        0 <= n <= slots.len(),
        !view_is_empty(c),
        forall|i: int| 0 <= i < slots.len() ==> is_normal(#[trigger] slots[i]),
    ensures
        amount_prefix(drag_spec(c, slots, left).0, n) == amount_prefix(slots, n) + drag_total(
            c,
            slots,
            left,
            n,
        ),
    decreases n,
{
    if n > 0 {
        lemma_drag_prefix(c, slots, left, n - 1);
        lemma_drag_add_bounds(c, slots, left, n - 1);
        assert(is_normal(slots[n - 1]));
    }
}

/// A drag never creates or destroys items: the dragged slots and the cursor
/// hold as many items together after the drag as before. Empty slots must
/// be stored canonically (count zero); an empty slot with a leftover count
/// is refilled on top of that count.
pub proof fn drag_conserves_items(c: SlotView, slots: Seq<SlotView>, left: bool)
    requires
        forall|i: int| 0 <= i < slots.len() ==> is_normal(#[trigger] slots[i]),
    ensures
        total_amount(drag_spec(c, slots, left).0) + amount(drag_spec(c, slots, left).1)
            == total_amount(slots) + amount(c),
{
    if !view_is_empty(c) {
        lemma_drag_prefix(c, slots, left, slots.len() as int);
        lemma_drag_total_le_cursor(c, slots, left);
    }
}

/// A drag never overfills a slot: every slot holds at most 64 items
/// afterwards when it held at most 64 before.
pub proof fn drag_respects_max_stack(c: SlotView, slots: Seq<SlotView>, left: bool, i: int)
    requires
        0 <= i < slots.len(),
        is_normal(slots[i]),
        amount(slots[i]) <= MAX_STACK,
    ensures
        amount(drag_spec(c, slots, left).0[i]) <= MAX_STACK,
{
    if !view_is_empty(c) {
        lemma_drag_add_bounds(c, slots, left, i);
    }
}

/// Per-slot updates and new cursor after a double-click collect.
pub struct CollectResult {
    /// Per-slot update: `None` = unchanged, `Some(slot)` = new value.
    pub updates: Vec<Option<Slot>>,
    /// New cursor after collecting.
    pub cursor: Slot,
}

/// A slot the double-click collects from: non-empty and stackable with the cursor.
pub open spec fn collect_match(s: SlotView, c: SlotView) -> bool {
    !view_is_empty(s) && view_can_stack(s, c)
}

/// Items taken from slot `s` when the cursor holds `cc` items.
pub open spec fn collect_take(s: SlotView, cc: int) -> int {
    if s.count <= MAX_STACK - cc { s.count } else { MAX_STACK - cc }
}

/// Cursor count after collecting from the first `n` slots.
pub open spec fn collect_count(c: SlotView, slots: Seq<SlotView>, n: int) -> int
    decreases n,
{
    if n <= 0 {
        c.count
    } else {
        let cc = collect_count(c, slots, n - 1);
        if cc >= MAX_STACK || !collect_match(slots[n - 1], c) {
            cc
        } else {
            cc + collect_take(slots[n - 1], cc)
        }
    }
}

/// Whether slot `i` gives items to the cursor.
pub open spec fn collect_touches(c: SlotView, slots: Seq<SlotView>, i: int) -> bool {
    collect_count(c, slots, i) < MAX_STACK && collect_match(slots[i], c)
}

/// Update for slot `i`.
pub open spec fn collect_update(c: SlotView, slots: Seq<SlotView>, i: int) -> Option<SlotView> {
    if !view_is_empty(c) && collect_touches(c, slots, i) {
        Some(view_with_count(slots[i], slots[i].count - collect_take(slots[i], collect_count(c, slots, i))))
    } else {
        None
    }
}

/// Cursor after the collect.
pub open spec fn collect_cursor(c: SlotView, slots: Seq<SlotView>) -> SlotView {
    if view_is_empty(c) {
        c
    } else {
        view_with_count(c, collect_count(c, slots, slots.len() as int))
    }
}

/// Views of optional slot updates.
pub open spec fn update_views(u: Seq<Option<Slot>>) -> Seq<Option<SlotView>> {
    u.map_values(|x: Option<Slot>| match x {
        Some(s) => Some(s@),
        None => None,
    })
}

proof fn lemma_collect_count_grows(c: SlotView, slots: Seq<SlotView>, n: int)
    requires
        0 <= n <= slots.len(),
    ensures
        c.count <= collect_count(c, slots, n),
        c.count < MAX_STACK ==> collect_count(c, slots, n) <= MAX_STACK,
        c.count >= MAX_STACK ==> collect_count(c, slots, n) == c.count,
    decreases n,
{
    if n > 0 {
        lemma_collect_count_grows(c, slots, n - 1);
    }
}

/// Double-click: collects items matching the cursor from `all_slots` onto
/// the cursor, in order, until the cursor holds 64 items.
pub fn collect_double_click(cursor: &Slot, all_slots: &[Slot]) -> (r: CollectResult)
    ensures
        r.updates@.len() == all_slots@.len(),
        forall|i: int|
            0 <= i < all_slots@.len() ==> update_views(r.updates@)[i] == collect_update(
                cursor@,
                views(all_slots@),
                i,
            ),
        r.cursor@ == collect_cursor(cursor@, views(all_slots@)),
{
    let ghost c = cursor@;
    let ghost vs = views(all_slots@);
    let n = all_slots.len();
    let mut updates: Vec<Option<Slot>> = Vec::new();
    if cursor.is_empty() {
        let mut i: usize = 0;
        while i < n
            invariant
                i <= n,
                n == all_slots@.len(),
                updates@.len() == i,
                forall|j: int| 0 <= j < i ==> (#[trigger] updates@[j]) is None,
            decreases n - i,
        {
            updates.push(None);
            i = i + 1;
        }
        return CollectResult { updates, cursor: cursor.copy() };
    }
    let mut cursor_count: i32 = cursor.item_count;
    let mut i: usize = 0;
    while i < n
        invariant
            i <= n,
            n == all_slots@.len(),
            vs == views(all_slots@),
            vs.len() == n,
            c == cursor@,
            !view_is_empty(c),
            cursor_count == collect_count(c, vs, i as int),
            updates@.len() == i,
            forall|j: int|
                0 <= j < i ==> update_views(updates@)[j] == collect_update(c, vs, j),
        decreases n - i,
    {
        proof {
            lemma_collect_count_grows(c, vs, i as int);
        }
        let s = &all_slots[i];
        assert(vs[i as int] == s@);
        let ghost before = updates@;
        if cursor_count >= MAX_STACK || s.is_empty() || !can_stack(s, cursor) {
            updates.push(None);
        } else {
            let room = MAX_STACK - cursor_count;
            let take = if s.item_count <= room { s.item_count } else { room };
            cursor_count = cursor_count + take;
            updates.push(Some(with_count(s, s.item_count - take)));
        }
        assert forall|j: int| 0 <= j < i + 1 implies update_views(updates@)[j] == collect_update(
            c,
            vs,
            j,
        ) by {
            if j < i {
                assert(updates@[j] == before[j]);
            }
        }
        i = i + 1;
    }
    CollectResult { updates, cursor: with_count(cursor, cursor_count) }
}

/// The slots after applying collect updates.
pub open spec fn apply_updates(s: Seq<SlotView>, c: SlotView) -> Seq<SlotView> {
    Seq::new(
        s.len(),
        |i: int|
            match collect_update(c, s, i) {
                Some(x) => x,
                None => s[i],
            },
    )
}

proof fn lemma_collect_prefix(c: SlotView, slots: Seq<SlotView>, n: int)
    requires
        0 <= n <= slots.len(),
        !view_is_empty(c),
    ensures
        amount_prefix(apply_updates(slots, c), n) + collect_count(c, slots, n) == amount_prefix(
            slots,
            n,
        ) + c.count,
    decreases n,
{
    if n > 0 {
        lemma_collect_prefix(c, slots, n - 1);
        lemma_collect_count_grows(c, slots, n - 1);
    }
}

/// A double-click collect never creates or destroys items: the slots and
/// the cursor hold as many items together afterwards as before.
pub proof fn collect_conserves_items(c: SlotView, slots: Seq<SlotView>)
    ensures
        total_amount(apply_updates(slots, c)) + amount(collect_cursor(c, slots)) == total_amount(
            slots,
        ) + amount(c),
{
    if !view_is_empty(c) {
        lemma_collect_prefix(c, slots, slots.len() as int);
        lemma_collect_count_grows(c, slots, slots.len() as int);
    } else {
        assert(apply_updates(slots, c) =~= slots);
    }
}

/// A double-click gathers only stacks identical to the cursor's: a slot
/// whose item id or component data differs from the cursor's gets no
/// update and adds nothing to the cursor; a slot that is updated held the
/// cursor's item with the cursor's data and keeps them (or empties); and
/// the cursor keeps its own item and data.
pub proof fn collect_takes_only_identical_stacks(c: SlotView, slots: Seq<SlotView>, i: int)
    requires
        0 <= i < slots.len(),
    ensures
        slots[i].id != c.id || slots[i].data != c.data ==> collect_update(c, slots, i) is None
            && collect_count(c, slots, i + 1) == collect_count(c, slots, i),
        collect_update(c, slots, i) matches Some(u) ==> slots[i].id == c.id && slots[i].data == c.data
            && slots[i].id is Some && (view_is_empty(u) || (u.id == slots[i].id && u.data == slots[i].data)),
        !view_is_empty(collect_cursor(c, slots)) ==> collect_cursor(c, slots).id == c.id
            && collect_cursor(c, slots).data == c.data,
{
}

/// The collect stops at a full stack: a cursor holding at most 64 items
/// still holds at most 64 afterwards.
pub proof fn collect_respects_max_stack(c: SlotView, slots: Seq<SlotView>)
    requires
        amount(c) <= MAX_STACK,
    ensures
        amount(collect_cursor(c, slots)) <= MAX_STACK,
{
    if !view_is_empty(c) {
        lemma_collect_count_grows(c, slots, slots.len() as int);
    }
}

} // verus!
