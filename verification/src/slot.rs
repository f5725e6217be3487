//! Item stacks as they sit in inventory, container and cursor slots.

use vstd::prelude::*;

verus! {

/// Maximum number of items in a single stack.
pub const MAX_STACK: i32 = 64;

/// Mathematical model of a slot: count, item id and opaque component bytes.
pub ghost struct SlotView {
    pub count: int,
    pub id: Option<i32>,
    pub data: Seq<u8>,
}

#[derive(Debug, Clone)]
/// A slot in an inventory window: an item id, a count and the item's
/// encoded component data. A slot without an id, or with a count of
/// zero or less, holds nothing.
pub struct Slot {
    /// Number of items in the stack.
    pub item_count: i32,
    /// Item registry id, `None` for an empty slot.
    pub item_id: Option<i32>,
    /// Encoded item components (enchantments, names, ...).
    pub component_data: Vec<u8>,
}

impl View for Slot {
    type V = SlotView;

    open spec fn view(&self) -> SlotView {
        SlotView { count: self.item_count as int, id: self.item_id, data: self.component_data@ }
    }
}

/// The empty slot.
pub open spec fn empty_view() -> SlotView {
    SlotView { count: 0, id: None, data: Seq::empty() }
}

/// A slot holds nothing when it has no id or a non-positive count.
pub open spec fn view_is_empty(s: SlotView) -> bool {
    s.count <= 0 || s.id is None
}

/// Number of items a slot actually holds.
pub open spec fn amount(s: SlotView) -> int {
    if view_is_empty(s) { 0 } else { s.count }
}

/// Two slots stack when both carry the same id and the same component data.
pub open spec fn view_can_stack(a: SlotView, b: SlotView) -> bool {
    &&& a.id is Some
    &&& b.id is Some
    &&& a.id == b.id
    &&& a.data == b.data
}

/// `s` with its count replaced by `count`; empty when `count <= 0`.
pub open spec fn view_with_count(s: SlotView, count: int) -> SlotView {
    if count <= 0 {
        empty_view()
    } else {
        SlotView { count, id: s.id, data: s.data }
    }
}

/// An empty slot is stored in its canonical form (count zero).
pub open spec fn is_normal(s: SlotView) -> bool {
    view_is_empty(s) ==> s.count == 0
}

/// Compares two byte strings.
pub fn bytes_equal(a: &Vec<u8>, b: &Vec<u8>) -> (r: bool)
    ensures
        r == (a@ == b@),
{
    if a.len() != b.len() {
        return false;
    }
    let mut i: usize = 0;
    while i < a.len()
        invariant
            a.len() == b.len(),
            i <= a.len(),
            forall|j: int| 0 <= j < i ==> a@[j] == b@[j],
        decreases a.len() - i,
    {
        if a[i] != b[i] {
            return false;
        }
        i = i + 1;
    }
    assert(a@ =~= b@);
    true
}

/// Copies a byte string.
pub fn copy_bytes(a: &Vec<u8>) -> (r: Vec<u8>)
    ensures
        r@ == a@,
{
    let mut r: Vec<u8> = Vec::new();
    let mut i: usize = 0;
    while i < a.len()
        invariant
            i <= a.len(),
            r@ =~= a@.subrange(0, i as int),
        decreases a.len() - i,
    {
        r.push(a[i]);
        i = i + 1;
    }
    r
}

impl Slot {
    /// The empty slot.
    pub fn empty() -> (s: Slot)
        ensures
            s@ == empty_view(),
    {
        Slot { item_count: 0, item_id: None, component_data: Vec::new() }
    }

    /// A stack of `count` items of `item_id` with no component data.
    pub fn new(item_id: i32, count: i32) -> (s: Slot)
        ensures
            s@ == (SlotView { count: count as int, id: Some(item_id), data: Seq::empty() }),
    {
        Slot { item_count: count, item_id: Some(item_id), component_data: Vec::new() }
    }

    /// Whether the slot holds nothing.
    pub fn is_empty(&self) -> (r: bool)
        ensures
            r == view_is_empty(self@),
    {
        self.item_count <= 0 || self.item_id.is_none()
    }

    /// An exact copy of the slot.
    pub fn copy(&self) -> (r: Slot)
        ensures
            r@ == self@,
    {
        Slot {
            item_count: self.item_count,
            item_id: self.item_id,
            component_data: copy_bytes(&self.component_data),
        }
    }
}

} // verus!
