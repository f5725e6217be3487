//! Container windows backed by block entities: single and double chest
//! views, routing window slots to the chest half that stores them, and
//! counting the players viewing a container.

use vstd::prelude::*;
use crate::slot::{Slot, empty_view};
use crate::inventory::{
    CraftingGrid, GRID_SLOTS, INVENTORY_SLOTS, empty_slots, first_empty, first_stack_target, insert_in_bounds, lemma_first_empty,
    lemma_first_stack_target, window_inventory_slots,
};
use crate::click_handler::views;
use crate::slot::{SlotView, MAX_STACK};

verus! {

/// A block position (x, y, z).
pub type BlockPos = (i32, i32, i32);

/// A part of a container backed by a block entity: window slots
/// `slot_offset..slot_offset + slot_count` live in the block at `position`.
#[derive(Debug, Clone, Copy)]
pub struct ContainerPart {
    /// Block position of this container part.
    pub position: BlockPos,
    /// First window slot index for this part.
    pub slot_offset: usize,
    /// Number of slots in this part.
    pub slot_count: usize,
}

/// An open container window: its size, the parts that store its slots,
/// its window inventory type and its title.
pub struct ContainerView {
    /// Total number of container slots (before player inventory).
    pub size: usize,
    /// The parts that compose this container.
    pub parts: Vec<ContainerPart>,
    /// Window inventory type (2 = 9x3, 5 = 9x6).
    pub inventory_type: i32,
    /// Window title.
    pub title: String,
}

/// The part holding window slot `ws`, searching parts from `k` on, with the
/// slot's index inside that part.
pub open spec fn find_part(parts: Seq<ContainerPart>, ws: int, k: int) -> Option<(BlockPos, usize)>
    decreases parts.len() - k,
{
    if k >= parts.len() {
        None
    } else if parts[k].slot_offset <= ws < parts[k].slot_offset + parts[k].slot_count {
        Some((parts[k].position, (ws - parts[k].slot_offset) as usize))
    } else {
        find_part(parts, ws, k + 1)
    }
}

/// Part bounds stay within `usize`.
pub open spec fn parts_in_bounds(parts: Seq<ContainerPart>) -> bool {
    forall|k: int| 0 <= k < parts.len() ==> (#[trigger] parts[k]).slot_offset + parts[k].slot_count <= usize::MAX
}

impl ContainerView {
    /// A single chest: 27 slots in one block, inventory type 9x3, "Chest".
    pub fn single_chest(pos: BlockPos) -> (r: ContainerView)
        ensures
            r.size == 27,
            r.parts@ == seq![ContainerPart { position: pos, slot_offset: 0, slot_count: 27 }],
            r.inventory_type == 2,
            r.title@ == "Chest"@,
    {
        let mut parts: Vec<ContainerPart> = Vec::new();
        parts.push(ContainerPart { position: pos, slot_offset: 0, slot_count: 27 });
        ContainerView { size: 27, parts, inventory_type: 2, title: "Chest".to_owned() }
    }

    /// A double chest: 54 slots, the left half first, inventory type 9x6,
    /// "Large Chest".
    pub fn double_chest(left: BlockPos, right: BlockPos) -> (r: ContainerView)
        ensures
            r.size == 54,
            r.parts@ == seq![
                ContainerPart { position: left, slot_offset: 0, slot_count: 27 },
                ContainerPart { position: right, slot_offset: 27, slot_count: 27 },
            ],
            r.inventory_type == 5,
            r.title@ == "Large Chest"@,
    {
        let mut parts: Vec<ContainerPart> = Vec::new();
        parts.push(ContainerPart { position: left, slot_offset: 0, slot_count: 27 });
        parts.push(ContainerPart { position: right, slot_offset: 27, slot_count: 27 });
        ContainerView { size: 54, parts, inventory_type: 5, title: "Large Chest".to_owned() }
    }

    /// The part that owns a window slot, with the slot's index in that part.
    pub fn slot_to_part(&self, window_slot: i16) -> (r: Option<(BlockPos, usize)>)
        requires
            parts_in_bounds(self.parts@),
        ensures
            r == find_part(self.parts@, (window_slot as usize) as int, 0),
    {
        let ws = window_slot as usize;
        let mut result: Option<(BlockPos, usize)> = None;
        let mut k: usize = 0;
        while k < self.parts.len() && result.is_none()
            invariant
                k <= self.parts@.len(),
                parts_in_bounds(self.parts@),
                ws == window_slot as usize,
                result is None ==> find_part(self.parts@, ws as int, k as int) == find_part(self.parts@, ws as int, 0),
                result is Some ==> result == find_part(self.parts@, ws as int, 0),
            decreases self.parts@.len() - k + (if result is None { 1int } else { 0int }),
        {
            let part = &self.parts[k];
            assert(part.slot_offset + part.slot_count <= usize::MAX);
            if ws >= part.slot_offset && ws < part.slot_offset + part.slot_count {
                result = Some((part.position, ws - part.slot_offset));
            } else {
                k = k + 1;
            }
        }
        result
    }
}

/// A single chest stores window slots 0..27 at the same index in its
/// block, and no other slot.
pub proof fn single_chest_routes_slots(pos: BlockPos, ws: int)
    ensures
        find_part(seq![ContainerPart { position: pos, slot_offset: 0, slot_count: 27 }], ws, 0) == if 0
            <= ws < 27 {
            Some((pos, ws as usize))
        } else {
            None
        },
{
    let parts = seq![ContainerPart { position: pos, slot_offset: 0, slot_count: 27 }];
    assert(find_part(parts, ws, 1) == None::<(BlockPos, usize)>);
}

/// A double chest stores window slots 0..27 in the left half and 27..54
/// in the right half, at the index within that half, and no other slot.
pub proof fn double_chest_routes_slots(left: BlockPos, right: BlockPos, ws: int)
    ensures
        find_part(
            seq![
                ContainerPart { position: left, slot_offset: 0, slot_count: 27 },
                ContainerPart { position: right, slot_offset: 27, slot_count: 27 },
            ],
            ws,
            0,
        ) == if 0 <= ws < 27 {
            Some((left, ws as usize))
        } else if 27 <= ws < 54 {
            Some((right, (ws - 27) as usize))
        } else {
            None
        },
{
    let parts = seq![
        ContainerPart { position: left, slot_offset: 0, slot_count: 27 },
        ContainerPart { position: right, slot_offset: 27, slot_count: 27 },
    ];
    assert(find_part(parts, ws, 2) == None::<(BlockPos, usize)>);
    assert(find_part(parts, ws, 1) == if 27 <= ws < 54 {
        Some((right, (ws - 27) as usize))
    } else {
        None
    });
}

/// What stores an open container's slots.
#[derive(Debug, Clone, Copy)]
pub enum ContainerBacking {
    /// A block entity at a position.
    Block { position: BlockPos },
    /// Slots held per player, not in the world.
    Virtual,
}

/// Whether a viewer's backing is the block at `target`.
pub open spec fn views_block(b: ContainerBacking, target: BlockPos) -> bool {
    b matches ContainerBacking::Block { position } && position == target
}

/// Number of the first `n` viewers looking at the block at `target`,
/// skipping entity `exclude` when given.
pub open spec fn viewer_count_spec(
    viewers: Seq<(u64, ContainerBacking)>,
    target: BlockPos,
    exclude: Option<u64>,
    n: int,
) -> int
    decreases n,
{
    if n <= 0 {
        0
    } else {
        viewer_count_spec(viewers, target, exclude, n - 1) + if views_block(viewers[n - 1].1, target)
            && exclude != Some(viewers[n - 1].0) {
            1int
        } else {
            0int
        }
    }
}

/// Viewer count of a container for chest-lid animations.
pub open spec fn container_viewers(viewers: Seq<(u64, ContainerBacking)>, backing: ContainerBacking, exclude: Option<u64>) -> int {
    match backing {
        ContainerBacking::Block { position } => viewer_count_spec(viewers, position, exclude, viewers.len() as int),
        ContainerBacking::Virtual => 0,
    }
}

proof fn lemma_viewer_count_bound(viewers: Seq<(u64, ContainerBacking)>, target: BlockPos, exclude: Option<u64>, n: int)
    requires
        0 <= n,
    ensures
        0 <= viewer_count_spec(viewers, target, exclude, n) <= n,
    decreases n,
{
    if n > 0 {
        lemma_viewer_count_bound(viewers, target, exclude, n - 1);
    }
}

fn count_viewers(viewers: &[(u64, ContainerBacking)], target: BlockPos, exclude: Option<u64>) -> (r: u32)
    requires
        viewers@.len() <= u32::MAX,
    ensures
        r == viewer_count_spec(viewers@, target, exclude, viewers@.len() as int),
{
    let mut count: u32 = 0;
    let mut i: usize = 0;
    while i < viewers.len()
        invariant
            i <= viewers@.len(),
            viewers@.len() <= u32::MAX,
            count == viewer_count_spec(viewers@, target, exclude, i as int),
        decreases viewers@.len() - i,
    {
        proof {
            lemma_viewer_count_bound(viewers@, target, exclude, i as int);
        }
        let (eid, backing) = viewers[i];
        let same = match backing {
            ContainerBacking::Block { position } => position.0 == target.0 && position.1 == target.1 && position.2 == target.2,
            ContainerBacking::Virtual => false,
        };
        let skip = match exclude {
            Some(x) => x == eid,
            None => false,
        };
        if same && !skip {
            count = count + 1;
        }
        i = i + 1;
    }
    count
}

/// Counts the players whose open container is the block backing `backing`;
/// 0 for virtual containers (no co-viewing). `viewers` lists each player
/// with an open container as (entity, backing).
pub fn container_viewer_count(viewers: &[(u64, ContainerBacking)], backing: &ContainerBacking) -> (r: u32)
    requires
        viewers@.len() <= u32::MAX,
    ensures
        r == container_viewers(viewers@, *backing, None),
{
    match backing {
        ContainerBacking::Block { position } => count_viewers(viewers, *position, None),
        ContainerBacking::Virtual => 0,
    }
}

/// Counts viewers like [`container_viewer_count`] but without entity
/// `exclude`: the viewers that remain after it closes the window.
pub fn container_viewer_count_excluding(
    viewers: &[(u64, ContainerBacking)],
    backing: &ContainerBacking,
    exclude: u64,
) -> (r: u32)
    requires
        viewers@.len() <= u32::MAX,
    ensures
        r == container_viewers(viewers@, *backing, Some(exclude)),
{
    match backing {
        ContainerBacking::Block { position } => count_viewers(viewers, *position, Some(exclude)),
        ContainerBacking::Virtual => 0,
    }
}

/// Number of the first `n` entries of entity `e` looking at `target`.
pub open spec fn entity_views(viewers: Seq<(u64, ContainerBacking)>, target: BlockPos, e: u64, n: int) -> int
    decreases n,
{
    if n <= 0 {
        0
    } else {
        entity_views(viewers, target, e, n - 1) + if views_block(viewers[n - 1].1, target)
            && viewers[n - 1].0 == e {
            1int
        } else {
            0int
        }
    }
}

proof fn lemma_excluding(viewers: Seq<(u64, ContainerBacking)>, target: BlockPos, e: u64, n: int)
    ensures
        viewer_count_spec(viewers, target, None, n) == viewer_count_spec(viewers, target, Some(e), n)
            + entity_views(viewers, target, e, n),
    decreases n,
{
    if n > 0 {
        lemma_excluding(viewers, target, e, n - 1);
    }
}

/// The remaining-viewer count is the full count less the closing player's
/// own view of that container.
pub proof fn remaining_viewers_exclude_closer(viewers: Seq<(u64, ContainerBacking)>, position: BlockPos, e: u64)
    ensures
        container_viewers(viewers, ContainerBacking::Block { position }, None) == container_viewers(
            viewers,
            ContainerBacking::Block { position },
            Some(e),
        ) + entity_views(viewers, position, e, viewers.len() as int),
{
    lemma_excluding(viewers, position, e, viewers.len() as int);
}

proof fn lemma_viewer_count_prefix(
    viewers: Seq<(u64, ContainerBacking)>,
    extra: (u64, ContainerBacking),
    target: BlockPos,
    exclude: Option<u64>,
    n: int,
)
    requires
        n <= viewers.len(),
    ensures
        viewer_count_spec(viewers.push(extra), target, exclude, n) == viewer_count_spec(viewers, target, exclude, n),
    decreases n,
{
    if n > 0 {
        lemma_viewer_count_prefix(viewers, extra, target, exclude, n - 1);
        assert(viewers.push(extra)[n - 1] == viewers[n - 1]);
    }
}

/// One more player with an open container changes the viewer count of the
/// block at `position` only when that player's container is the block at
/// exactly `position` (all three coordinates): then the count grows by
/// one, unless the player is the one left out; a player at any other
/// block, or with a container not in the world, leaves it unchanged.
pub proof fn viewer_counts_only_the_same_block(
    viewers: Seq<(u64, ContainerBacking)>,
    position: BlockPos,
    exclude: Option<u64>,
    e: u64,
    backing: ContainerBacking,
)
    ensures
        ({
            let target = ContainerBacking::Block { position };
            let before = container_viewers(viewers, target, exclude);
            let after = container_viewers(viewers.push((e, backing)), target, exclude);
            &&& (backing matches ContainerBacking::Block { position: p } && p.0 == position.0 && p.1
                == position.1 && p.2 == position.2 && exclude != Some(e)) ==> after == before + 1
            &&& !(backing matches ContainerBacking::Block { position: p } && p.0 == position.0 && p.1
                == position.1 && p.2 == position.2) ==> after == before
            &&& exclude == Some(e) ==> after == before
        }),
{
    lemma_viewer_count_prefix(viewers, (e, backing), position, exclude, viewers.len() as int);
    let w = viewers.push((e, backing));
    assert(w[viewers.len() as int] == (e, backing));
    assert(w.len() == viewers.len() + 1);
}

/// The window inventory type of a chest window of `size` slots: 9x3 for a
/// single chest, 9x6 otherwise.
pub fn chest_inventory_type(size: usize) -> (r: i32)
    ensures
        r == (if size == 27 { 2i32 } else { 5i32 }),
{
    if size == 27 {
        2
    } else {
        5
    }
}

/// The first `count` slots of a chest block entity, or all of them when
/// it holds fewer.
pub fn part_slots(chest: &Vec<Slot>, count: usize) -> (r: Vec<Slot>)
    ensures
        r@.len() == (if count < chest@.len() { count as int } else { chest@.len() as int }),
        forall|i: int| 0 <= i < r@.len() ==> (#[trigger] r@[i])@ == chest@[i]@,
{
    let n: usize = if count < chest.len() { count } else { chest.len() };
    let mut out: Vec<Slot> = Vec::new();
    let mut i: usize = 0;
    while i < n
        invariant
            n <= chest@.len(),
            i <= n,
            out@.len() == i,
            forall|j: int| 0 <= j < i ==> (#[trigger] out@[j])@ == chest@[j]@,
        decreases n - i,
    {
        out.push(chest[i].copy());
        i = i + 1;
    }
    out
}

/// A container's initial slots fitted to its size: cut off past `size`,
/// padded with empty slots up to it.
pub fn fit_slots(initial: Vec<Slot>, size: usize) -> (r: Vec<Slot>)
    ensures
        r@.len() == size,
        forall|i: int| 0 <= i < size ==> (#[trigger] r@[i])@ == (if i < initial@.len() {
            initial@[i]@
        } else {
            empty_view()
        }),
{
    let mut out: Vec<Slot> = Vec::new();
    let mut i: usize = 0;
    while i < size
        invariant
            i <= size,
            out@.len() == i,
            forall|j: int| 0 <= j < i ==> (#[trigger] out@[j])@ == (if j < initial@.len() {
                initial@[j]@
            } else {
                empty_view()
            }),
        decreases size - i,
    {
        if i < initial.len() {
            out.push(initial[i].copy());
        } else {
            out.push(Slot::empty());
        }
        i = i + 1;
    }
    out
}

/// The full contents of a container window: the container's slots, then
/// the main inventory, then the hotbar.
pub fn container_window_items(container: &Vec<Slot>, inventory: &Vec<Slot>) -> (r: Vec<Slot>)
    requires
        inventory@.len() >= INVENTORY_SLOTS,
    ensures
        r@.len() == container@.len() + INVENTORY_SLOTS,
        forall|i: int| 0 <= i < container@.len() ==> (#[trigger] r@[i])@ == container@[i]@,
        forall|i: int|
            0 <= i < 27 ==> (#[trigger] r@[container@.len() + i])@ == inventory@[i + 9]@,
        forall|i: int|
            27 <= i < 36 ==> (#[trigger] r@[container@.len() + i])@ == inventory@[i - 27]@,
{
    let mut out: Vec<Slot> = Vec::new();
    let mut i: usize = 0;
    while i < container.len()
        invariant
            i <= container@.len(),
            out@.len() == i,
            forall|j: int| 0 <= j < i ==> (#[trigger] out@[j])@ == container@[j]@,
        decreases container@.len() - i,
    {
        out.push(container[i].copy());
        i = i + 1;
    }
    let inv = window_inventory_slots(inventory);
    let mut k: usize = 0;
    while k < inv.len()
        invariant
            k <= inv@.len(),
            inv@.len() == INVENTORY_SLOTS,
            out@.len() == container@.len() + k,
            forall|j: int| 0 <= j < container@.len() ==> (#[trigger] out@[j])@ == container@[j]@,
            forall|j: int| 0 <= j < k ==> (#[trigger] out@[container@.len() + j])@ == inv@[j]@,
        decreases inv@.len() - k,
    {
        out.push(inv[k].copy());
        k = k + 1;
    }
    out
}

/// The container slots after inserting `count` items of `id`: onto the
/// first stack with room for all of them, which becomes a plain stack, else
/// into the first empty slot; `None` when neither exists.
pub open spec fn container_insert_spec(s: Seq<SlotView>, id: i32, count: int) -> Option<Seq<SlotView>> {
    match first_stack_target(s, id, count, 0, s.len() as int) {
        Some(i) => Some(s.update(i, SlotView { count: s[i].count + count, id: Some(id), data: Seq::empty() })),
        None => match first_empty(s, 0, s.len() as int) {
            Some(i) => Some(s.update(i, SlotView { count, id: Some(id), data: Seq::empty() })),
            None => None,
        },
    }
}

/// Shift-click into an open chest: inserts `count` items of `item_id`
/// into the container's slots (all parts, in window order), first onto a
/// stack with room for all of them, else into the first empty slot.
/// Returns whether the items were placed.
pub fn insert_into_container(slots: &mut Vec<Slot>, item_id: i32, count: i32) -> (r: bool)
    requires
        insert_in_bounds(views(old(slots)@), item_id, count as int, 0, old(slots)@.len() as int),
    ensures
        final(slots)@.len() == old(slots)@.len(),
        match container_insert_spec(views(old(slots)@), item_id, count as int) {
            Some(s) => r && views(final(slots)@) == s,
            None => !r && views(final(slots)@) == views(old(slots)@),
        },
{
    let ghost s0 = views(slots@);
    let end = slots.len();
    assert(s0.len() == end);
    let mut i: usize = 0;
    let mut target: Option<usize> = None;
    while i < end && target.is_none()
        invariant
            i <= end == slots@.len(),
            s0 == views(slots@),
            s0.len() == end,
            insert_in_bounds(s0, item_id, count as int, 0, end as int),
            target is None ==> first_stack_target(s0, item_id, count as int, i as int, end as int)
                == first_stack_target(s0, item_id, count as int, 0, end as int),
            target matches Some(t) ==> t < end && first_stack_target(s0, item_id, count as int, 0, end as int)
                == Some(t as int),
        decreases end - i + (if target is None { 1int } else { 0int }),
    {
        let s = &slots[i];
        assert(s0[i as int] == s@);
        if s.item_id == Some(item_id) && s.item_count < MAX_STACK && MAX_STACK - s.item_count >= count {
            target = Some(i);
        } else {
            i = i + 1;
        }
    }
    if let Some(t) = target {
        proof {
            lemma_first_stack_target(s0, item_id, count as int, 0, end as int);
        }
        assert(s0[t as int] == slots@[t as int]@);
        assert(s0[t as int].id == Some(item_id) && s0[t as int].count < MAX_STACK);
        let n = slots[t].item_count + count;
        slots.set(t, Slot::new(item_id, n));
        assert(views(slots@) =~= s0.update(t as int, SlotView { count: s0[t as int].count + count, id: Some(item_id), data: Seq::empty() }));
        return true;
    }
    let mut i: usize = 0;
    while i < end && target.is_none()
        invariant
            i <= end == slots@.len(),
            s0 == views(slots@),
            s0.len() == end,
            first_stack_target(s0, item_id, count as int, 0, end as int) is None,
            target is None ==> first_empty(s0, i as int, end as int) == first_empty(s0, 0, end as int),
            target matches Some(t) ==> t < end && first_empty(s0, 0, end as int) == Some(t as int),
        decreases end - i + (if target is None { 1int } else { 0int }),
    {
        let s = &slots[i];
        assert(s0[i as int] == s@);
        if s.is_empty() {
            target = Some(i);
        } else {
            i = i + 1;
        }
    }
    match target {
        Some(t) => {
            slots.set(t, Slot::new(item_id, count));
            assert(views(slots@) =~= s0.update(t as int, SlotView { count: count as int, id: Some(item_id), data: Seq::empty() }));
            true
        },
        None => false,
    }
}

/// A block next to a chest, as the world shows it.
#[derive(Debug, Clone, Copy)]
pub struct ChestNeighbor {
    /// Block position.
    pub position: BlockPos,
    /// Whether the block is a chest.
    pub is_chest: bool,
    /// The chest's facing.
    pub facing: u8,
    /// The chest's type: 0 single, 1 and 2 the two halves of a double chest.
    pub chest_type: u8,
}

/// The first of the first `n` neighbours that is the other half of a
/// double chest of type `chest_type` facing `facing`.
pub open spec fn chest_partner(neighbors: Seq<ChestNeighbor>, facing: u8, chest_type: u8, n: int) -> Option<BlockPos>
    decreases n,
{
    if n <= 0 {
        None
    } else {
        match chest_partner(neighbors, facing, chest_type, n - 1) {
            Some(p) => Some(p),
            None => {
                let nb = neighbors[n - 1];
                if nb.is_chest && nb.facing == facing && nb.chest_type != 0 && nb.chest_type != chest_type {
                    Some(nb.position)
                } else {
                    None
                }
            },
        }
    }
}

/// The window of the chest at `pos`: a single chest unless it is half of
/// a double chest whose other half faces the same way among its
/// neighbours (searched in order); the type-1 half is the left one.
pub fn chest_view(pos: BlockPos, chest_type: u8, facing: u8, neighbors: &Vec<ChestNeighbor>) -> (r: ContainerView)
    ensures
        chest_type == 0 || chest_partner(neighbors@, facing, chest_type, neighbors@.len() as int) is None
            ==> r.size == 27 && r.parts@ == seq![ContainerPart { position: pos, slot_offset: 0, slot_count: 27 }]
            && r.inventory_type == 2 && r.title@ == "Chest"@,
        chest_type != 0 ==> (chest_partner(neighbors@, facing, chest_type, neighbors@.len() as int) matches Some(
            other,
        ) ==> {
            let (left, right) = if chest_type == 1 { (pos, other) } else { (other, pos) };
            &&& r.size == 54
            &&& r.inventory_type == 5
            &&& r.title@ == "Large Chest"@
            &&& r.parts@ == seq![
                ContainerPart { position: left, slot_offset: 0, slot_count: 27 },
                ContainerPart { position: right, slot_offset: 27, slot_count: 27 },
            ]
        }),
{
    if chest_type == 0 {
        return ContainerView::single_chest(pos);
    }
    let mut other: Option<BlockPos> = None;
    let mut i: usize = 0;
    while i < neighbors.len() && other.is_none()
        invariant
            i <= neighbors@.len(),
            other is None ==> chest_partner(neighbors@, facing, chest_type, i as int) is None,
            other is Some ==> chest_partner(neighbors@, facing, chest_type, i as int) == other,
        decreases neighbors@.len() - i + (if other is None { 1int } else { 0int }),
    {
        let nb = neighbors[i];
        if nb.is_chest && nb.facing == facing && nb.chest_type != 0 && nb.chest_type != chest_type {
            other = Some(nb.position);
        }
        i = i + 1;
    }
    proof {
        lemma_chest_partner_stays(neighbors@, facing, chest_type, i as int, neighbors@.len() as int);
    }
    match other {
        Some(p) => if chest_type == 1 {
            ContainerView::double_chest(pos, p)
        } else {
            ContainerView::double_chest(p, pos)
        },
        None => ContainerView::single_chest(pos),
    }
}

proof fn lemma_chest_partner_stays(neighbors: Seq<ChestNeighbor>, facing: u8, chest_type: u8, i: int, n: int)
    requires
        0 <= i <= n,
    ensures
        chest_partner(neighbors, facing, chest_type, i) is Some ==> chest_partner(neighbors, facing, chest_type, n)
            == chest_partner(neighbors, facing, chest_type, i),
    decreases n - i,
{
    if i < n {
        lemma_chest_partner_stays(neighbors, facing, chest_type, i, n - 1);
    }
}

/// Opening a crafting table: the grid becomes an empty 3x3 grid, and the
/// window shows the empty output, the nine empty grid slots, then the main
/// inventory and the hotbar.
pub fn open_crafting_table(grid: &mut CraftingGrid, inventory: &Vec<Slot>) -> (r: Vec<Slot>)
    requires
        inventory@.len() >= INVENTORY_SLOTS,
    ensures
        final(grid).grid_size == 3,
        final(grid).slots@.len() == GRID_SLOTS,
        forall|i: int| 0 <= i < GRID_SLOTS ==> (#[trigger] final(grid).slots@[i])@ == empty_view(),
        final(grid).output@ == empty_view(),
        r@.len() == 46,
        forall|i: int| 0 <= i < 10 ==> (#[trigger] r@[i])@ == empty_view(),
        forall|i: int| 0 <= i < 27 ==> (#[trigger] r@[10 + i])@ == inventory@[i + 9]@,
        forall|i: int| 27 <= i < 36 ==> (#[trigger] r@[10 + i])@ == inventory@[i - 27]@,
{
    grid.grid_size = 3;
    grid.clear();
    let head = empty_slots(10);
    let r = container_window_items(&head, inventory);
    assert forall|i: int| 0 <= i < 10 implies (#[trigger] r@[i])@ == empty_view() by {
        assert(r@[i]@ == head@[i]@);
    }
    r
}

} // verus!
