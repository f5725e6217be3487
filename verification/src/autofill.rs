//! Applying a recipe-book auto-fill once it has been approved: the
//! ingredients leave the inventory, whatever sat in the grid goes back to
//! the inventory (or overflows into the world) and the recipe's pattern is
//! laid into the grid.

use vstd::prelude::*;
use crate::slot::{Slot, SlotView, MAX_STACK, amount, empty_view, is_normal};
use crate::click_handler::{amount_prefix, total_amount, views};
use crate::recipe::{
    drain_all, drain_entries_valid, drain_sum, drain_takes_exactly_requirements,
    drain_touches_each_slot_once, ids_distinct, required_sum, slots_distinct,
};
use crate::inventory::{
    CraftingGrid, GRID_SLOTS, INVENTORY_SLOTS, Inventory, insert_adds_exactly_count, insert_in_bounds, insert_spec,
    try_insert_into_range, lemma_amount_prefix_update, lemma_first_empty, lemma_first_stack_target,
};

verus! {

/// Every slot count lies between zero and a full stack.
pub open spec fn counts_valid(s: Seq<SlotView>) -> bool {
    forall|i: int| 0 <= i < s.len() ==> 0 <= (#[trigger] s[i]).count <= MAX_STACK
}

/// `s` after the first `n` decrements of drain `d`: a slot that reaches
/// zero or less becomes empty.
pub open spec fn drained(s: Seq<SlotView>, d: Seq<(usize, i32)>, n: int) -> Seq<SlotView>
    decreases n,
{
    if n <= 0 {
        s
    } else {
        let t = drained(s, d, n - 1);
        let k = d[n - 1].0 as int;
        let left = t[k].count - d[n - 1].1;
        t.update(k, if left <= 0 { empty_view() } else { SlotView { count: left, ..t[k] } })
    }
}

/// The slots among the first `n` of the grid that hold an item, in order.
pub open spec fn grid_returns(g: Seq<SlotView>, n: int) -> Seq<SlotView>
    decreases n,
{
    if n <= 0 {
        Seq::empty()
    } else if g[n - 1].id is Some {
        grid_returns(g, n - 1).push(g[n - 1])
    } else {
        grid_returns(g, n - 1)
    }
}

/// Inserting the first `n` returned stacks into the inventory one by one;
/// gives the inventory and the stacks that did not fit.
pub open spec fn reinserted(s: Seq<SlotView>, rs: Seq<SlotView>, n: int) -> (Seq<SlotView>, Seq<SlotView>)
    decreases n,
{
    if n <= 0 {
        (s, Seq::empty())
    } else {
        let (t, o) = reinserted(s, rs, n - 1);
        let r = rs[n - 1];
        match insert_spec(t, r.id->0, r.count, 0, INVENTORY_SLOTS as int) {
            Some(t2) => (t2, o),
            None => (t, o.push(r)),
        }
    }
}

/// The grid with its first `cap` slots emptied and the first `n`
/// placements of `plan` laid in, one item each.
pub open spec fn placed(g: Seq<SlotView>, cap: int, plan: Seq<(usize, i32)>, n: int) -> Seq<SlotView>
    decreases n,
{
    if n <= 0 {
        Seq::new(g.len(), |i: int| if i < cap { empty_view() } else { g[i] })
    } else {
        placed(g, cap, plan, n - 1).update(
            plan[n - 1].0 as int,
            SlotView { count: 1, id: Some(plan[n - 1].1), data: Seq::empty() },
        )
    }
}

proof fn lemma_insert_keeps_counts_valid(s: Seq<SlotView>, id: i32, count: int)
    requires
        s.len() == INVENTORY_SLOTS,
        counts_valid(s),
        0 <= count <= MAX_STACK,
    ensures
        insert_spec(s, id, count, 0, INVENTORY_SLOTS as int) matches Some(t) ==> t.len() == s.len() && counts_valid(t),
{
    lemma_first_stack_target(s, id, count, 0, INVENTORY_SLOTS as int);
    lemma_first_empty(s, 0, INVENTORY_SLOTS as int);
}

/// Each decrement of drain `d`, applied in order to `s`, stays within
/// `i32`.
pub open spec fn drain_fits(s: Seq<SlotView>, d: Seq<(usize, i32)>) -> bool {
    forall|e: int|
        0 <= e < d.len() ==> i32::MIN <= drained(s, d, e)[(#[trigger] d[e]).0 as int].count - d[e].1 <= i32::MAX
}

/// Putting each returned stack back, in order, stays within `i32`.
pub open spec fn reinsert_fits(s: Seq<SlotView>, rs: Seq<SlotView>) -> bool {
    forall|j: int|
        0 <= j < rs.len() ==> insert_in_bounds(
            reinserted(s, rs, j).0,
            (#[trigger] rs[j]).id->0,
            rs[j].count,
            0,
            INVENTORY_SLOTS as int,
        )
}

/// Applies an approved auto-fill.
///
/// `drain` lists (inventory slot, count) decrements; `plan` lists
/// (grid slot, item id) placements. The grid's active slots are emptied
/// and every stack that held an item is returned to the inventory after
/// the drain, in grid order; the stacks that find no room are returned to
/// be dropped in the world. Then each placement puts one item into its
/// grid slot.
pub fn apply_recipe_fill(
    inv: &mut Inventory,
    grid: &mut CraftingGrid,
    plan: &[(usize, i32)],
    drain: &[(usize, i32)],
) -> (overflow: Vec<Slot>)
    requires
        old(inv).slots@.len() == INVENTORY_SLOTS,
        old(grid).slots@.len() == GRID_SLOTS,
        old(grid).grid_size <= 3,
        forall|e: int| 0 <= e < drain@.len() ==> (#[trigger] drain@[e]).0 < INVENTORY_SLOTS,
        forall|e: int| 0 <= e < plan@.len() ==> (#[trigger] plan@[e]).0 < GRID_SLOTS,
        drain_fits(views(old(inv).slots@), drain@),
        reinsert_fits(
            drained(views(old(inv).slots@), drain@, drain@.len() as int),
            grid_returns(views(old(grid).slots@), old(grid).grid_size as int * old(grid).grid_size as int),
        ),
    ensures
        ({
            let cap = old(grid).grid_size as int * old(grid).grid_size as int;
            let gathered = grid_returns(views(old(grid).slots@), cap);
            let after = reinserted(
                drained(views(old(inv).slots@), drain@, drain@.len() as int),
                gathered,
                gathered.len() as int,
            );
            &&& views(final(inv).slots@) == after.0
            &&& views(overflow@) == after.1
            &&& views(final(grid).slots@) == placed(views(old(grid).slots@), cap, plan@, plan@.len() as int)
        }),
        final(inv).cursor == old(inv).cursor,
        final(inv).held_slot == old(inv).held_slot,
        final(grid).grid_size == old(grid).grid_size,
        final(grid).output == old(grid).output,
{
    let ghost g0 = views(grid.slots@);
    let ghost s0 = views(inv.slots@);
    let gs: usize = grid.grid_size as usize;
    assert(gs * gs <= 9) by (nonlinear_arith)
        requires
            gs <= 3,
    ;
    let cap: usize = gs * gs;
    // Snapshot the stacks to return.
    let mut gathered: Vec<Slot> = Vec::new();
    let mut i: usize = 0;
    while i < cap
        invariant
            cap == grid.grid_size as int * grid.grid_size as int,
            cap <= GRID_SLOTS,
            i <= cap,
            g0 == views(grid.slots@),
            grid.slots@.len() == GRID_SLOTS,
            views(gathered@) == grid_returns(g0, i as int),
            forall|t: int| 0 <= t < gathered@.len() ==> (#[trigger] gathered@[t]).item_id is Some,
        decreases cap - i,
    {
        let s = &grid.slots[i];
        assert(g0[i as int] == s@);
        if s.item_id.is_some() {
            let c = s.copy();
            gathered.push(c);
            assert(views(gathered@) =~= grid_returns(g0, i as int).push(g0[i as int]));
        }
        i = i + 1;
    }
    // Take the ingredients.
    let mut e: usize = 0;
    while e < drain.len()
        invariant
            e <= drain@.len(),
            inv.slots@.len() == INVENTORY_SLOTS,
            views(inv.slots@) == drained(s0, drain@, e as int),
            s0.len() == INVENTORY_SLOTS,
            forall|t: int| 0 <= t < drain@.len() ==> (#[trigger] drain@[t]).0 < INVENTORY_SLOTS,
            drain_fits(s0, drain@),
            inv.cursor == old(inv).cursor,
            inv.held_slot == old(inv).held_slot,
        decreases drain@.len() - e,
    {
        let (k, dec) = drain[e];
        let ghost t = views(inv.slots@);
        assert(t[k as int] == inv.slots@[k as int]@);
        assert(drain@[e as int].0 == k);
        let cur = &inv.slots[k];
        let left: i32 = cur.item_count - dec;
        let updated = if left <= 0 {
            Slot::empty()
        } else {
            Slot { item_count: left, item_id: cur.item_id, component_data: crate::slot::copy_bytes(&cur.component_data) }
        };
        inv.slots.set(k, updated);
        proof {
            assert(views(inv.slots@) =~= drained(s0, drain@, e as int + 1));
        }
        e = e + 1;
    }
    // Return the grid's stacks.
    let ghost base = views(inv.slots@);
    assert(views(gathered@) == grid_returns(g0, cap as int));
    let mut overflow: Vec<Slot> = Vec::new();
    let mut j: usize = 0;
    while j < gathered.len()
        invariant
            j <= gathered@.len(),
            inv.slots@.len() == INVENTORY_SLOTS,
            forall|t: int| 0 <= t < gathered@.len() ==> (#[trigger] gathered@[t]).item_id is Some,
            reinsert_fits(base, views(gathered@)),
            (views(inv.slots@), views(overflow@)) == reinserted(base, views(gathered@), j as int),
            inv.cursor == old(inv).cursor,
            inv.held_slot == old(inv).held_slot,
        decreases gathered@.len() - j,
    {
        let r = &gathered[j];
        assert(views(gathered@)[j as int] == r@);
        let id = match r.item_id {
            Some(id) => id,
            None => 0,
        };
        assert(views(gathered@)[j as int].id->0 == id);
        let ok = try_insert_into_range(&mut inv.slots, id, r.item_count, 0, INVENTORY_SLOTS);
        if !ok {
            overflow.push(r.copy());
            assert(views(overflow@) =~= reinserted(base, views(gathered@), j as int).1.push(r@));
        }
        j = j + 1;
    }
    proof {
        assert(views(gathered@) == grid_returns(g0, cap as int));
    }
    // Lay the pattern in.
    let mut i: usize = 0;
    while i < cap
        invariant
            cap <= GRID_SLOTS,
            i <= cap,
            grid.slots@.len() == GRID_SLOTS,
            g0.len() == GRID_SLOTS,
            views(grid.slots@) == Seq::new(
                GRID_SLOTS as nat,
                |t: int| if t < i { empty_view() } else { g0[t] },
            ),
            grid.grid_size == old(grid).grid_size,
            grid.output == old(grid).output,
        decreases cap - i,
    {
        let ghost prev = views(grid.slots@);
        grid.slots.set(i, Slot::empty());
        proof {
            assert(views(grid.slots@) =~= prev.update(i as int, empty_view()));
            assert(views(grid.slots@) =~= Seq::new(
                GRID_SLOTS as nat,
                |t: int| if t < i + 1 { empty_view() } else { g0[t] },
            ));
        }
        i = i + 1;
    }
    proof {
        assert(views(grid.slots@) =~= placed(g0, cap as int, plan@, 0));
    }
    let mut p: usize = 0;
    while p < plan.len()
        invariant
            p <= plan@.len(),
            grid.slots@.len() == GRID_SLOTS,
            forall|t: int| 0 <= t < plan@.len() ==> (#[trigger] plan@[t]).0 < GRID_SLOTS,
            views(grid.slots@) == placed(g0, cap as int, plan@, p as int),
            grid.grid_size == old(grid).grid_size,
            grid.output == old(grid).output,
        decreases plan@.len() - p,
    {
        let (idx, item) = plan[p];
        grid.slots.set(idx, Slot::new(item, 1));
        proof {
            assert(views(grid.slots@) =~= placed(g0, cap as int, plan@, p as int + 1));
        }
        p = p + 1;
    }
    overflow
}

/// Every slot is stored canonically.
pub open spec fn all_normal(s: Seq<SlotView>) -> bool {
    forall|i: int| 0 <= i < s.len() ==> is_normal(#[trigger] s[i])
}

/// Every stack holds an item and between one and a full stack of it.
pub open spec fn real_stacks(rs: Seq<SlotView>) -> bool {
    forall|i: int| 0 <= i < rs.len() ==> (#[trigger] rs[i]).id is Some && 1 <= rs[i].count <= MAX_STACK
}

proof fn lemma_amount_prefix_push(o: Seq<SlotView>, r: SlotView, n: int)
    requires
        0 <= n <= o.len(),
    ensures
        amount_prefix(o.push(r), n) == amount_prefix(o, n),
    decreases n,
{
    if n > 0 {
        lemma_amount_prefix_push(o, r, n - 1);
    }
}

proof fn lemma_insert_keeps_normal(s: Seq<SlotView>, id: i32, count: int)
    requires
        s.len() == INVENTORY_SLOTS,
        all_normal(s),
        count >= 1,
    ensures
        insert_spec(s, id, count, 0, INVENTORY_SLOTS as int) matches Some(t) ==> all_normal(t),
{
    lemma_first_stack_target(s, id, count, 0, INVENTORY_SLOTS as int);
    lemma_first_empty(s, 0, INVENTORY_SLOTS as int);
}

proof fn lemma_reinserted(s: Seq<SlotView>, rs: Seq<SlotView>, n: int)
    requires
        s.len() == INVENTORY_SLOTS,
        counts_valid(s),
        all_normal(s),
        real_stacks(rs),
        0 <= n <= rs.len(),
    ensures
        reinserted(s, rs, n).0.len() == INVENTORY_SLOTS,
        counts_valid(reinserted(s, rs, n).0),
        all_normal(reinserted(s, rs, n).0),
        total_amount(reinserted(s, rs, n).0) + total_amount(reinserted(s, rs, n).1) == total_amount(s)
            + amount_prefix(rs, n),
    decreases n,
{
    if n > 0 {
        lemma_reinserted(s, rs, n - 1);
        let (t, o) = reinserted(s, rs, n - 1);
        let r = rs[n - 1];
        let id = r.id->0;
        lemma_insert_keeps_counts_valid(t, id, r.count);
        lemma_insert_keeps_normal(t, id, r.count);
        insert_adds_exactly_count(t, id, r.count, 0, INVENTORY_SLOTS as int);
        assert(amount(r) == r.count);
        match insert_spec(t, id, r.count, 0, INVENTORY_SLOTS as int) {
            Some(t2) => {},
            None => {
                lemma_amount_prefix_push(o, r, o.len() as int);
                assert(amount_prefix(o.push(r), o.len() as int + 1) == amount_prefix(o.push(r), o.len() as int) + amount(
                    o.push(r)[o.len() as int],
                ));
            },
        }
    }
}

/// Nothing taken out of the grid is lost: after the stacks are put back,
/// the items in the inventory plus those left over to drop in the world
/// are the items the inventory held plus those of the stacks.
pub proof fn returned_stacks_are_kept(s: Seq<SlotView>, rs: Seq<SlotView>)
    requires
        s.len() == INVENTORY_SLOTS,
        counts_valid(s),
        all_normal(s),
        real_stacks(rs),
    ensures
        total_amount(reinserted(s, rs, rs.len() as int).0) + total_amount(reinserted(s, rs, rs.len() as int).1)
            == total_amount(s) + total_amount(rs),
{
    lemma_reinserted(s, rs, rs.len() as int);
}

proof fn lemma_drained_untouched(s: Seq<SlotView>, d: Seq<(usize, i32)>, n: int, k: int)
    requires
        0 <= n <= d.len(),
        0 <= k < s.len(),
        forall|e: int| 0 <= e < d.len() ==> ((#[trigger] d[e]).0 as int) < s.len(),
        forall|e: int| 0 <= e < n ==> (#[trigger] d[e]).0 as int != k,
    ensures
        drained(s, d, n).len() == s.len(),
        drained(s, d, n)[k] == s[k],
    decreases n,
{
    if n > 0 {
        lemma_drained_untouched(s, d, n - 1, k);
        assert(d[n - 1].0 as int != k);
    }
}

proof fn lemma_drained_total(s: Seq<SlotView>, d: Seq<(usize, i32)>, n: int)
    requires
        0 <= n <= d.len(),
        slots_distinct(d),
        forall|e: int|
            0 <= e < d.len() ==> {
                let (k, t) = #[trigger] d[e];
                &&& (k as int) < s.len()
                &&& 0 < t <= s[k as int].count
                &&& s[k as int].id is Some
            },
    ensures
        drained(s, d, n).len() == s.len(),
        total_amount(drained(s, d, n)) == total_amount(s) - drain_sum(d.take(n)),
    decreases n,
{
    if n == 0 {
        assert(d.take(0) =~= Seq::<(usize, i32)>::empty());
    } else {
        lemma_drained_total(s, d, n - 1);
        let t = drained(s, d, n - 1);
        let k = d[n - 1].0 as int;
        let dec = d[n - 1].1;
        assert forall|e: int| 0 <= e < n - 1 implies (#[trigger] d[e]).0 as int != k by {
            assert(d[e].0 != d[n - 1].0);
        }
        lemma_drained_untouched(s, d, n - 1, k);
        let left = t[k].count - dec;
        let x = if left <= 0 { empty_view() } else { SlotView { count: left, ..t[k] } };
        lemma_amount_prefix_update(t, k, x, t.len() as int);
        assert(d.take(n).drop_last() =~= d.take(n - 1));
        assert(d.take(n).last() == d[n - 1]);
    }
}

/// An approved fill takes exactly the required ingredients out of the
/// inventory: when the requirements name each item once and a drain is
/// found, draining it lowers the inventory's item count by the sum of the
/// required counts.
pub proof fn fill_takes_exactly_the_ingredients(slots: Seq<SlotView>, reqs: Seq<(i32, i32)>)
    requires
        slots.len() == INVENTORY_SLOTS,
        ids_distinct(reqs),
        forall|i: int| 0 <= i < reqs.len() ==> (#[trigger] reqs[i]).1 >= 0,
    ensures
        drain_all(slots, reqs, Seq::empty(), 0) matches Some(d) ==> total_amount(drained(slots, d, d.len() as int))
            == total_amount(slots) - required_sum(reqs, 0),
{
    drain_takes_exactly_requirements(slots, reqs);
    drain_touches_each_slot_once(slots, reqs);
    match drain_all(slots, reqs, Seq::empty(), 0) {
        Some(d) => {
            assert forall|e: int| 0 <= e < d.len() implies {
                let (k, t) = #[trigger] d[e];
                &&& (k as int) < slots.len()
                &&& 0 < t <= slots[k as int].count
                &&& slots[k as int].id is Some
            } by {
                let (k, t) = d[e];
                let j = choose|j: int| 0 <= j < reqs.len() && slots[k as int].id == Some(reqs[j].0);
            }
            lemma_drained_total(slots, d, d.len() as int);
            assert(d.take(d.len() as int) =~= d);
        },
        None => {},
    }
}

} // verus!
