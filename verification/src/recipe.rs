//! Recipe-book auto-fill: where a recipe's ingredients go in the crafting
//! grid, how many of each item that takes, and which inventory slots give
//! them up; plus the recipe-book display of a recipe.

use vstd::prelude::*;
use crate::slot::{Slot, SlotView};
use crate::click_handler::views;

verus! {

/// Item id of a vanilla crafting table, drawn next to crafting recipes.
pub const CRAFTING_TABLE_ITEM_ID: i32 = 314;

/// A shaped crafting recipe: a `width` x `height` pattern, row-major.
pub struct ShapedRecipe {
    /// Pattern width in cells.
    pub width: u8,
    /// Pattern height in cells.
    pub height: u8,
    /// Row-major cells; `None` is an empty cell.
    pub pattern: Vec<Option<i32>>,
    /// Item id of the result.
    pub result_id: i32,
    /// Number of result items.
    pub result_count: i32,
}

/// A shapeless crafting recipe: ingredients in any arrangement.
pub struct ShapelessRecipe {
    /// Ingredient item ids.
    pub ingredients: Vec<i32>,
    /// Item id of the result.
    pub result_id: i32,
    /// Number of result items.
    pub result_count: i32,
}

/// A crafting recipe.
pub enum Recipe {
    Shaped(ShapedRecipe),
    Shapeless(ShapelessRecipe),
}

/// What a recipe-book cell shows.
#[derive(Debug, Clone, PartialEq, Eq, Structural)]
pub enum SlotDisplay {
    /// An empty cell.
    Empty,
    /// Any stack of the item.
    Item { item_id: i32 },
    /// A specific stack.
    ItemStack { item_id: i32, count: i32 },
}

/// The recipe-book display of a crafting recipe.
pub enum RecipeDisplay {
    CraftingShaped {
        width: i32,
        height: i32,
        ingredients: Vec<SlotDisplay>,
        result: SlotDisplay,
        crafting_station: SlotDisplay,
    },
    CraftingShapeless {
        ingredients: Vec<SlotDisplay>,
        result: SlotDisplay,
        crafting_station: SlotDisplay,
    },
}

/// The display of one pattern cell.
pub open spec fn pattern_display(slot: Option<i32>) -> SlotDisplay {
    match slot {
        Some(id) => SlotDisplay::Item { item_id: id },
        None => SlotDisplay::Empty,
    }
}

/// Displays a pattern cell: the item, or an empty cell.
pub fn slot_for_pattern(slot: &Option<i32>) -> (r: SlotDisplay)
    ensures
        r == pattern_display(*slot),
{
    match slot {
        Some(id) => SlotDisplay::Item { item_id: *id },
        None => SlotDisplay::Empty,
    }
}

/// `r` is the recipe-book display of `recipe`: shaped recipes keep their
/// grid, each cell showing its item or empty; shapeless recipes show each
/// ingredient; both show the result stack and the crafting table.
pub open spec fn displays(recipe: Recipe, r: RecipeDisplay) -> bool {
    match (recipe, r) {
        (
            Recipe::Shaped(s),
            RecipeDisplay::CraftingShaped { width, height, ingredients, result, crafting_station },
        ) => {
            &&& width == s.width
            &&& height == s.height
            &&& ingredients@ == s.pattern@.map_values(|c: Option<i32>| pattern_display(c))
            &&& result == (SlotDisplay::ItemStack { item_id: s.result_id, count: s.result_count })
            &&& crafting_station == (SlotDisplay::Item { item_id: CRAFTING_TABLE_ITEM_ID })
        },
        (
            Recipe::Shapeless(s),
            RecipeDisplay::CraftingShapeless { ingredients, result, crafting_station },
        ) => {
            &&& ingredients@ == s.ingredients@.map_values(|id: i32| SlotDisplay::Item { item_id: id })
            &&& result == (SlotDisplay::ItemStack { item_id: s.result_id, count: s.result_count })
            &&& crafting_station == (SlotDisplay::Item { item_id: CRAFTING_TABLE_ITEM_ID })
        },
        _ => false,
    }
}

/// Converts a recipe into its recipe-book display. Shaped recipes keep
/// their grid; each cell shows its item or is empty. Shapeless recipes
/// show each ingredient. Both show the result stack and the crafting table.
pub fn to_display(recipe: &Recipe) -> (r: RecipeDisplay)
    ensures
        displays(*recipe, r),
{
    match recipe {
        Recipe::Shaped(s) => {
            let mut ingredients: Vec<SlotDisplay> = Vec::new();
            let mut i: usize = 0;
            while i < s.pattern.len()
                invariant
                    i <= s.pattern@.len(),
                    ingredients@ =~= s.pattern@.subrange(0, i as int).map_values(
                        |c: Option<i32>| pattern_display(c),
                    ),
                decreases s.pattern@.len() - i,
            {
                ingredients.push(slot_for_pattern(&s.pattern[i]));
                i = i + 1;
            }
            assert(s.pattern@.subrange(0, s.pattern@.len() as int) =~= s.pattern@);
            RecipeDisplay::CraftingShaped {
                width: s.width as i32,
                height: s.height as i32,
                ingredients,
                result: SlotDisplay::ItemStack { item_id: s.result_id, count: s.result_count },
                crafting_station: SlotDisplay::Item { item_id: CRAFTING_TABLE_ITEM_ID },
            }
        },
        Recipe::Shapeless(s) => {
            let mut ingredients: Vec<SlotDisplay> = Vec::new();
            let mut i: usize = 0;
            while i < s.ingredients.len()
                invariant
                    i <= s.ingredients@.len(),
                    ingredients@ =~= s.ingredients@.subrange(0, i as int).map_values(
                        |id: i32| SlotDisplay::Item { item_id: id },
                    ),
                decreases s.ingredients@.len() - i,
            {
                ingredients.push(SlotDisplay::Item { item_id: s.ingredients[i] });
                i = i + 1;
            }
            assert(s.ingredients@.subrange(0, s.ingredients@.len() as int) =~= s.ingredients@);
            RecipeDisplay::CraftingShapeless {
                ingredients,
                result: SlotDisplay::ItemStack { item_id: s.result_id, count: s.result_count },
                crafting_station: SlotDisplay::Item { item_id: CRAFTING_TABLE_ITEM_ID },
            }
        },
    }
}

/// Recipe-book category of crafting recipes (`crafting_misc`).
pub const CATEGORY_CRAFTING_MISC: i32 = 3;

/// Recipe-book entry flag: show a notification toast when added.
pub const FLAG_NOTIFY: u8 = 0x01;

/// One entry of the client's recipe book.
pub struct RecipeBookEntry {
    /// Display id the client refers to the recipe by.
    pub display_id: i32,
    /// What the book draws.
    pub display: RecipeDisplay,
    /// Recipe group (0: none).
    pub group: i32,
    /// Book category.
    pub category: i32,
    /// Ingredients the client checks before crafting, when sent.
    pub crafting_requirements: Option<Vec<SlotDisplay>>,
    /// Entry flags.
    pub flags: u8,
}

/// The book entry of `recipe` under `display_id`: its display, no group,
/// the crafting category, no crafting requirements, and `flags`.
pub open spec fn is_book_entry(e: RecipeBookEntry, recipe: Recipe, display_id: i32, flags: u8) -> bool {
    &&& e.display_id == display_id
    &&& displays(recipe, e.display)
    &&& e.group == 0
    &&& e.category == CATEGORY_CRAFTING_MISC
    &&& e.crafting_requirements is None
    &&& e.flags == flags
}

/// The entry a known recipe has in the recipe book sent on join (no
/// notification).
pub fn book_entry(display_id: i32, recipe: &Recipe) -> (r: RecipeBookEntry)
    ensures
        is_book_entry(r, *recipe, display_id, 0),
{
    RecipeBookEntry {
        display_id,
        display: to_display(recipe),
        group: 0,
        category: CATEGORY_CRAFTING_MISC,
        crafting_requirements: None,
        flags: 0,
    }
}

/// Unlocking a recipe: nothing when the player already knows it (the
/// client already has the entry); otherwise the entry to add under the
/// display id the recipe was given, with a notification.
pub fn unlock_entry(already_known: bool, display_id: i32, recipe: &Recipe) -> (r: Option<RecipeBookEntry>)
    ensures
        already_known ==> r is None,
        !already_known ==> (r matches Some(e) && is_book_entry(e, *recipe, display_id, FLAG_NOTIFY)),
{
    if already_known {
        return None;
    }
    Some(
        RecipeBookEntry {
            display_id,
            display: to_display(recipe),
            group: 0,
            category: CATEGORY_CRAFTING_MISC,
            crafting_requirements: None,
            flags: FLAG_NOTIFY,
        },
    )
}

/// The placement of cell (`row`, `col`) of a pattern of width `w` in a
/// grid of side `g`: its grid index and item, or nothing for an empty cell.
pub open spec fn cell_plan(pattern: Seq<Option<i32>>, w: int, g: int, row: int, col: int) -> Seq<(usize, i32)> {
    match pattern[row * w + col] {
        Some(id) => seq![((row * g + col) as usize, id)],
        None => Seq::empty(),
    }
}

/// Placements of the first `cols` cells of row `row`.
pub open spec fn row_plan(pattern: Seq<Option<i32>>, w: int, g: int, row: int, cols: int) -> Seq<(usize, i32)>
    decreases cols,
{
    if cols <= 0 {
        Seq::empty()
    } else {
        row_plan(pattern, w, g, row, cols - 1) + cell_plan(pattern, w, g, row, cols - 1)
    }
}

/// Placements of the first `rows` rows of a pattern of width `w`.
pub open spec fn rows_plan(pattern: Seq<Option<i32>>, w: int, g: int, rows: int) -> Seq<(usize, i32)>
    decreases rows,
{
    if rows <= 0 {
        Seq::empty()
    } else {
        rows_plan(pattern, w, g, rows - 1) + row_plan(pattern, w, g, rows - 1, w)
    }
}

/// The auto-fill placement plan of a recipe in a `g` x `g` grid: shaped
/// recipes top-left aligned, row-major, skipping empty cells; shapeless
/// ingredients in the first slots in order. `None` when it does not fit.
pub open spec fn placement_spec(recipe: Recipe, g: int) -> Option<Seq<(usize, i32)>> {
    match recipe {
        Recipe::Shaped(s) => {
            if s.width > g || s.height > g {
                None
            } else {
                Some(rows_plan(s.pattern@, s.width as int, g, s.height as int))
            }
        },
        Recipe::Shapeless(s) => {
            if s.ingredients@.len() > g * g {
                None
            } else {
                Some(Seq::new(s.ingredients@.len(), |i: int| (i as usize, s.ingredients@[i])))
            }
        },
    }
}

/// Whether a shaped recipe's pattern covers its declared size.
pub open spec fn pattern_complete(recipe: Recipe) -> bool {
    match recipe {
        Recipe::Shaped(s) => s.width * s.height <= s.pattern@.len(),
        Recipe::Shapeless(_) => true,
    }
}

proof fn lemma_cell_in_pattern(w: int, h: int, row: int, col: int)
    requires
        0 <= row < h,
        0 <= col < w,
        h <= 255,
        w <= 255,
    ensures
        0 <= row * w + col < w * h,
        w * h <= 65025,
{
    assert(w * h <= 255 * 255) by (nonlinear_arith)
        requires
            0 <= w <= 255,
            0 <= h <= 255,
    ;
    assert(row * w + col < w * h) by (nonlinear_arith)
        requires
            0 <= row < h,
            0 <= col < w,
    ;
    assert(0 <= row * w) by (nonlinear_arith)
        requires
            0 <= row,
            0 <= col < w,
    ;
}

proof fn lemma_square_bound(g: int)
    requires
        0 <= g <= 255,
    ensures
        0 <= g * g <= 65025,
{
    assert(g * g <= 255 * 255) by (nonlinear_arith)
        requires
            0 <= g <= 255,
    ;
    assert(0 <= g * g) by (nonlinear_arith)
        requires
            0 <= g,
    ;
}

proof fn lemma_cell_in_grid(g: int, row: int, col: int)
    requires
        0 <= row < g,
        0 <= col < g,
        g <= 255,
    ensures
        0 <= row * g + col < g * g,
        g * g <= 65025,
{
    assert(row * g + col < g * g) by (nonlinear_arith)
        requires
            0 <= row < g,
            0 <= col < g,
    ;
    assert(0 <= row * g) by (nonlinear_arith)
        requires
            0 <= row,
            0 <= g,
    ;
    assert(g * g <= 255 * 255) by (nonlinear_arith)
        requires
            0 <= g <= 255,
    ;
}

/// Builds the auto-fill placement plan: `(grid_index, item_id)` pairs in
/// row-major order. `None` when the recipe does not fit the grid.
pub fn build_placement_plan(recipe: &Recipe, grid_size: u8) -> (r: Option<Vec<(usize, i32)>>)
    requires
        placement_spec(*recipe, grid_size as int) is Some ==> pattern_complete(*recipe),
    ensures
        match r {
            Some(v) => placement_spec(*recipe, grid_size as int) == Some(v@),
            None => placement_spec(*recipe, grid_size as int) is None,
        },
{
    let g = grid_size as usize;
    match recipe {
        Recipe::Shaped(r) => {
            if r.width as usize > g || r.height as usize > g {
                return None;
            }
            let w = r.width as usize;
            let h = r.height as usize;
            let ghost pat = r.pattern@;
            let mut plan: Vec<(usize, i32)> = Vec::new();
            let mut row: usize = 0;
            while row < h
                invariant
                    w == r.width,
                    h == r.height,
                    g == grid_size,
                    w <= g,
                    h <= g,
                    w * h <= pat.len(),
                    pat == r.pattern@,
                    row <= h,
                    plan@ == rows_plan(pat, w as int, g as int, row as int),
                decreases h - row,
            {
                let mut col: usize = 0;
                while col < w
                    invariant
                        w == r.width,
                        h == r.height,
                        g == grid_size,
                        w <= g,
                        h <= g,
                        w * h <= pat.len(),
                        pat == r.pattern@,
                        row < h,
                        col <= w,
                        plan@ == rows_plan(pat, w as int, g as int, row as int) + row_plan(
                            pat,
                            w as int,
                            g as int,
                            row as int,
                            col as int,
                        ),
                    decreases w - col,
                {
                    proof {
                        lemma_cell_in_pattern(w as int, h as int, row as int, col as int);
                        lemma_cell_in_grid(g as int, row as int, col as int);
                    }
                    let pat_idx = row * w + col;
                    let ghost before = plan@;
                    if let Some(item_id) = r.pattern[pat_idx] {
                        let grid_idx = row * g + col;
                        plan.push((grid_idx, item_id));
                    }
                    assert(plan@ =~= rows_plan(pat, w as int, g as int, row as int) + row_plan(
                        pat,
                        w as int,
                        g as int,
                        row as int,
                        col + 1,
                    ));
                    col = col + 1;
                }
                row = row + 1;
            }
            Some(plan)
        },
        Recipe::Shapeless(r) => {
            proof {
                lemma_square_bound(g as int);
            }
            if r.ingredients.len() > g * g {
                return None;
            }
            let mut plan: Vec<(usize, i32)> = Vec::new();
            let mut i: usize = 0;
            while i < r.ingredients.len()
                invariant
                    i <= r.ingredients@.len(),
                    plan@ =~= Seq::new(i as nat, |j: int| (j as usize, r.ingredients@[j])),
                decreases r.ingredients@.len() - i,
            {
                plan.push((i, r.ingredients[i]));
                i = i + 1;
            }
            Some(plan)
        },
    }
}

/// Every placement of a plan lands in a `g` x `g` grid, and grid indices
/// strictly increase along the plan (no slot is filled twice).
pub open spec fn plan_fits(plan: Seq<(usize, i32)>, g: int) -> bool {
    &&& forall|k: int| 0 <= k < plan.len() ==> (#[trigger] plan[k]).0 < g * g
    &&& forall|k: int, l: int| 0 <= k < l < plan.len() ==> (#[trigger] plan[k]).0 < (#[trigger] plan[l]).0
}

proof fn lemma_row_plan(pattern: Seq<Option<i32>>, w: int, g: int, row: int, cols: int)
    requires
        0 <= cols <= w <= g <= 255,
        0 <= row < g,
    ensures
        forall|k: int|
            0 <= k < row_plan(pattern, w, g, row, cols).len() ==> row * g <= (#[trigger] row_plan(
                pattern,
                w,
                g,
                row,
                cols,
            )[k]).0 < row * g + cols,
        forall|k: int, l: int|
            0 <= k < l < row_plan(pattern, w, g, row, cols).len() ==> (#[trigger] row_plan(
                pattern,
                w,
                g,
                row,
                cols,
            )[k]).0 < (#[trigger] row_plan(pattern, w, g, row, cols)[l]).0,
    decreases cols,
{
    if cols > 0 {
        lemma_row_plan(pattern, w, g, row, cols - 1);
        lemma_cell_in_grid(g, row, cols - 1);
        let prev = row_plan(pattern, w, g, row, cols - 1);
        let cell = cell_plan(pattern, w, g, row, cols - 1);
        let all = row_plan(pattern, w, g, row, cols);
        assert(all == prev + cell);
        assert forall|k: int| 0 <= k < all.len() implies row * g <= (#[trigger] all[k]).0 < row * g
            + cols by {
            if k >= prev.len() {
                assert(all[k] == cell[k - prev.len()]);
            } else {
                assert(all[k] == prev[k]);
            }
        }
        assert forall|k: int, l: int| 0 <= k < l < all.len() implies (#[trigger] all[k]).0 < (
        #[trigger] all[l]).0 by {
            if l >= prev.len() {
                assert(all[l] == cell[l - prev.len()]);
                if k >= prev.len() {
                    assert(cell.len() <= 1);
                } else {
                    assert(all[k] == prev[k]);
                }
            } else {
                assert(all[k] == prev[k]);
                assert(all[l] == prev[l]);
            }
        }
    }
}

proof fn lemma_rows_plan(pattern: Seq<Option<i32>>, w: int, g: int, rows: int)
    requires
        0 <= w <= g <= 255,
        0 <= rows <= g,
    ensures
        forall|k: int|
            0 <= k < rows_plan(pattern, w, g, rows).len() ==> (#[trigger] rows_plan(
                pattern,
                w,
                g,
                rows,
            )[k]).0 < rows * g,
        plan_fits(rows_plan(pattern, w, g, rows), g),
    decreases rows,
{
    if rows > 0 {
        lemma_rows_plan(pattern, w, g, rows - 1);
        lemma_row_plan(pattern, w, g, rows - 1, w);
        let prev = rows_plan(pattern, w, g, rows - 1);
        let cur = row_plan(pattern, w, g, rows - 1, w);
        let all = rows_plan(pattern, w, g, rows);
        assert(all == prev + cur);
        assert((rows - 1) * g + g == rows * g) by (nonlinear_arith);
        assert(rows * g <= g * g) by (nonlinear_arith)
            requires
                rows <= g,
                0 <= g,
        ;
        assert forall|k: int| 0 <= k < all.len() implies (#[trigger] all[k]).0 < rows * g by {
            if k >= prev.len() {
                assert(all[k] == cur[k - prev.len()]);
            } else {
                assert(all[k] == prev[k]);
            }
        }
        assert forall|k: int, l: int| 0 <= k < l < all.len() implies (#[trigger] all[k]).0 < (
        #[trigger] all[l]).0 by {
            if l >= prev.len() {
                assert(all[l] == cur[l - prev.len()]);
                if k >= prev.len() {
                    assert(all[k] == cur[k - prev.len()]);
                } else {
                    assert(all[k] == prev[k]);
                }
            } else {
                assert(all[k] == prev[k]);
                assert(all[l] == prev[l]);
            }
        }
    } else {
        lemma_square_bound(g);
    }
}

/// An auto-fill plan always fits the grid it was built for: each
/// ingredient lands inside the grid and no grid slot is used twice.
pub proof fn placement_fits_grid(recipe: Recipe, g: int)
    requires
        0 <= g <= 255,
        placement_spec(recipe, g) is Some,
    ensures
        plan_fits(placement_spec(recipe, g).unwrap(), g),
{
    match recipe {
        Recipe::Shaped(s) => {
            lemma_rows_plan(s.pattern@, s.width as int, g, s.height as int);
            assert(placement_spec(recipe, g).unwrap() == rows_plan(
                s.pattern@,
                s.width as int,
                g,
                s.height as int,
            ));
        },
        Recipe::Shapeless(s) => {
            let p = placement_spec(recipe, g).unwrap();
            lemma_square_bound(g);
            assert forall|k: int| 0 <= k < p.len() implies (#[trigger] p[k]).0 < g * g by {
                assert(p[k].0 == k);
            }
            assert forall|k: int, l: int| 0 <= k < l < p.len() implies (#[trigger] p[k]).0 < (
            #[trigger] p[l]).0 by {
                assert(p[k].0 == k);
                assert(p[l].0 == l);
            }
        },
    }
}

/// How many of the first `n` placements put item `id`.
pub open spec fn occurrences(plan: Seq<(usize, i32)>, id: i32, n: int) -> int
    decreases n,
{
    if n <= 0 {
        0
    } else {
        occurrences(plan, id, n - 1) + if plan[n - 1].1 == id { 1int } else { 0int }
    }
}

/// The item ids of a list of requirements.
pub open spec fn requirement_ids(req: Seq<(i32, i32)>) -> Seq<i32> {
    req.map_values(|r: (i32, i32)| r.0)
}

/// `req` lists each item of the first `n` placements once, with the number
/// of placements of that item.
pub open spec fn aggregates(req: Seq<(i32, i32)>, plan: Seq<(usize, i32)>, n: int) -> bool {
    &&& forall|k: int, l: int| 0 <= k < l < req.len() ==> (#[trigger] req[k]).0 != (#[trigger] req[l]).0
    &&& forall|k: int| 0 <= k < req.len() ==> (#[trigger] req[k]).1 == occurrences(plan, req[k].0, n)
        && req[k].1 >= 1
    &&& forall|j: int| 0 <= j < n ==> requirement_ids(req).contains(#[trigger] plan[j].1)
}

proof fn lemma_occurrences_bound(plan: Seq<(usize, i32)>, id: i32, n: int)
    requires
        0 <= n,
    ensures
        0 <= occurrences(plan, id, n) <= n,
    decreases n,
{
    if n > 0 {
        lemma_occurrences_bound(plan, id, n - 1);
    }
}

proof fn lemma_occurs_somewhere(plan: Seq<(usize, i32)>, id: i32, n: int)
    requires
        occurrences(plan, id, n) != 0,
    ensures
        exists|j: int| 0 <= j < n && plan[j].1 == id,
    decreases n,
{
    if n > 0 && plan[n - 1].1 != id {
        lemma_occurs_somewhere(plan, id, n - 1);
    }
}

/// Aggregates a placement plan into `(item_id, total_count)` pairs, one per
/// distinct item, so the inventory drain can be sized per ingredient.
pub fn aggregate_requirements(plan: &[(usize, i32)]) -> (r: Vec<(i32, i32)>)
    requires
        plan@.len() <= i32::MAX,
    ensures
        aggregates(r@, plan@, plan@.len() as int),
{
    let mut by_id: Vec<(i32, i32)> = Vec::new();
    let mut i: usize = 0;
    while i < plan.len()
        invariant
            i <= plan@.len(),
            plan@.len() <= i32::MAX,
            aggregates(by_id@, plan@, i as int),
        decreases plan@.len() - i,
    {
        let item_id = plan[i].1;
        let mut k: usize = 0;
        let mut found = false;
        while k < by_id.len() && !found
            invariant
                k <= by_id@.len(),
                found ==> k < by_id@.len() && by_id@[k as int].0 == item_id,
                !found ==> forall|m: int| 0 <= m < k ==> (#[trigger] by_id@[m]).0 != item_id,
            decreases by_id@.len() - k + (if found { 0int } else { 1int }),
        {
            if by_id[k].0 == item_id {
                found = true;
            } else {
                k = k + 1;
            }
        }
        let ghost old_req = by_id@;
        proof {
            lemma_occurrences_bound(plan@, item_id, i as int);
        }
        if found && k < by_id.len() {
            let count = by_id[k].1;
            by_id.set(k, (item_id, count + 1));
            assert forall|m: int| 0 <= m < by_id@.len() implies (#[trigger] by_id@[m]).1
                == occurrences(plan@, by_id@[m].0, i + 1) && by_id@[m].1 >= 1 by {
                if m != k {
                    assert(by_id@[m] == old_req[m]);
                    assert(old_req[m].0 != old_req[k as int].0);
                }
            }
            assert(requirement_ids(by_id@)[k as int] == item_id);
            assert forall|j: int| 0 <= j < i + 1 implies requirement_ids(by_id@).contains(
                #[trigger] plan@[j].1,
            ) by {
                if j < i {
                    let m = choose|m: int|
                        0 <= m < old_req.len() && requirement_ids(old_req)[m] == plan@[j].1;
                    assert(by_id@[m].0 == old_req[m].0);
                    assert(requirement_ids(by_id@)[m] == plan@[j].1);
                }
            }
        } else {
            assert forall|m: int| 0 <= m < old_req.len() implies (#[trigger] old_req[m]).0
                != item_id by {}
            by_id.push((item_id, 1));
            assert(requirement_ids(by_id@)[old_req.len() as int] == item_id);
            assert(occurrences(plan@, item_id, i as int) == 0) by {
                if occurrences(plan@, item_id, i as int) != 0 {
                    lemma_occurs_somewhere(plan@, item_id, i as int);
                    let j = choose|j: int| 0 <= j < i && plan@[j].1 == item_id;
                    assert(requirement_ids(old_req).contains(plan@[j].1));
                    let m = choose|m: int|
                        0 <= m < old_req.len() && requirement_ids(old_req)[m] == plan@[j].1;
                    assert(old_req[m].0 == item_id);
                }
            }
            assert forall|m: int| 0 <= m < by_id@.len() implies (#[trigger] by_id@[m]).1
                == occurrences(plan@, by_id@[m].0, i + 1) && by_id@[m].1 >= 1 by {
                if m < old_req.len() {
                    assert(by_id@[m] == old_req[m]);
                }
            }
            assert forall|j: int| 0 <= j < i + 1 implies requirement_ids(by_id@).contains(
                #[trigger] plan@[j].1,
            ) by {
                if j < i {
                    let m = choose|m: int|
                        0 <= m < old_req.len() && requirement_ids(old_req)[m] == plan@[j].1;
                    assert(requirement_ids(by_id@)[m] == plan@[j].1);
                }
            }
        }
        i = i + 1;
    }
    by_id
}

/// Number of inventory slots the auto-fill drains from: hotbar 0..9, then main 9..36.
pub const DRAIN_SLOTS: usize = 36;

/// Draining item `id` from slot `k` on: each matching non-empty slot gives
/// up to what is still needed; stops when nothing is needed. Returns the
/// extended drain and what is still needed.
pub open spec fn drain_step(
    slots: Seq<SlotView>,
    id: i32,
    acc: Seq<(usize, i32)>,
    rem: int,
    k: int,
) -> (Seq<(usize, i32)>, int)
    decreases DRAIN_SLOTS - k,
{
    if k >= DRAIN_SLOTS || rem == 0 {
        (acc, rem)
    } else if slots[k].id == Some(id) && slots[k].count > 0 {
        let take = if slots[k].count <= rem { slots[k].count } else { rem };
        drain_step(slots, id, acc.push((k as usize, take as i32)), rem - take, k + 1)
    } else {
        drain_step(slots, id, acc, rem, k + 1)
    }
}

/// Draining every requirement from `j` on; `None` as soon as one cannot be met.
pub open spec fn drain_all(
    slots: Seq<SlotView>,
    reqs: Seq<(i32, i32)>,
    acc: Seq<(usize, i32)>,
    j: int,
) -> Option<Seq<(usize, i32)>>
    decreases reqs.len() - j,
{
    if j >= reqs.len() {
        Some(acc)
    } else {
        let (acc2, rem) = drain_step(slots, reqs[j].0, acc, reqs[j].1 as int, 0);
        if rem > 0 {
            None
        } else {
            drain_all(slots, reqs, acc2, j + 1)
        }
    }
}

/// Items of `id` held by inventory slots `k..36`, counting only stacks
/// with a positive count.
pub open spec fn available_from(slots: Seq<SlotView>, id: i32, k: int) -> int
    decreases DRAIN_SLOTS - k,
{
    if k >= DRAIN_SLOTS {
        0
    } else {
        available_from(slots, id, k + 1) + if slots[k].id == Some(id) && slots[k].count > 0 {
            slots[k].count
        } else {
            0
        }
    }
}

/// Every requirement from `j` on asks for no more of its item than the
/// inventory holds.
pub open spec fn requirements_met(slots: Seq<SlotView>, reqs: Seq<(i32, i32)>, j: int) -> bool {
    forall|i: int| j <= i < reqs.len() ==> (#[trigger] reqs[i]).1 <= available_from(slots, reqs[i].0, 0)
}

proof fn lemma_available_nonneg(slots: Seq<SlotView>, id: i32, k: int)
    ensures
        available_from(slots, id, k) >= 0,
    decreases DRAIN_SLOTS - k,
{
    if k < DRAIN_SLOTS {
        lemma_available_nonneg(slots, id, k + 1);
    }
}

proof fn lemma_drain_step_short(slots: Seq<SlotView>, id: i32, acc: Seq<(usize, i32)>, rem: int, k: int)
    requires
        0 <= k,
    ensures
        (drain_step(slots, id, acc, rem, k).1 > 0) <==> (rem > available_from(slots, id, k)),
    decreases DRAIN_SLOTS - k,
{
    lemma_available_nonneg(slots, id, k);
    if k >= DRAIN_SLOTS || rem == 0 {
    } else if slots[k].id == Some(id) && slots[k].count > 0 {
        let take = if slots[k].count <= rem { slots[k].count } else { rem };
        lemma_drain_step_short(slots, id, acc.push((k as usize, take as i32)), rem - take, k + 1);
        lemma_available_nonneg(slots, id, k + 1);
    } else {
        lemma_drain_step_short(slots, id, acc, rem, k + 1);
    }
}

proof fn lemma_drain_all_some(slots: Seq<SlotView>, reqs: Seq<(i32, i32)>, acc: Seq<(usize, i32)>, j: int)
    requires
        0 <= j <= reqs.len(),
    ensures
        (drain_all(slots, reqs, acc, j) is Some) <==> requirements_met(slots, reqs, j),
    decreases reqs.len() - j,
{
    if j < reqs.len() {
        let (acc2, rem) = drain_step(slots, reqs[j].0, acc, reqs[j].1 as int, 0);
        lemma_drain_step_short(slots, reqs[j].0, acc, reqs[j].1 as int, 0);
        lemma_drain_all_some(slots, reqs, acc2, j + 1);
        if !requirements_met(slots, reqs, j + 1) {
            let i = choose|i: int| j + 1 <= i < reqs.len() && !((#[trigger] reqs[i]).1 <= available_from(slots, reqs[i].0, 0));
            assert(!requirements_met(slots, reqs, j));
        }
    }
}

/// Greedy search for inventory slots that give up the required items.
///
/// Walks the hotbar (internal slots 0..9) then the main inventory (9..36),
/// reserving counts from matching stacks. Returns `(slot, decrement)`
/// pairs when every requirement is met, `None` otherwise.
pub fn find_inventory_drain(slots: &Vec<Slot>, requirements: &[(i32, i32)]) -> (r: Option<Vec<(usize, i32)>>)
    requires
        slots@.len() >= DRAIN_SLOTS,
    ensures
        match r {
            Some(d) => drain_all(views(slots@), requirements@, Seq::empty(), 0) == Some(d@),
            None => drain_all(views(slots@), requirements@, Seq::empty(), 0) is None,
        },
        r is Some <==> requirements_met(views(slots@), requirements@, 0),
{
    proof {
        lemma_drain_all_some(views(slots@), requirements@, Seq::empty(), 0);
    }
    let ghost vs = views(slots@);
    let mut drain: Vec<(usize, i32)> = Vec::new();
    let mut j: usize = 0;
    while j < requirements.len()
        invariant
            j <= requirements@.len(),
            vs == views(slots@),
            slots@.len() >= DRAIN_SLOTS,
            drain_all(vs, requirements@, drain@, j as int) == drain_all(
                vs,
                requirements@,
                Seq::empty(),
                0,
            ),
        decreases requirements@.len() - j,
    {
        let (item_id, total_needed) = requirements[j];
        let mut remaining: i32 = total_needed;
        let ghost acc0 = drain@;
        let mut k: usize = 0;
        while k < DRAIN_SLOTS && remaining != 0
            invariant
                k <= DRAIN_SLOTS,
                vs == views(slots@),
                slots@.len() >= DRAIN_SLOTS,
                drain_step(vs, item_id, drain@, remaining as int, k as int) == drain_step(
                    vs,
                    item_id,
                    acc0,
                    total_needed as int,
                    0,
                ),
            decreases DRAIN_SLOTS - k,
        {
            let slot = &slots[k];
            assert(vs[k as int] == slot@);
            if slot.item_id == Some(item_id) && slot.item_count > 0 {
                let take = if slot.item_count <= remaining { slot.item_count } else { remaining };
                drain.push((k, take));
                remaining = remaining - take;
            }
            k = k + 1;
        }
        assert(drain_step(vs, item_id, drain@, remaining as int, k as int) == (drain@, remaining as int));
        if remaining > 0 {
            assert(requirements@[j as int] == (item_id, total_needed));
            assert(drain_all(vs, requirements@, acc0, j as int) is None);
            proof {
                lemma_drain_all_some(vs, requirements@, Seq::empty(), 0);
            }
            return None;
        }
        j = j + 1;
    }
    Some(drain)
}

/// Sum of the decrements of a drain.
pub open spec fn drain_sum(d: Seq<(usize, i32)>) -> int
    decreases d.len(),
{
    if d.len() == 0 {
        0
    } else {
        drain_sum(d.drop_last()) + d.last().1
    }
}

/// Sum of the required counts from `j` on.
pub open spec fn required_sum(reqs: Seq<(i32, i32)>, j: int) -> int
    decreases reqs.len() - j,
{
    if j >= reqs.len() {
        0
    } else {
        reqs[j].1 + required_sum(reqs, j + 1)
    }
}

/// Each decrement of a drain takes between one item and the whole stack
/// of a slot that holds an item from the requirements.
pub open spec fn drain_entries_valid(slots: Seq<SlotView>, reqs: Seq<(i32, i32)>, d: Seq<(usize, i32)>) -> bool {
    forall|e: int|
        0 <= e < d.len() ==> {
            let (k, t) = #[trigger] d[e];
            &&& k < DRAIN_SLOTS
            &&& 0 < t <= slots[k as int].count
            &&& exists|j: int| 0 <= j < reqs.len() && slots[k as int].id == Some(reqs[j].0)
        }
}

proof fn lemma_drain_step(
    slots: Seq<SlotView>,
    reqs: Seq<(i32, i32)>,
    j: int,
    acc: Seq<(usize, i32)>,
    rem: int,
    k: int,
)
    requires
        0 <= j < reqs.len(),
        rem >= 0,
        rem <= i32::MAX,
        0 <= k,
        drain_entries_valid(slots, reqs, acc),
    ensures
        ({
            let (acc2, rem2) = drain_step(slots, reqs[j].0, acc, rem, k);
            &&& 0 <= rem2 <= rem
            &&& drain_sum(acc2) == drain_sum(acc) + rem - rem2
            &&& drain_entries_valid(slots, reqs, acc2)
        }),
    decreases DRAIN_SLOTS - k,
{
    if k >= DRAIN_SLOTS || rem == 0 {
    } else if slots[k].id == Some(reqs[j].0) && slots[k].count > 0 {
        let take = if slots[k].count <= rem { slots[k].count } else { rem };
        let acc1 = acc.push((k as usize, take as i32));
        assert(acc1.drop_last() =~= acc);
        assert(drain_entries_valid(slots, reqs, acc1)) by {
            assert forall|e: int| 0 <= e < acc1.len() implies {
                let (k1, t) = #[trigger] acc1[e];
                &&& k1 < DRAIN_SLOTS
                &&& 0 < t <= slots[k1 as int].count
                &&& exists|j2: int| 0 <= j2 < reqs.len() && slots[k1 as int].id == Some(reqs[j2].0)
            } by {
                if e < acc.len() {
                    assert(acc1[e] == acc[e]);
                }
            }
        }
        lemma_drain_step(slots, reqs, j, acc1, rem - take, k + 1);
    } else {
        lemma_drain_step(slots, reqs, j, acc, rem, k + 1);
    }
}

proof fn lemma_drain_all(slots: Seq<SlotView>, reqs: Seq<(i32, i32)>, acc: Seq<(usize, i32)>, j: int)
    requires
        0 <= j <= reqs.len(),
        forall|i: int| 0 <= i < reqs.len() ==> (#[trigger] reqs[i]).1 >= 0,
        drain_entries_valid(slots, reqs, acc),
    ensures
        drain_all(slots, reqs, acc, j) matches Some(d) ==> drain_sum(d) == drain_sum(acc)
            + required_sum(reqs, j) && drain_entries_valid(slots, reqs, d),
    decreases reqs.len() - j,
{
    if j < reqs.len() {
        let (acc2, rem) = drain_step(slots, reqs[j].0, acc, reqs[j].1 as int, 0);
        lemma_drain_step(slots, reqs, j, acc, reqs[j].1 as int, 0);
        if rem <= 0 {
            lemma_drain_all(slots, reqs, acc2, j + 1);
        }
    }
}

/// A drain that is found takes exactly the required number of items: the
/// decrements add up to the sum of the required counts, and each takes
/// between one item and the whole stack of a slot holding a required item
/// (for non-negative requirements).
pub proof fn drain_takes_exactly_requirements(slots: Seq<SlotView>, reqs: Seq<(i32, i32)>)
    requires
        slots.len() >= DRAIN_SLOTS,
        forall|i: int| 0 <= i < reqs.len() ==> (#[trigger] reqs[i]).1 >= 0,
    ensures
        drain_all(slots, reqs, Seq::empty(), 0) matches Some(d) ==> drain_sum(d) == required_sum(
            reqs,
            0,
        ) && drain_entries_valid(slots, reqs, d),
{
    lemma_drain_all(slots, reqs, Seq::empty(), 0);
}

/// No two requirements name the same item.
pub open spec fn ids_distinct(reqs: Seq<(i32, i32)>) -> bool {
    forall|a: int, b: int| 0 <= a < b < reqs.len() ==> (#[trigger] reqs[a]).0 != (#[trigger] reqs[b]).0
}

/// No slot is drained twice.
pub open spec fn slots_distinct(d: Seq<(usize, i32)>) -> bool {
    forall|e: int, f: int| 0 <= e < f < d.len() ==> (#[trigger] d[e]).0 != (#[trigger] d[f]).0
}

/// Item `x` is named by one of the first `j` requirements.
pub open spec fn id_in_prefix(reqs: Seq<(i32, i32)>, x: i32, j: int) -> bool {
    exists|j2: int| 0 <= j2 < j && (#[trigger] reqs[j2]).0 == x
}

/// Each entry of `d` drains a slot holding an item of the first `j`
/// requirements.
pub open spec fn drains_prefix_items(slots: Seq<SlotView>, reqs: Seq<(i32, i32)>, d: Seq<(usize, i32)>, j: int) -> bool {
    forall|e: int|
        0 <= e < d.len() ==> (slots[(#[trigger] d[e]).0 as int].id matches Some(y) && id_in_prefix(reqs, y, j))
}

proof fn lemma_drain_step_distinct(
    slots: Seq<SlotView>,
    reqs: Seq<(i32, i32)>,
    j: int,
    acc: Seq<(usize, i32)>,
    rem: int,
    k: int,
)
    requires
        0 <= j < reqs.len(),
        0 <= k,
        ids_distinct(reqs),
        slots_distinct(acc),
        forall|e: int|
            0 <= e < acc.len() ==> ((slots[(#[trigger] acc[e]).0 as int].id == Some(reqs[j].0) && acc[e].0 < k)
                || (slots[acc[e].0 as int].id matches Some(y) && id_in_prefix(reqs, y, j))),
    ensures
        slots_distinct(drain_step(slots, reqs[j].0, acc, rem, k).0),
        drains_prefix_items(slots, reqs, drain_step(slots, reqs[j].0, acc, rem, k).0, j + 1),
    decreases DRAIN_SLOTS - k,
{
    let id = reqs[j].0;
    if k >= DRAIN_SLOTS || rem == 0 {
        assert forall|e: int| 0 <= e < acc.len() implies (slots[(#[trigger] acc[e]).0 as int].id matches Some(y)
            && id_in_prefix(reqs, y, j + 1)) by {
            if slots[acc[e].0 as int].id == Some(id) {
                assert(reqs[j].0 == id);
            } else {
                let y = slots[acc[e].0 as int].id->0;
                let j2 = choose|j2: int| 0 <= j2 < j && (#[trigger] reqs[j2]).0 == y;
                assert(reqs[j2].0 == y);
            }
        }
    } else if slots[k].id == Some(id) && slots[k].count > 0 {
        let take = if slots[k].count <= rem { slots[k].count } else { rem };
        let acc1 = acc.push((k as usize, take as i32));
        assert forall|e: int, f: int| 0 <= e < f < acc1.len() implies (#[trigger] acc1[e]).0 != (#[trigger] acc1[f]).0 by {
            if f == acc.len() {
                assert(acc1[e] == acc[e]);
                if acc[e].0 == k {
                    if slots[acc[e].0 as int].id != Some(id) {
                        let y = slots[acc[e].0 as int].id->0;
                        let j2 = choose|j2: int| 0 <= j2 < j && (#[trigger] reqs[j2]).0 == y;
                        assert(reqs[j2].0 != reqs[j].0);
                    }
                }
            } else {
                assert(acc1[e] == acc[e]);
                assert(acc1[f] == acc[f]);
            }
        }
        assert forall|e: int| 0 <= e < acc1.len() implies ((slots[(#[trigger] acc1[e]).0 as int].id == Some(id)
            && acc1[e].0 < k + 1) || (slots[acc1[e].0 as int].id matches Some(y) && id_in_prefix(reqs, y, j))) by {
            if e < acc.len() {
                assert(acc1[e] == acc[e]);
            }
        }
        lemma_drain_step_distinct(slots, reqs, j, acc1, rem - take, k + 1);
    } else {
        lemma_drain_step_distinct(slots, reqs, j, acc, rem, k + 1);
    }
}

proof fn lemma_drain_all_distinct(slots: Seq<SlotView>, reqs: Seq<(i32, i32)>, acc: Seq<(usize, i32)>, j: int)
    requires
        0 <= j <= reqs.len(),
        ids_distinct(reqs),
        slots_distinct(acc),
        drains_prefix_items(slots, reqs, acc, j),
    ensures
        drain_all(slots, reqs, acc, j) matches Some(d) ==> slots_distinct(d),
    decreases reqs.len() - j,
{
    if j < reqs.len() {
        let (acc2, rem) = drain_step(slots, reqs[j].0, acc, reqs[j].1 as int, 0);
        lemma_drain_step_distinct(slots, reqs, j, acc, reqs[j].1 as int, 0);
        if rem <= 0 {
            lemma_drain_all_distinct(slots, reqs, acc2, j + 1);
        }
    }
}

/// When the requirements name each item once, a drain that is found
/// drains every slot at most once.
pub proof fn drain_touches_each_slot_once(slots: Seq<SlotView>, reqs: Seq<(i32, i32)>)
    requires
        ids_distinct(reqs),
    ensures
        drain_all(slots, reqs, Seq::empty(), 0) matches Some(d) ==> slots_distinct(d),
{
    lemma_drain_all_distinct(slots, reqs, Seq::empty(), 0);
}

} // verus!
