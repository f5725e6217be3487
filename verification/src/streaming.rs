//! Delta-based chunk streaming: which chunks a client is told to unload
//! when it crosses a chunk boundary, which are queued for sending, and how
//! many queued chunks go out per tick.

use std::collections::VecDeque;
use vstd::prelude::*;
use crate::world::{chunk_of, chunk_of_spec, within};

verus! {

/// View radius in chunks around a player.
pub const VIEW_RADIUS: i32 = 5;

/// Chunks a player's client has loaded (no chunk twice).
pub struct ChunkView {
    /// Chunk coordinates loaded by the client.
    pub loaded_chunks: Vec<(i32, i32)>,
}

/// Chunks waiting to be sent to a player, oldest first.
pub struct ChunkStreamRate {
    /// Chunks queued for sending.
    pub pending: VecDeque<(i32, i32)>,
}

impl ChunkView {
    /// A view with no chunk loaded.
    pub fn empty() -> (r: ChunkView)
        ensures
            r.loaded_chunks@.len() == 0,
    {
        ChunkView { loaded_chunks: Vec::new() }
    }
}

impl ChunkStreamRate {
    /// A rate state with nothing queued.
    pub fn new() -> (r: ChunkStreamRate)
        ensures
            r.pending@.len() == 0,
    {
        ChunkStreamRate { pending: VecDeque::new() }
    }
}

/// The elements of the first `n` of `s` within view of `center` (when
/// `keep_in` holds) or outside it (otherwise), in order.
pub open spec fn split_view(s: Seq<(i32, i32)>, center: (i32, i32), keep_in: bool, n: int) -> Seq<(i32, i32)>
    decreases n,
{
    if n <= 0 {
        Seq::empty()
    } else if within(s[n - 1], center, VIEW_RADIUS as int) == keep_in {
        split_view(s, center, keep_in, n - 1).push(s[n - 1])
    } else {
        split_view(s, center, keep_in, n - 1)
    }
}

/// The chunks in view of `center`, row-major: x from -5 to +5 outer, z inner;
/// the first `rows` rows, and `cols` chunks of the next row.
pub open spec fn view_keys(center: (i32, i32), rows: int, cols: int) -> Seq<(i32, i32)>
    decreases rows, cols,
{
    if cols > 0 {
        view_keys(center, rows, cols - 1).push(
            ((center.0 - VIEW_RADIUS + rows) as i32, (center.1 - VIEW_RADIUS + cols - 1) as i32),
        )
    } else if rows > 0 {
        view_keys(center, rows - 1, 2 * VIEW_RADIUS + 1)
    } else {
        Seq::empty()
    }
}

/// All chunks in view of `center`, row-major.
pub open spec fn all_view_keys(center: (i32, i32)) -> Seq<(i32, i32)> {
    view_keys(center, 2 * VIEW_RADIUS + 1, 0)
}

/// The first `n` keys not yet loaded nor queued.
pub open spec fn new_keys(keys: Seq<(i32, i32)>, loaded: Seq<(i32, i32)>, pending: Seq<(i32, i32)>, n: int) -> Seq<(i32, i32)>
    decreases n,
{
    if n <= 0 {
        Seq::empty()
    } else if !loaded.contains(keys[n - 1]) && !pending.contains(keys[n - 1]) {
        new_keys(keys, loaded, pending, n - 1).push(keys[n - 1])
    } else {
        new_keys(keys, loaded, pending, n - 1)
    }
}

/// A center whose view stays within `i32` coordinates.
pub open spec fn center_in_range(cx: i32, cz: i32) -> bool {
    i32::MIN + VIEW_RADIUS <= cx <= i32::MAX - VIEW_RADIUS && i32::MIN + VIEW_RADIUS <= cz <= i32::MAX - VIEW_RADIUS
}

/// Whether `s` contains `k`, by scanning.
pub fn contains_chunk(s: &Vec<(i32, i32)>, k: (i32, i32)) -> (r: bool)
    ensures
        r == s@.contains(k),
{
    let mut i: usize = 0;
    let mut found = false;
    while i < s.len() && !found
        invariant
            i <= s@.len(),
            found ==> s@.contains(k),
            !found ==> forall|j: int| 0 <= j < i ==> s@[j] != k,
        decreases s@.len() - i + (if found { 0int } else { 1int }),
    {
        let (x, z) = s[i];
        if x == k.0 && z == k.1 {
            assert(s@[i as int] == k);
            found = true;
        } else {
            i = i + 1;
        }
    }
    found
}

fn in_view(k: (i32, i32), cx: i32, cz: i32) -> (r: bool)
    requires
        center_in_range(cx, cz),
    ensures
        r == within(k, (cx, cz), VIEW_RADIUS as int),
{
    cx - VIEW_RADIUS <= k.0 && k.0 <= cx + VIEW_RADIUS && cz - VIEW_RADIUS <= k.1 && k.1 <= cz + VIEW_RADIUS
}

/// Splits `s` into its chunks in view of the center and those outside it.
fn split_by_view(s: &Vec<(i32, i32)>, cx: i32, cz: i32) -> (r: (Vec<(i32, i32)>, Vec<(i32, i32)>))
    requires
        center_in_range(cx, cz),
    ensures
        r.0@ == split_view(s@, (cx, cz), true, s@.len() as int),
        r.1@ == split_view(s@, (cx, cz), false, s@.len() as int),
{
    let mut inside: Vec<(i32, i32)> = Vec::new();
    let mut outside: Vec<(i32, i32)> = Vec::new();
    let mut i: usize = 0;
    while i < s.len()
        invariant
            i <= s@.len(),
            center_in_range(cx, cz),
            inside@ == split_view(s@, (cx, cz), true, i as int),
            outside@ == split_view(s@, (cx, cz), false, i as int),
        decreases s@.len() - i,
    {
        let k = s[i];
        if in_view(k, cx, cz) {
            inside.push(k);
        } else {
            outside.push(k);
        }
        i = i + 1;
    }
    (inside, outside)
}

/// Whether queue `q` holds `k`, by scanning.
fn queue_contains(q: &VecDeque<(i32, i32)>, k: (i32, i32)) -> (r: bool)
    ensures
        r == q@.contains(k),
{
    let mut i: usize = 0;
    let mut found = false;
    while i < q.len() && !found
        invariant
            i <= q@.len(),
            found ==> q@.contains(k),
            !found ==> forall|j: int| 0 <= j < i ==> q@[j] != k,
        decreases q@.len() - i + (if found { 0int } else { 1int }),
    {
        let (x, z) = q[i];
        if x == k.0 && z == k.1 {
            assert(q@[i as int] == k);
            found = true;
        } else {
            i = i + 1;
        }
    }
    found
}

/// The chunks of queue `q` in view of the center, in queue order.
fn queue_in_view(q: &VecDeque<(i32, i32)>, cx: i32, cz: i32) -> (r: VecDeque<(i32, i32)>)
    requires
        center_in_range(cx, cz),
    ensures
        r@ == split_view(q@, (cx, cz), true, q@.len() as int),
{
    let mut kept: VecDeque<(i32, i32)> = VecDeque::new();
    let mut i: usize = 0;
    while i < q.len()
        invariant
            i <= q@.len(),
            center_in_range(cx, cz),
            kept@ == split_view(q@, (cx, cz), true, i as int),
        decreases q@.len() - i,
    {
        let k = q[i];
        if in_view(k, cx, cz) {
            kept.push_back(k);
        }
        i = i + 1;
    }
    kept
}

/// Streams chunks when a player crosses into chunk (`new_cx`, `new_cz`).
///
/// Returns the chunks the client must unload (loaded but out of view) and
/// forgets them; drops queued chunks that left the view (never sent); then
/// queues the chunks in view that are neither loaded nor queued, row-major.
pub fn stream_chunks(view: &mut ChunkView, rate: &mut ChunkStreamRate, new_cx: i32, new_cz: i32) -> (r: Vec<(i32, i32)>)
    requires
        center_in_range(new_cx, new_cz),
    ensures
        r@ == split_view(old(view).loaded_chunks@, (new_cx, new_cz), false, old(view).loaded_chunks@.len() as int),
        final(view).loaded_chunks@ == split_view(
            old(view).loaded_chunks@,
            (new_cx, new_cz),
            true,
            old(view).loaded_chunks@.len() as int,
        ),
        final(rate).pending@ == split_view(old(rate).pending@, (new_cx, new_cz), true, old(rate).pending@.len() as int)
            + new_keys(
            all_view_keys((new_cx, new_cz)),
            old(view).loaded_chunks@,
            old(rate).pending@,
            all_view_keys((new_cx, new_cz)).len() as int,
        ),
{
    let ghost old_loaded = view.loaded_chunks@;
    let ghost old_pending = rate.pending@;
    let ghost center = (new_cx, new_cz);
    let (kept, to_unload) = split_by_view(&view.loaded_chunks, new_cx, new_cz);
    let kept_pending = queue_in_view(&rate.pending, new_cx, new_cz);
    let ghost keys = all_view_keys(center);
    let mut queue = kept_pending;
    let mut dx: i32 = 0;
    while dx <= 2 * VIEW_RADIUS
        invariant
            0 <= dx <= 2 * VIEW_RADIUS + 1,
            center == (new_cx, new_cz),
            center_in_range(new_cx, new_cz),
            view.loaded_chunks@ == old_loaded,
            rate.pending@ == old_pending,
            queue@ == split_view(old_pending, center, true, old_pending.len() as int) + new_keys(
                view_keys(center, dx as int, 0),
                old_loaded,
                old_pending,
                view_keys(center, dx as int, 0).len() as int,
            ),
        decreases 2 * VIEW_RADIUS + 1 - dx,
    {
        let mut dz: i32 = 0;
        while dz <= 2 * VIEW_RADIUS
            invariant
                0 <= dx <= 2 * VIEW_RADIUS,
                0 <= dz <= 2 * VIEW_RADIUS + 1,
                center == (new_cx, new_cz),
                center_in_range(new_cx, new_cz),
                view.loaded_chunks@ == old_loaded,
                rate.pending@ == old_pending,
                queue@ == split_view(old_pending, center, true, old_pending.len() as int) + new_keys(
                    view_keys(center, dx as int, dz as int),
                    old_loaded,
                    old_pending,
                    view_keys(center, dx as int, dz as int).len() as int,
                ),
            decreases 2 * VIEW_RADIUS + 1 - dz,
        {
            let key = (new_cx - VIEW_RADIUS + dx, new_cz - VIEW_RADIUS + dz);
            proof {
                let prev = view_keys(center, dx as int, dz as int);
                let ks = view_keys(center, dx as int, dz as int + 1);
                assert(ks == prev.push(key));
                lemma_new_keys_prefix(ks, prev, old_loaded, old_pending, prev.len() as int);
            }
            if !contains_chunk(&view.loaded_chunks, key) && !queue_contains(&rate.pending, key) {
                queue.push_back(key);
            }
            dz = dz + 1;
        }
        assert(view_keys(center, dx as int + 1, 0) == view_keys(center, dx as int, 2 * VIEW_RADIUS + 1));
        dx = dx + 1;
    }
    view.loaded_chunks = kept;
    rate.pending = queue;
    to_unload
}

proof fn lemma_new_keys_prefix(a: Seq<(i32, i32)>, b: Seq<(i32, i32)>, loaded: Seq<(i32, i32)>, pending: Seq<(i32, i32)>, n: int)
    requires
        0 <= n <= a.len(),
        n <= b.len(),
        forall|i: int| 0 <= i < n ==> a[i] == b[i],
    ensures
        new_keys(a, loaded, pending, n) == new_keys(b, loaded, pending, n),
    decreases n,
{
    if n > 0 {
        lemma_new_keys_prefix(a, b, loaded, pending, n - 1);
    }
}

/// `loaded` after adding the first `n` of `ks` as a set would: a chunk
/// already present is not added again.
pub open spec fn insert_all(loaded: Seq<(i32, i32)>, ks: Seq<(i32, i32)>, n: int) -> Seq<(i32, i32)>
    decreases n,
{
    if n <= 0 {
        loaded
    } else {
        let t = insert_all(loaded, ks, n - 1);
        if t.contains(ks[n - 1]) {
            t
        } else {
            t.push(ks[n - 1])
        }
    }
}

/// Sends one batch: takes up to `budget` chunks off the front of the queue,
/// oldest first, and marks each as loaded in the view.
///
/// A budget of zero sends nothing.
pub fn take_chunk_batch(view: &mut ChunkView, rate: &mut ChunkStreamRate, budget: usize) -> (r: Vec<(i32, i32)>)
    ensures
        r@ == old(rate).pending@.take(
            if budget < old(rate).pending@.len() { budget as int } else { old(rate).pending@.len() as int },
        ),
        final(rate).pending@ == old(rate).pending@.skip(r@.len() as int),
        final(view).loaded_chunks@ == insert_all(old(view).loaded_chunks@, r@, r@.len() as int),
{
    let ghost old_loaded = view.loaded_chunks@;
    let n: usize = if budget < rate.pending.len() { budget } else { rate.pending.len() };
    let mut sent: Vec<(i32, i32)> = Vec::new();
    let mut i: usize = 0;
    while i < n
        invariant
            n <= rate.pending@.len(),
            i <= n,
            sent@ == rate.pending@.take(i as int),
            view.loaded_chunks@ == insert_all(old_loaded, sent@, i as int),
        decreases n - i,
    {
        let k = rate.pending[i];
        proof {
            assert(rate.pending@.take(i as int + 1) == rate.pending@.take(i as int).push(k));
            lemma_insert_all_prefix(sent@.push(k), sent@, old_loaded, i as int);
        }
        if !contains_chunk(&view.loaded_chunks, k) {
            view.loaded_chunks.push(k);
        }
        sent.push(k);
        i = i + 1;
    }
    let ghost queued = rate.pending@;
    let mut j: usize = 0;
    while j < n
        invariant
            n <= queued.len(),
            j <= n,
            rate.pending@ == queued.skip(j as int),
        decreases n - j,
    {
        let _front = rate.pending.pop_front();
        assert(queued.skip(j as int).subrange(1, queued.skip(j as int).len() as int) =~= queued.skip(j as int + 1));
        j = j + 1;
    }
    sent
}

proof fn lemma_insert_all_prefix(a: Seq<(i32, i32)>, b: Seq<(i32, i32)>, loaded: Seq<(i32, i32)>, n: int)
    requires
        0 <= n <= a.len(),
        n <= b.len(),
        forall|i: int| 0 <= i < n ==> a[i] == b[i],
    ensures
        insert_all(loaded, a, n) == insert_all(loaded, b, n),
    decreases n,
{
    if n > 0 {
        lemma_insert_all_prefix(a, b, loaded, n - 1);
    }
}

proof fn lemma_insert_all_contains(loaded: Seq<(i32, i32)>, ks: Seq<(i32, i32)>, n: int)
    requires
        0 <= n <= ks.len(),
    ensures
        forall|x: (i32, i32)|
            #[trigger] insert_all(loaded, ks, n).contains(x) <==> (loaded.contains(x) || ks.take(n).contains(x)),
    decreases n,
{
    if n > 0 {
        lemma_insert_all_contains(loaded, ks, n - 1);
        assert(ks.take(n) == ks.take(n - 1).push(ks[n - 1]));
        let t = insert_all(loaded, ks, n - 1);
        assert forall|x: (i32, i32)| #[trigger] insert_all(loaded, ks, n).contains(x) <==> (loaded.contains(x) || ks.take(n).contains(x)) by {
            if ks.take(n - 1).contains(x) {
                let w = choose|w: int| 0 <= w < ks.take(n - 1).len() && #[trigger] ks.take(n - 1)[w] == x;
                assert(ks.take(n)[w] == x);
            }
            if ks.take(n).contains(x) && x != ks[n - 1] {
                let w = choose|w: int| 0 <= w < ks.take(n).len() && #[trigger] ks.take(n)[w] == x;
                assert(ks.take(n - 1)[w] == x);
            }
            if !t.contains(ks[n - 1]) {
                assert(t.push(ks[n - 1])[t.len() as int] == ks[n - 1]);
                if t.contains(x) {
                    let w = choose|w: int| 0 <= w < t.len() && #[trigger] t[w] == x;
                    assert(t.push(ks[n - 1])[w] == x);
                }
                if t.push(ks[n - 1]).contains(x) && x != ks[n - 1] {
                    let w = choose|w: int| 0 <= w < t.len() + 1 && #[trigger] t.push(ks[n - 1])[w] == x;
                    assert(t[w] == x);
                }
            }
            assert(ks.take(n)[n - 1] == ks[n - 1]);
        }
    }
}

proof fn lemma_split_view_contains(s: Seq<(i32, i32)>, center: (i32, i32), keep_in: bool, n: int)
    requires
        0 <= n <= s.len(),
    ensures
        forall|x: (i32, i32)|
            #[trigger] split_view(s, center, keep_in, n).contains(x) <==> (s.take(n).contains(x) && within(
                x,
                center,
                VIEW_RADIUS as int,
            ) == keep_in),
    decreases n,
{
    if n > 0 {
        lemma_split_view_contains(s, center, keep_in, n - 1);
        assert(s.take(n) == s.take(n - 1).push(s[n - 1]));
        let t = split_view(s, center, keep_in, n - 1);
        assert forall|x: (i32, i32)| #[trigger] split_view(s, center, keep_in, n).contains(x) <==> (s.take(n).contains(x) && within(x, center, VIEW_RADIUS as int) == keep_in) by {
            if s.take(n - 1).contains(x) {
                let w = choose|w: int| 0 <= w < s.take(n - 1).len() && #[trigger] s.take(n - 1)[w] == x;
                assert(s.take(n)[w] == x);
            }
            if s.take(n).contains(x) && x != s[n - 1] {
                let w = choose|w: int| 0 <= w < s.take(n).len() && #[trigger] s.take(n)[w] == x;
                assert(s.take(n - 1)[w] == x);
            }
            assert(s.take(n)[n - 1] == s[n - 1]);
            if within(s[n - 1], center, VIEW_RADIUS as int) == keep_in {
                assert(t.push(s[n - 1])[t.len() as int] == s[n - 1]);
                if t.contains(x) {
                    let w = choose|w: int| 0 <= w < t.len() && #[trigger] t[w] == x;
                    assert(t.push(s[n - 1])[w] == x);
                }
                if t.push(s[n - 1]).contains(x) && x != s[n - 1] {
                    let w = choose|w: int| 0 <= w < t.len() + 1 && #[trigger] t.push(s[n - 1])[w] == x;
                    assert(t[w] == x);
                }
            }
        }
    }
}

proof fn lemma_new_keys_contains(keys: Seq<(i32, i32)>, loaded: Seq<(i32, i32)>, pending: Seq<(i32, i32)>, n: int)
    requires
        0 <= n <= keys.len(),
    ensures
        forall|x: (i32, i32)|
            #[trigger] new_keys(keys, loaded, pending, n).contains(x) <==> (keys.take(n).contains(x)
                && !loaded.contains(x) && !pending.contains(x)),
    decreases n,
{
    if n > 0 {
        lemma_new_keys_contains(keys, loaded, pending, n - 1);
        assert(keys.take(n) == keys.take(n - 1).push(keys[n - 1]));
        let t = new_keys(keys, loaded, pending, n - 1);
        let k = keys[n - 1];
        assert forall|x: (i32, i32)| #[trigger] new_keys(keys, loaded, pending, n).contains(x) <==> (keys.take(n).contains(x) && !loaded.contains(x) && !pending.contains(x)) by {
            if keys.take(n - 1).contains(x) {
                let w = choose|w: int| 0 <= w < keys.take(n - 1).len() && #[trigger] keys.take(n - 1)[w] == x;
                assert(keys.take(n)[w] == x);
            }
            if keys.take(n).contains(x) && x != k {
                let w = choose|w: int| 0 <= w < keys.take(n).len() && #[trigger] keys.take(n)[w] == x;
                assert(keys.take(n - 1)[w] == x);
            }
            assert(keys.take(n)[n - 1] == k);
            if !loaded.contains(k) && !pending.contains(k) {
                assert(t.push(k)[t.len() as int] == k);
                if t.contains(x) {
                    let w = choose|w: int| 0 <= w < t.len() && #[trigger] t[w] == x;
                    assert(t.push(k)[w] == x);
                }
                if t.push(k).contains(x) && x != k {
                    let w = choose|w: int| 0 <= w < t.len() + 1 && #[trigger] t.push(k)[w] == x;
                    assert(t[w] == x);
                }
            }
        }
    }
}

proof fn lemma_view_keys_cover(center: (i32, i32), rows: int, cols: int, i: int, j: int)
    requires
        0 <= rows <= 2 * VIEW_RADIUS + 1,
        0 <= cols <= 2 * VIEW_RADIUS + 1,
        rows <= 2 * VIEW_RADIUS || cols == 0,
        center_in_range(center.0, center.1),
        0 <= i,
        0 <= j <= 2 * VIEW_RADIUS,
        i < rows || (i == rows && j < cols),
    ensures
        view_keys(center, rows, cols).contains(
            ((center.0 - VIEW_RADIUS + i) as i32, (center.1 - VIEW_RADIUS + j) as i32),
        ),
    decreases rows, cols,
{
    let k = ((center.0 - VIEW_RADIUS + i) as i32, (center.1 - VIEW_RADIUS + j) as i32);
    if cols > 0 {
        let prev = view_keys(center, rows, cols - 1);
        let last = ((center.0 - VIEW_RADIUS + rows) as i32, (center.1 - VIEW_RADIUS + cols - 1) as i32);
        assert(view_keys(center, rows, cols) == prev.push(last));
        if i == rows && j == cols - 1 {
            assert(prev.push(last)[prev.len() as int] == last);
        } else {
            lemma_view_keys_cover(center, rows, cols - 1, i, j);
            let w = choose|w: int| 0 <= w < prev.len() && #[trigger] prev[w] == k;
            assert(prev.push(last)[w] == k);
        }
    } else {
        lemma_view_keys_cover(center, rows - 1, 2 * VIEW_RADIUS + 1, i, j);
    }
}

proof fn lemma_view_keys_within(center: (i32, i32), rows: int, cols: int)
    requires
        0 <= rows <= 2 * VIEW_RADIUS + 1,
        0 <= cols <= 2 * VIEW_RADIUS + 1,
        rows <= 2 * VIEW_RADIUS || cols == 0,
        center_in_range(center.0, center.1),
    ensures
        forall|x: (i32, i32)| #[trigger] view_keys(center, rows, cols).contains(x) ==> within(x, center, VIEW_RADIUS as int),
    decreases rows, cols,
{
    if cols > 0 {
        lemma_view_keys_within(center, rows, cols - 1);
        let prev = view_keys(center, rows, cols - 1);
        let last = ((center.0 - VIEW_RADIUS + rows) as i32, (center.1 - VIEW_RADIUS + cols - 1) as i32);
        assert(view_keys(center, rows, cols) == prev.push(last));
        assert forall|x: (i32, i32)| #[trigger] view_keys(center, rows, cols).contains(x) implies within(x, center, VIEW_RADIUS as int) by {
            if x != last {
                let w = choose|w: int| 0 <= w < prev.len() + 1 && #[trigger] prev.push(last)[w] == x;
                assert(prev[w] == x);
                assert(prev.contains(x));
            } else {
                assert(0 <= rows <= 2 * VIEW_RADIUS);
                assert(0 <= cols - 1 <= 2 * VIEW_RADIUS);
                assert(last.0 == center.0 - VIEW_RADIUS + rows);
                assert(last.1 == center.1 - VIEW_RADIUS + cols - 1);
            }
        }
    } else if rows > 0 {
        lemma_view_keys_within(center, rows - 1, 2 * VIEW_RADIUS + 1);
        assert(view_keys(center, rows, cols) == view_keys(center, rows - 1, 2 * VIEW_RADIUS + 1));
    } else {
        assert(view_keys(center, rows, cols) == Seq::<(i32, i32)>::empty());
    }
}

/// Crossing into a new chunk leaves the client holding or awaiting exactly
/// the chunks in view: every chunk in view is loaded or queued, nothing out
/// of view stays loaded or queued, exactly the loaded chunks out of view are
/// unloaded, and no chunk already loaded is queued again.
pub proof fn streaming_tracks_view(loaded: Seq<(i32, i32)>, pending: Seq<(i32, i32)>, cx: i32, cz: i32)
    requires
        center_in_range(cx, cz),
    ensures
        forall|k: (i32, i32)|
            within(k, (cx, cz), VIEW_RADIUS as int) ==> #[trigger] split_view(loaded, (cx, cz), true, loaded.len() as int).contains(k)
                || (split_view(pending, (cx, cz), true, pending.len() as int) + new_keys(
                all_view_keys((cx, cz)),
                loaded,
                pending,
                all_view_keys((cx, cz)).len() as int,
            )).contains(k),
        forall|k: (i32, i32)|
            #[trigger] split_view(loaded, (cx, cz), true, loaded.len() as int).contains(k) ==> loaded.contains(k)
                && within(k, (cx, cz), VIEW_RADIUS as int),
        forall|k: (i32, i32)|
            #[trigger] (split_view(pending, (cx, cz), true, pending.len() as int) + new_keys(
                all_view_keys((cx, cz)),
                loaded,
                pending,
                all_view_keys((cx, cz)).len() as int,
            )).contains(k) ==> within(k, (cx, cz), VIEW_RADIUS as int),
        forall|k: (i32, i32)|
            #[trigger] split_view(loaded, (cx, cz), false, loaded.len() as int).contains(k) <==> (loaded.contains(k)
                && !within(k, (cx, cz), VIEW_RADIUS as int)),
        forall|k: (i32, i32)|
            #[trigger] new_keys(all_view_keys((cx, cz)), loaded, pending, all_view_keys((cx, cz)).len() as int).contains(
                k,
            ) ==> !loaded.contains(k),
{
    let c = (cx, cz);
    let keys = all_view_keys(c);
    let kept = split_view(loaded, c, true, loaded.len() as int);
    let kept_pending = split_view(pending, c, true, pending.len() as int);
    let fresh = new_keys(keys, loaded, pending, keys.len() as int);
    lemma_split_view_contains(loaded, c, true, loaded.len() as int);
    lemma_split_view_contains(loaded, c, false, loaded.len() as int);
    lemma_split_view_contains(pending, c, true, pending.len() as int);
    lemma_new_keys_contains(keys, loaded, pending, keys.len() as int);
    lemma_view_keys_within(c, 2 * VIEW_RADIUS + 1, 0);
    assert(loaded.take(loaded.len() as int) == loaded);
    assert(pending.take(pending.len() as int) == pending);
    assert(keys.take(keys.len() as int) == keys);
    assert forall|k: (i32, i32)| within(k, c, VIEW_RADIUS as int) implies #[trigger] kept.contains(k) || (kept_pending + fresh).contains(k) by {
        if !loaded.contains(k) {
            if pending.contains(k) {
                assert(kept_pending.contains(k));
                let w = choose|w: int| 0 <= w < kept_pending.len() && #[trigger] kept_pending[w] == k;
                assert((kept_pending + fresh)[w] == k);
            } else {
                lemma_view_keys_cover(c, 2 * VIEW_RADIUS + 1, 0, k.0 - (cx - VIEW_RADIUS), k.1 - (cz - VIEW_RADIUS));
                assert(((cx - VIEW_RADIUS + (k.0 - (cx - VIEW_RADIUS))) as i32, (cz - VIEW_RADIUS + (k.1 - (cz
                    - VIEW_RADIUS))) as i32) == k);
                assert(keys.contains(k));
                assert(fresh.contains(k));
                let w = choose|w: int| 0 <= w < fresh.len() && #[trigger] fresh[w] == k;
                assert((kept_pending + fresh)[kept_pending.len() + w] == k);
            }
        }
    }
    assert forall|k: (i32, i32)| #[trigger] (kept_pending + fresh).contains(k) implies within(k, c, VIEW_RADIUS as int) by {
        let w = choose|w: int| 0 <= w < (kept_pending + fresh).len() && #[trigger] (kept_pending + fresh)[w] == k;
        if w < kept_pending.len() {
            assert(kept_pending[w] == k);
            assert(kept_pending.contains(k));
        } else {
            assert(fresh[w - kept_pending.len()] == k);
            assert(fresh.contains(k));
            assert(keys.contains(k));
        }
    }
}

/// A batch ships queued chunks oldest first, leaves the rest queued in
/// order, and afterwards every shipped chunk is loaded while everything
/// loaded before stays loaded and nothing else is added.
pub proof fn batch_loads_what_it_sends(loaded: Seq<(i32, i32)>, pending: Seq<(i32, i32)>, budget: usize)
    ensures
        ({
            let n = if budget < pending.len() { budget as int } else { pending.len() as int };
            &&& pending.take(n) + pending.skip(n) == pending
            &&& forall|k: (i32, i32)|
                #[trigger] insert_all(loaded, pending.take(n), n).contains(k) <==> (loaded.contains(k) || pending.take(
                    n,
                ).contains(k))
        }),
{
    let n = if budget < pending.len() { budget as int } else { pending.len() as int };
    lemma_insert_all_contains(loaded, pending.take(n), n);
    assert(pending.take(n).take(n) == pending.take(n));
    assert(pending.take(n) + pending.skip(n) == pending);
}

/// The chunks a joining player at chunk (`cx`, `cz`) is queued, in view
/// order (row-major around the center).
pub fn initial_chunk_queue(cx: i32, cz: i32) -> (r: Vec<(i32, i32)>)
    requires
        center_in_range(cx, cz),
    ensures
        r@ == all_view_keys((cx, cz)),
{
    let ghost center = (cx, cz);
    let mut queue: Vec<(i32, i32)> = Vec::new();
    let mut dx: i32 = 0;
    while dx <= 2 * VIEW_RADIUS
        invariant
            0 <= dx <= 2 * VIEW_RADIUS + 1,
            center == (cx, cz),
            center_in_range(cx, cz),
            queue@ == view_keys(center, dx as int, 0),
        decreases 2 * VIEW_RADIUS + 1 - dx,
    {
        let mut dz: i32 = 0;
        while dz <= 2 * VIEW_RADIUS
            invariant
                0 <= dx <= 2 * VIEW_RADIUS,
                0 <= dz <= 2 * VIEW_RADIUS + 1,
                center == (cx, cz),
                center_in_range(cx, cz),
                queue@ == view_keys(center, dx as int, dz as int),
            decreases 2 * VIEW_RADIUS + 1 - dz,
        {
            queue.push((cx - VIEW_RADIUS + dx, cz - VIEW_RADIUS + dz));
            dz = dz + 1;
        }
        assert(view_keys(center, dx as int + 1, 0) == view_keys(center, dx as int, 2 * VIEW_RADIUS + 1));
        dx = dx + 1;
    }
    queue
}

/// The chunk a player moved into, when a move from block column
/// (`old_x`, `old_z`) to (`new_x`, `new_z`) crosses a chunk boundary.
pub fn chunk_crossing(old_x: i32, old_z: i32, new_x: i32, new_z: i32) -> (r: Option<(i32, i32)>)
    ensures
        r == (if chunk_of_spec(new_x as int) != chunk_of_spec(old_x as int) || chunk_of_spec(new_z as int)
            != chunk_of_spec(old_z as int) {
            Some((chunk_of_spec(new_x as int) as i32, chunk_of_spec(new_z as int) as i32))
        } else {
            None::<(i32, i32)>
        }),
{
    let ocx = chunk_of(old_x);
    let ocz = chunk_of(old_z);
    let ncx = chunk_of(new_x);
    let ncz = chunk_of(new_z);
    if ncx != ocx || ncz != ocz {
        Some((ncx, ncz))
    } else {
        None
    }
}

/// The client's chunks and the queue are kept apart: no chunk is loaded
/// twice, queued twice, or both loaded and queued.
pub open spec fn stream_state_ok(loaded: Seq<(i32, i32)>, pending: Seq<(i32, i32)>) -> bool {
    &&& loaded.no_duplicates()
    &&& pending.no_duplicates()
    &&& forall|k: (i32, i32)| #[trigger] pending.contains(k) ==> !loaded.contains(k)
}

proof fn lemma_push_no_dup(s: Seq<(i32, i32)>, x: (i32, i32))
    requires
        s.no_duplicates(),
        !s.contains(x),
    ensures
        s.push(x).no_duplicates(),
{
    let t = s.push(x);
    assert forall|i: int, j: int| 0 <= i < t.len() && 0 <= j < t.len() && i != j implies t[i] != t[j] by {
        if i == s.len() && t[j] == x {
            assert(s[j] == x);
        }
        if j == s.len() && t[i] == x {
            assert(s[i] == x);
        }
    }
}

proof fn lemma_split_view_no_dup(s: Seq<(i32, i32)>, center: (i32, i32), keep_in: bool, n: int)
    requires
        0 <= n <= s.len(),
        s.no_duplicates(),
    ensures
        split_view(s, center, keep_in, n).no_duplicates(),
    decreases n,
{
    if n > 0 {
        lemma_split_view_no_dup(s, center, keep_in, n - 1);
        lemma_split_view_contains(s, center, keep_in, n - 1);
        let t = split_view(s, center, keep_in, n - 1);
        if within(s[n - 1], center, VIEW_RADIUS as int) == keep_in {
            if t.contains(s[n - 1]) {
                let w = choose|w: int| 0 <= w < s.take(n - 1).len() && #[trigger] s.take(n - 1)[w] == s[n - 1];
                assert(s[w] == s[n - 1]);
            }
            lemma_push_no_dup(t, s[n - 1]);
        }
    }
}

proof fn lemma_new_keys_no_dup(keys: Seq<(i32, i32)>, loaded: Seq<(i32, i32)>, pending: Seq<(i32, i32)>, n: int)
    requires
        0 <= n <= keys.len(),
        keys.no_duplicates(),
    ensures
        new_keys(keys, loaded, pending, n).no_duplicates(),
    decreases n,
{
    if n > 0 {
        lemma_new_keys_no_dup(keys, loaded, pending, n - 1);
        lemma_new_keys_contains(keys, loaded, pending, n - 1);
        let t = new_keys(keys, loaded, pending, n - 1);
        let k = keys[n - 1];
        if !loaded.contains(k) && !pending.contains(k) {
            if t.contains(k) {
                let w = choose|w: int| 0 <= w < keys.take(n - 1).len() && #[trigger] keys.take(n - 1)[w] == k;
                assert(keys[w] == k);
            }
            lemma_push_no_dup(t, k);
        }
    }
}

/// Row-major position of chunk `x` in the view around `center`.
pub open spec fn view_rank(x: (i32, i32), center: (i32, i32)) -> int {
    (x.0 - center.0 + VIEW_RADIUS) * (2 * VIEW_RADIUS + 1) + (x.1 - center.1 + VIEW_RADIUS)
}

proof fn lemma_view_keys_rank(center: (i32, i32), rows: int, cols: int)
    requires
        0 <= rows <= 2 * VIEW_RADIUS + 1,
        0 <= cols <= 2 * VIEW_RADIUS + 1,
        rows <= 2 * VIEW_RADIUS || cols == 0,
        center_in_range(center.0, center.1),
    ensures
        forall|x: (i32, i32)|
            #[trigger] view_keys(center, rows, cols).contains(x) ==> view_rank(x, center) < rows * (2
                * VIEW_RADIUS + 1) + cols,
        view_keys(center, rows, cols).no_duplicates(),
    decreases rows, cols,
{
    if cols > 0 {
        lemma_view_keys_rank(center, rows, cols - 1);
        let prev = view_keys(center, rows, cols - 1);
        let last = ((center.0 - VIEW_RADIUS + rows) as i32, (center.1 - VIEW_RADIUS + cols - 1) as i32);
        assert(view_keys(center, rows, cols) == prev.push(last));
        assert(last.0 == center.0 - VIEW_RADIUS + rows);
        assert(last.1 == center.1 - VIEW_RADIUS + cols - 1);
        assert(view_rank(last, center) == rows * (2 * VIEW_RADIUS + 1) + cols - 1);
        lemma_push_no_dup(prev, last);
        assert forall|x: (i32, i32)| #[trigger] view_keys(center, rows, cols).contains(x) implies view_rank(x, center)
            < rows * (2 * VIEW_RADIUS + 1) + cols by {
            if x != last {
                let w = choose|w: int| 0 <= w < prev.len() + 1 && #[trigger] prev.push(last)[w] == x;
                assert(prev[w] == x);
                assert(prev.contains(x));
            }
        }
    } else if rows > 0 {
        lemma_view_keys_rank(center, rows - 1, 2 * VIEW_RADIUS + 1);
        assert(view_keys(center, rows, cols) == view_keys(center, rows - 1, 2 * VIEW_RADIUS + 1));
        assert((rows - 1) * (2 * VIEW_RADIUS + 1) + (2 * VIEW_RADIUS + 1) == rows * (2 * VIEW_RADIUS + 1)
            + cols) by (nonlinear_arith)
            requires
                cols == 0,
        ;
    } else {
        assert(view_keys(center, rows, cols) == Seq::<(i32, i32)>::empty());
    }
}

/// Crossing into a new chunk never queues a chunk twice or queues one
/// that is loaded: if the client's chunks and the queue were kept apart
/// before, they are after.
pub proof fn streaming_never_double_queues(loaded: Seq<(i32, i32)>, pending: Seq<(i32, i32)>, cx: i32, cz: i32)
    requires
        center_in_range(cx, cz),
        stream_state_ok(loaded, pending),
    ensures
        stream_state_ok(
            split_view(loaded, (cx, cz), true, loaded.len() as int),
            split_view(pending, (cx, cz), true, pending.len() as int) + new_keys(
                all_view_keys((cx, cz)),
                loaded,
                pending,
                all_view_keys((cx, cz)).len() as int,
            ),
        ),
{
    let c = (cx, cz);
    let keys = all_view_keys(c);
    let kept = split_view(loaded, c, true, loaded.len() as int);
    let kept_pending = split_view(pending, c, true, pending.len() as int);
    let fresh = new_keys(keys, loaded, pending, keys.len() as int);
    lemma_view_keys_rank(c, 2 * VIEW_RADIUS + 1, 0);
    lemma_split_view_no_dup(loaded, c, true, loaded.len() as int);
    lemma_split_view_no_dup(pending, c, true, pending.len() as int);
    lemma_new_keys_no_dup(keys, loaded, pending, keys.len() as int);
    lemma_split_view_contains(loaded, c, true, loaded.len() as int);
    lemma_split_view_contains(pending, c, true, pending.len() as int);
    lemma_new_keys_contains(keys, loaded, pending, keys.len() as int);
    assert(loaded.take(loaded.len() as int) == loaded);
    assert(pending.take(pending.len() as int) == pending);
    assert(keys.take(keys.len() as int) == keys);
    assert forall|i: int, j: int| 0 <= i < kept_pending.len() && 0 <= j < fresh.len() implies kept_pending[i]
        != fresh[j] by {
        assert(kept_pending.contains(kept_pending[i]));
        assert(fresh.contains(fresh[j]));
    }
    vstd::seq_lib::lemma_no_dup_in_concat(kept_pending, fresh);
    assert forall|k: (i32, i32)| #[trigger] (kept_pending + fresh).contains(k) implies !kept.contains(k) by {
        let w = choose|w: int| 0 <= w < (kept_pending + fresh).len() && #[trigger] (kept_pending + fresh)[w] == k;
        if w < kept_pending.len() {
            assert(kept_pending[w] == k);
            assert(kept_pending.contains(k));
        } else {
            assert(fresh[w - kept_pending.len()] == k);
            assert(fresh.contains(k));
        }
    }
}

proof fn lemma_insert_all_no_dup(loaded: Seq<(i32, i32)>, ks: Seq<(i32, i32)>, n: int)
    requires
        0 <= n <= ks.len(),
        loaded.no_duplicates(),
    ensures
        insert_all(loaded, ks, n).no_duplicates(),
    decreases n,
{
    if n > 0 {
        lemma_insert_all_no_dup(loaded, ks, n - 1);
        let t = insert_all(loaded, ks, n - 1);
        if !t.contains(ks[n - 1]) {
            lemma_push_no_dup(t, ks[n - 1]);
        }
    }
}

/// Sending a batch keeps the client's chunks and the queue apart.
pub proof fn batch_keeps_queue_apart(loaded: Seq<(i32, i32)>, pending: Seq<(i32, i32)>, budget: usize)
    requires
        stream_state_ok(loaded, pending),
    ensures
        ({
            let n = if budget < pending.len() { budget as int } else { pending.len() as int };
            stream_state_ok(insert_all(loaded, pending.take(n), n), pending.skip(n))
        }),
{
    let n = if budget < pending.len() { budget as int } else { pending.len() as int };
    let sent = pending.take(n);
    let rest = pending.skip(n);
    lemma_insert_all_no_dup(loaded, sent, n);
    lemma_insert_all_contains(loaded, sent, n);
    assert(sent.take(n) == sent);
    assert forall|i: int, j: int| 0 <= i < rest.len() && 0 <= j < rest.len() && i != j implies rest[i] != rest[j] by {
        assert(rest[i] == pending[i + n]);
        assert(rest[j] == pending[j + n]);
    }
    assert forall|k: (i32, i32)| #[trigger] rest.contains(k) implies !insert_all(loaded, sent, n).contains(k) by {
        let w = choose|w: int| 0 <= w < rest.len() && #[trigger] rest[w] == k;
        assert(pending[w + n] == k);
        assert(pending.contains(k));
        if sent.contains(k) {
            let v = choose|v: int| 0 <= v < sent.len() && #[trigger] sent[v] == k;
            assert(pending[v] == k);
        }
    }
}

} // verus!
