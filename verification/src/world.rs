//! Game-loop bookkeeping on block and chunk coordinates: block face
//! offsets, chunk coordinates, container window ids, the chunks within
//! simulation distance, and when dirty chunks are flushed.

use vstd::prelude::*;

verus! {

/// The (dx, dy, dz) offset of a block face: 0 down, 1 up, 2 north (-z),
/// 3 south (+z), 4 west (-x), 5 east (+x); no offset for anything else.
pub open spec fn face_offset_spec(direction: i32) -> (i32, i32, i32) {
    if direction == 0 {
        (0i32, -1i32, 0i32)
    } else if direction == 1 {
        (0, 1, 0)
    } else if direction == 2 {
        (0i32, 0i32, -1i32)
    } else if direction == 3 {
        (0, 0, 1)
    } else if direction == 4 {
        (-1i32, 0i32, 0i32)
    } else if direction == 5 {
        (1, 0, 0)
    } else {
        (0, 0, 0)
    }
}

/// Returns the (dx, dy, dz) offset for a block face direction.
pub fn face_offset(direction: i32) -> (r: (i32, i32, i32))
    ensures
        r == face_offset_spec(direction),
{
    match direction {
        0 => (0, -1, 0),
        1 => (0, 1, 0),
        2 => (0, 0, -1),
        3 => (0, 0, 1),
        4 => (-1, 0, 0),
        5 => (1, 0, 0),
        _ => (0, 0, 0),
    }
}

/// Each face offset moves one block along exactly one axis, and opposite
/// faces (0/1, 2/3, 4/5) move in opposite directions.
pub proof fn face_offsets_are_unit_and_opposite(d: i32)
    requires
        0 <= d <= 5,
    ensures
        ({
            let (x, y, z) = face_offset_spec(d);
            &&& (x != 0 ==> y == 0 && z == 0)
            &&& (y != 0 ==> x == 0 && z == 0)
            &&& (z != 0 ==> x == 0 && y == 0)
            &&& x * x + y * y + z * z == 1
        }),
        d % 2 == 0 ==> ({
            let (x, y, z) = face_offset_spec(d);
            let (x2, y2, z2) = face_offset_spec((d + 1) as i32);
            x + x2 == 0 && y + y2 == 0 && z + z2 == 0
        }),
{
}

/// The block a placement against face `direction` of block (`x`, `y`, `z`)
/// lands in: the neighbour across that face.
pub fn placement_target(x: i32, y: i32, z: i32, direction: i32) -> (r: (i32, i32, i32))
    requires
        i32::MIN < x < i32::MAX,
        i32::MIN < y < i32::MAX,
        i32::MIN < z < i32::MAX,
    ensures
        r.0 == x + face_offset_spec(direction).0,
        r.1 == y + face_offset_spec(direction).1,
        r.2 == z + face_offset_spec(direction).2,
{
    let (dx, dy, dz) = face_offset(direction);
    (x + dx, y + dy, z + dz)
}

/// The chunk coordinate of a block coordinate (16 blocks per chunk).
pub open spec fn chunk_of_spec(block: int) -> int {
    if block >= 0 { block / 16 } else { -((-block - 1) / 16) - 1 }
}

/// The chunk coordinate of a block coordinate: `block >> 4`.
pub fn chunk_of(block: i32) -> (r: i32)
    ensures
        r == chunk_of_spec(block as int),
        16 * r <= block < 16 * r + 16,
{
    let r = block >> 4;
    assert(block >> 4u32 == if block >= 0 { block / 16 } else { -((-(block as int) - 1) / 16) - 1 }) by (bit_vector);
    r
}

/// Container window ids: 1..=127, cycling.
pub struct WindowIds {
    next_window_id: u8,
}

impl WindowIds {
    /// The id the next container window gets.
    pub closed spec fn next(&self) -> u8 {
        self.next_window_id
    }

    /// Ids start at 1.
    pub fn new() -> (r: WindowIds)
        ensures
            r.next() == 1,
    {
        WindowIds { next_window_id: 1 }
    }

    /// Allocates the next container window id; after 127 the ids start
    /// again at 1.
    pub fn alloc_window_id(&mut self) -> (r: u8)
        ensures
            r == old(self).next(),
            final(self).next() == if r >= 127 { 1 } else { r + 1 },
    {
        let id = self.next_window_id;
        self.next_window_id = if id >= 127 { 1 } else { id + 1 };
        id
    }
}

/// Starting from 1, allocated window ids stay within 1..=127 (window 0 is
/// the player inventory).
pub proof fn window_ids_stay_in_range(next: u8)
    requires
        1 <= next <= 127,
    ensures
        ({
            let after = if next >= 127 { 1u8 } else { (next + 1) as u8 };
            1 <= after <= 127
        }),
{
}

/// Whether dirty chunks are flushed this tick: every `interval` ticks,
/// never when the interval is zero.
pub fn flush_due(tick: u64, interval: u64) -> (r: bool)
    ensures
        r == (interval != 0 && tick % interval == 0),
{
    interval != 0 && tick % interval == 0
}

/// Whether chunk `c` lies within `r` chunks (square distance) of `center`.
pub open spec fn within(c: (i32, i32), center: (i32, i32), r: int) -> bool {
    center.0 - r <= c.0 <= center.0 + r && center.1 - r <= c.1 <= center.1 + r
}

/// The chunks within simulation distance `sd` of any player chunk.
pub open spec fn active_set(players: Seq<(i32, i32)>, sd: int) -> Set<(i32, i32)> {
    Set::new(|c: (i32, i32)| exists|p: int| 0 <= p < players.len() && within(c, #[trigger] players[p], sd))
}

/// Player chunk coordinates leave room for the simulation distance.
pub open spec fn coords_in_range(players: Seq<(i32, i32)>, sd: int) -> bool {
    forall|p: int| 0 <= p < players.len() ==> {
        &&& i32::MIN + sd <= (#[trigger] players[p]).0 <= i32::MAX - sd
        &&& i32::MIN + sd <= players[p].1 <= i32::MAX - sd
    }
}

/// The chunks within simulation distance of any player; only these
/// receive tick processing.
pub struct ActiveChunks {
    chunks: Vec<(i32, i32)>,
}

impl ActiveChunks {
    /// The set of active chunks.
    pub closed spec fn set(&self) -> Set<(i32, i32)> {
        self.chunks@.to_set()
    }

    /// No chunk is active.
    pub fn new() -> (r: ActiveChunks)
        ensures
            r.set() == Set::<(i32, i32)>::empty(),
    {
        let r = ActiveChunks { chunks: Vec::new() };
        assert(r.chunks@.to_set() =~= Set::<(i32, i32)>::empty());
        r
    }

    /// Recomputes the active chunks from the players' chunk coordinates:
    /// every chunk within `simulation_distance` of a player.
    pub fn rebuild(&mut self, players: &[(i32, i32)], simulation_distance: i32)
        requires
            0 <= simulation_distance,
            coords_in_range(players@, simulation_distance as int),
        ensures
            final(self).set() == active_set(players@, simulation_distance as int),
    {
        let sd = simulation_distance;
        let mut chunks: Vec<(i32, i32)> = Vec::new();
        let mut p: usize = 0;
        while p < players.len()
            invariant
                p <= players@.len(),
                0 <= sd,
                coords_in_range(players@, sd as int),
                forall|c: (i32, i32)| chunks@.contains(c) <==> exists|q: int| 0 <= q < p && within(c, #[trigger] players@[q], sd as int),
            decreases players@.len() - p,
        {
            let (cx, cz) = players[p];
            let ghost before = chunks@;
            let mut dx: i64 = -(sd as i64);
            while dx <= sd as i64
                invariant
                    -sd <= dx <= sd + 1,
                    0 <= sd,
                    i32::MIN + sd <= cx <= i32::MAX - sd,
                    i32::MIN + sd <= cz <= i32::MAX - sd,
                    forall|c: (i32, i32)| chunks@.contains(c) <==> (before.contains(c) || (within(c, (cx, cz), sd as int) && c.0 < cx + dx)),
                decreases sd + 1 - dx,
            {
                let ghost row_before = chunks@;
                let mut dz: i64 = -(sd as i64);
                while dz <= sd as i64
                    invariant
                        -sd <= dx <= sd,
                        -sd <= dz <= sd + 1,
                        0 <= sd,
                        i32::MIN + sd <= cx <= i32::MAX - sd,
                        i32::MIN + sd <= cz <= i32::MAX - sd,
                        forall|c: (i32, i32)| chunks@.contains(c) <==> (row_before.contains(c) || (c.0 == cx + dx && cz - sd <= c.1 < cz + dz)),
                    decreases sd + 1 - dz,
                {
                    let ghost prev = chunks@;
                    chunks.push(((cx as i64 + dx) as i32, (cz as i64 + dz) as i32));
                    assert forall|c: (i32, i32)| chunks@.contains(c) <==> (prev.contains(c) || c == ((cx + dx) as i32, (cz + dz) as i32)) by {
                        if chunks@.contains(c) {
                            let k = choose|k: int| 0 <= k < chunks@.len() && chunks@[k] == c;
                            if k < prev.len() {
                                assert(prev[k] == c);
                            }
                        }
                        if prev.contains(c) {
                            let k = choose|k: int| 0 <= k < prev.len() && prev[k] == c;
                            assert(chunks@[k] == c);
                        }
                        if c == ((cx + dx) as i32, (cz + dz) as i32) {
                            assert(chunks@[prev.len() as int] == c);
                        }
                    }
                    dz = dz + 1;
                }
                dx = dx + 1;
            }
            assert forall|c: (i32, i32)| chunks@.contains(c) <==> exists|q: int| 0 <= q < p + 1 && within(c, #[trigger] players@[q], sd as int) by {
                if within(c, players@[p as int], sd as int) {
                    assert(players@[p as int] == (cx, cz));
                }
                if exists|q: int| 0 <= q < p + 1 && within(c, #[trigger] players@[q], sd as int) {
                    let q = choose|q: int| 0 <= q < p + 1 && within(c, #[trigger] players@[q], sd as int);
                    if q < p {
                        assert(before.contains(c));
                    }
                }
            }
            p = p + 1;
        }
        self.chunks = chunks;
        assert forall|c: (i32, i32)| self.set().contains(c) <==> active_set(players@, sd as int).contains(c) by {}
        assert(self.set() =~= active_set(players@, sd as int));
    }

    /// Whether the chunk at (cx, cz) is within simulation distance of a player.
    pub fn is_chunk_active(&self, cx: i32, cz: i32) -> (r: bool)
        ensures
            r == self.set().contains((cx, cz)),
    {
        let mut i: usize = 0;
        let mut found = false;
        while i < self.chunks.len() && !found
            invariant
                i <= self.chunks@.len(),
                found ==> self.chunks@.contains((cx, cz)),
                !found ==> forall|j: int| 0 <= j < i ==> self.chunks@[j] != (cx, cz),
            decreases self.chunks@.len() - i + (if found { 0int } else { 1int }),
        {
            let (x, z) = self.chunks[i];
            if x == cx && z == cz {
                assert(self.chunks@[i as int] == (cx, cz));
                found = true;
            } else {
                i = i + 1;
            }
        }
        found
    }
}

} // verus!
