//! Wire encoding of the flat spawn chunk: 24 sections, all air but a layer
//! of stone at y=99, plus the heightmaps that go with it.

use vstd::prelude::*;
use vstd::arithmetic::div_mod::{lemma_div_denominator, lemma_fundamental_div_mod_converse};

verus! {

/// Number of chunk sections in an overworld chunk (y = -64 to 319).
pub const SECTIONS_PER_CHUNK: usize = 24;

/// Block state id of stone.
pub const STONE: i32 = 1;

/// The section holding y=99 (y=96..111).
pub const FLOOR_SECTION: usize = 10;

/// Local y of the stone layer within the floor section.
pub const FLOOR_LOCAL_Y: usize = 3;

/// Heightmap value of every column: the floor at y=99, counted from the
/// world bottom at y=-64, plus one.
pub const FLOOR_HEIGHT: u64 = 164;

/// Heightmap entries packed whole into one long (64 / 9).
pub const HEIGHTS_PER_LONG: usize = 7;

/// Longs in a heightmap: 256 columns, 7 to a long.
pub const HEIGHTMAP_LONGS: usize = 37;

/// The low `n` bytes of `v`, most significant first.
pub open spec fn be_bytes(v: nat, n: nat) -> Seq<u8>
    decreases n,
{
    if n == 0 {
        Seq::empty()
    } else {
        be_bytes(v / 256, (n - 1) as nat).push((v % 256) as u8)
    }
}

/// The protocol's variable-length encoding of `v`: seven bits per byte, low
/// group first, the top bit set on every byte but the last.
pub open spec fn varint_bytes(v: nat) -> Seq<u8>
    decreases v,
{
    if v < 128 {
        seq![v as u8]
    } else {
        seq![(v % 128 + 128) as u8] + varint_bytes(v / 128)
    }
}

/// The bytes of a VarInt holding `value`.
pub open spec fn varint_of(value: i32) -> Seq<u8> {
    varint_bytes((value as u32) as nat)
}

/// The bytes of an all-air section: no blocks, single-value palettes of air
/// and of the plains biome.
pub open spec fn air_section_bytes() -> Seq<u8> {
    be_bytes(0, 2) + seq![0u8] + varint_of(0) + varint_of(0) + seq![0u8] + varint_of(0) + varint_of(0)
}

/// Bits per block in the floor section's block data.
pub const FLOOR_BITS_PER_BLOCK: u8 = 1;

/// Longs in the floor section's block data: 4096 blocks at one bit each.
pub const FLOOR_DATA_LONGS: usize = 64;

/// The `i`th long of the floor section's block data: one bit per block,
/// 4 longs per layer, every bit set (stone, palette index 1) on the floor
/// layer only.
pub open spec fn floor_long(i: int) -> u64 {
    if i / 4 == FLOOR_LOCAL_Y as int {
        0xFFFF_FFFF_FFFF_FFFFu64
    } else {
        0u64
    }
}

/// The palette index of block `b` of the floor section (blocks ordered x,
/// then z, then y): bit `b % 64` of long `b / 64`.
pub open spec fn floor_block(b: int) -> u64 {
    (floor_long(b / 64) >> ((b % 64) as u64)) & 1u64
}

/// The bytes of the first `n` longs of the floor section's block data.
pub open spec fn floor_longs_bytes(n: nat) -> Seq<u8>
    decreases n,
{
    if n == 0 {
        Seq::empty()
    } else {
        floor_longs_bytes((n - 1) as nat) + be_bytes(floor_long(n - 1) as nat, 8)
    }
}

/// The bytes of the floor section: 256 stone blocks, a two-entry palette
/// (air, stone) at 1 bit per block in 64 longs, then the plains biome.
pub open spec fn floor_section_bytes() -> Seq<u8> {
    be_bytes(256, 2) + seq![FLOOR_BITS_PER_BLOCK] + varint_of(2) + varint_of(0) + varint_of(STONE) + varint_of(
        FLOOR_DATA_LONGS as i32,
    ) + floor_longs_bytes(FLOOR_DATA_LONGS as nat) + seq![0u8] + varint_of(0) + varint_of(0)
}

/// The bytes of section `s`.
pub open spec fn section_bytes(s: int) -> Seq<u8> {
    if s == FLOOR_SECTION as int {
        floor_section_bytes()
    } else {
        air_section_bytes()
    }
}

/// The bytes of the first `n` sections, bottom up.
pub open spec fn sections_bytes(n: nat) -> Seq<u8>
    decreases n,
{
    if n == 0 {
        Seq::empty()
    } else {
        sections_bytes((n - 1) as nat) + section_bytes(n - 1)
    }
}

/// Appends the VarInt encoding of `value`.
pub fn write_varint(buf: &mut Vec<u8>, value: i32)
    ensures
        final(buf)@ == old(buf)@ + varint_of(value),
{
    let mut v: u32 = value as u32;
    while v >= 128
        invariant
            old(buf)@ + varint_of(value) == buf@ + varint_bytes(v as nat),
        decreases v,
    {
        let byte: u8 = (v % 128 + 128) as u8;
        proof {
            assert(varint_bytes(v as nat) == seq![byte] + varint_bytes((v / 128) as nat));
            assert(buf@ + varint_bytes(v as nat) == buf@.push(byte) + varint_bytes((v / 128) as nat));
        }
        buf.push(byte);
        v = v / 128;
    }
    proof {
        assert(varint_bytes(v as nat) == seq![v as u8]);
    }
    buf.push(v as u8);
}

/// Appends the low `n` bytes of `v`, most significant first.
pub fn write_be(buf: &mut Vec<u8>, v: u64, n: u8)
    ensures
        final(buf)@ == old(buf)@ + be_bytes(v as nat, n as nat),
    decreases n,
{
    if n > 0 {
        write_be(buf, v / 256, n - 1);
        buf.push((v % 256) as u8);
        proof {
            assert(be_bytes(v as nat, n as nat) == be_bytes((v / 256) as nat, (n - 1) as nat).push((v % 256) as u8));
        }
    } else {
        assert(old(buf)@ + be_bytes(v as nat, 0) == old(buf)@);
    }
}

/// Appends an all-air section.
pub fn encode_air_section(buf: &mut Vec<u8>)
    ensures
        final(buf)@ == old(buf)@ + air_section_bytes(),
{
    let ghost start = buf@;
    write_be(buf, 0, 2);
    buf.push(0u8);
    write_varint(buf, 0);
    write_varint(buf, 0);
    buf.push(0u8);
    write_varint(buf, 0);
    write_varint(buf, 0);
    assert(buf@ =~= start + air_section_bytes());
}

/// Appends the floor section: a full layer of stone at local y 3, with a
/// two-entry palette (air, stone) at 1 bit per block in 64 longs.
pub fn encode_floor_section(buf: &mut Vec<u8>)
    ensures
        final(buf)@ == old(buf)@ + floor_section_bytes(),
{
    let ghost start = buf@;
    write_be(buf, 256, 2);
    buf.push(FLOOR_BITS_PER_BLOCK);
    write_varint(buf, 2);
    write_varint(buf, 0);
    write_varint(buf, STONE);
    write_varint(buf, FLOOR_DATA_LONGS as i32);
    let ghost header = buf@;
    let mut i: usize = 0;
    for y in 0..16usize
        invariant
            i == y * 4,
            buf@ == header + floor_longs_bytes(i as nat),
    {
        for x in 0..4usize
            invariant
                i == y * 4 + x,
                y < 16,
                buf@ == header + floor_longs_bytes(i as nat),
        {
            let long_value: u64 = if y == FLOOR_LOCAL_Y {
                0xFFFF_FFFF_FFFF_FFFFu64
            } else {
                0u64
            };
            proof {
                assert((i as int) / 4 == y as int);
                assert(long_value == floor_long(i as int));
            }
            write_be(buf, long_value, 8);
            proof {
                assert(floor_longs_bytes((i + 1) as nat) == floor_longs_bytes(i as nat) + be_bytes(
                    floor_long(i as int) as nat,
                    8,
                ));
                assert(buf@ =~= header + floor_longs_bytes((i + 1) as nat));
            }
            i = i + 1;
        }
    }
    buf.push(0u8);
    write_varint(buf, 0);
    write_varint(buf, 0);
    assert(buf@ =~= start + floor_section_bytes());
}

/// Encodes the 24 sections of the flat chunk: air everywhere but the
/// section holding the stone floor.
pub fn encode_chunk_sections() -> (r: Vec<u8>)
    ensures
        r@ == sections_bytes(SECTIONS_PER_CHUNK as nat),
{
    let mut buf: Vec<u8> = Vec::new();
    for section in 0..SECTIONS_PER_CHUNK
        invariant
            buf@ == sections_bytes(section as nat),
    {
        let ghost before = buf@;
        if section == FLOOR_SECTION {
            encode_floor_section(&mut buf);
        } else {
            encode_air_section(&mut buf);
        }
        assert(sections_bytes((section + 1) as nat) == before + section_bytes(section as int));
    }
    buf
}

/// `count` heightmap entries of the floor height, packed 9 bits apiece,
/// the first in the lowest bits.
pub open spec fn packed_heights(count: nat) -> int
    decreases count,
{
    if count == 0 {
        0
    } else {
        packed_heights((count - 1) as nat) * 512 + FLOOR_HEIGHT
    }
}

/// The `j`th heightmap long: seven entries, four in the last one.
pub open spec fn heightmap_long(j: int) -> i64 {
    if j < HEIGHTMAP_LONGS as int - 1 {
        packed_heights(HEIGHTS_PER_LONG as nat) as i64
    } else {
        packed_heights((256 - (HEIGHTMAP_LONGS as int - 1) * HEIGHTS_PER_LONG as int) as nat) as i64
    }
}

/// `512` to the power `k`: the place of the `k`th 9-bit field.
pub open spec fn field_place(k: nat) -> int
    decreases k,
{
    if k == 0 {
        1
    } else {
        field_place((k - 1) as nat) * 512
    }
}

proof fn lemma_packed_heights_grow(a: nat, b: nat)
    requires
        a <= b,
    ensures
        0 <= packed_heights(a) <= packed_heights(b),
    decreases b,
{
    if b > 0 {
        if a < b {
            lemma_packed_heights_grow(a, (b - 1) as nat);
        } else {
            lemma_packed_heights_grow((b - 1) as nat, (b - 1) as nat);
        }
    }
}

/// Packs `count` floor-height entries into one long.
fn pack_heights(count: usize) -> (r: i64)
    requires
        count <= HEIGHTS_PER_LONG,
    ensures
        r == packed_heights(count as nat),
{
    proof {
        assert(packed_heights(0) == 0int);
        assert(packed_heights(1) == 164int);
        assert(packed_heights(2) == 84132int);
        assert(packed_heights(3) == 43075748int);
        assert(packed_heights(4) == 22054783140int);
        assert(packed_heights(5) == 11292048967844int);
        assert(packed_heights(6) == 5781529071536292int);
        assert(packed_heights(7) == 2960142884626581668int);
    }
    let mut v: i64 = 0;
    let mut k: usize = 0;
    while k < count
        invariant
            k <= count <= 7,
            v == packed_heights(k as nat),
            packed_heights(7) == 2960142884626581668int,
        decreases count - k,
    {
        proof {
            lemma_packed_heights_grow((k + 1) as nat, 7);
        }
        v = v * 512 + 164;
        k = k + 1;
    }
    v
}

/// Builds one heightmap: 256 columns at the floor height, 9 bits each,
/// 7 whole entries to a long (the last long holds 4), 37 longs.
pub fn build_heightmap_longs() -> (r: Vec<i64>)
    ensures
        r@.len() == HEIGHTMAP_LONGS,
        forall|j: int| 0 <= j < HEIGHTMAP_LONGS ==> #[trigger] r@[j] == heightmap_long(j),
{
    let mut longs: Vec<i64> = Vec::new();
    let mut j: usize = 0;
    while j < HEIGHTMAP_LONGS
        invariant
            j <= HEIGHTMAP_LONGS,
            longs@.len() == j,
            forall|t: int| 0 <= t < j ==> #[trigger] longs@[t] == heightmap_long(t),
        decreases HEIGHTMAP_LONGS - j,
    {
        let count: usize = if j < HEIGHTMAP_LONGS - 1 {
            HEIGHTS_PER_LONG
        } else {
            256 - (HEIGHTMAP_LONGS - 1) * HEIGHTS_PER_LONG
        };
        let v = pack_heights(count);
        longs.push(v);
        j = j + 1;
    }
    longs
}

/// The two heightmaps the client needs.
pub struct Heightmaps {
    /// Highest motion-blocking block per column.
    pub motion_blocking: Vec<i64>,
    /// Highest non-air block per column.
    pub world_surface: Vec<i64>,
}

/// Builds the heightmaps of the flat chunk: both the same.
pub fn build_heightmaps() -> (r: Heightmaps)
    ensures
        r.motion_blocking@.len() == HEIGHTMAP_LONGS,
        r.world_surface@ == r.motion_blocking@,
        forall|j: int| 0 <= j < HEIGHTMAP_LONGS ==> #[trigger] r.motion_blocking@[j] == heightmap_long(j),
{
    let longs = build_heightmap_longs();
    let copy = copy_longs(&longs);
    Heightmaps { motion_blocking: copy, world_surface: longs }
}

fn copy_longs(v: &Vec<i64>) -> (r: Vec<i64>)
    ensures
        r@ == v@,
{
    let mut out: Vec<i64> = Vec::new();
    for i in 0..v.len()
        invariant
            out@ == v@.take(i as int),
    {
        out.push(v[i]);
        assert(v@.take(i as int + 1) == v@.take(i as int).push(v@[i as int]));
    }
    assert(v@.take(v@.len() as int) == v@);
    out
}

/// A block entity carried with a chunk.
pub struct ChunkBlockEntity {
    /// Packed section-relative x (high nibble) and z (low nibble).
    pub packed_xz: u8,
    /// World y.
    pub y: i16,
    /// Block entity type id.
    pub type_id: i32,
}

/// The chunk-data packet for one chunk column.
pub struct MapChunk {
    /// Chunk x.
    pub x: i32,
    /// Chunk z.
    pub z: i32,
    /// Heightmaps.
    pub heightmaps: Heightmaps,
    /// Encoded sections.
    pub chunk_data: Vec<u8>,
    /// Block entities in the chunk.
    pub block_entities: Vec<ChunkBlockEntity>,
    /// Sections with sky light data.
    pub sky_light_mask: Vec<i64>,
    /// Sections with block light data.
    pub block_light_mask: Vec<i64>,
    /// Sections whose sky light is all zero.
    pub empty_sky_light_mask: Vec<i64>,
    /// Sections whose block light is all zero.
    pub empty_block_light_mask: Vec<i64>,
    /// Sky light arrays.
    pub sky_light: Vec<Vec<u8>>,
    /// Block light arrays.
    pub block_light: Vec<Vec<u8>>,
}

/// Builds the chunk packet for chunk (`chunk_x`, `chunk_z`): the flat
/// sections, their heightmaps, no block entities and no light data.
pub fn build_empty_chunk(chunk_x: i32, chunk_z: i32) -> (r: MapChunk)
    ensures
        r.x == chunk_x,
        r.z == chunk_z,
        r.chunk_data@ == sections_bytes(SECTIONS_PER_CHUNK as nat),
        r.heightmaps.motion_blocking@.len() == HEIGHTMAP_LONGS,
        r.heightmaps.world_surface@ == r.heightmaps.motion_blocking@,
        forall|j: int| 0 <= j < HEIGHTMAP_LONGS ==> #[trigger] r.heightmaps.motion_blocking@[j] == heightmap_long(j),
        r.block_entities@.len() == 0,
        r.sky_light_mask@.len() == 0,
        r.block_light_mask@.len() == 0,
        r.empty_sky_light_mask@.len() == 0,
        r.empty_block_light_mask@.len() == 0,
        r.sky_light@.len() == 0,
        r.block_light@.len() == 0,
{
    let chunk_data = encode_chunk_sections();
    let heightmaps = build_heightmaps();
    MapChunk {
        x: chunk_x,
        z: chunk_z,
        heightmaps,
        chunk_data,
        block_entities: Vec::new(),
        sky_light_mask: Vec::new(),
        block_light_mask: Vec::new(),
        empty_sky_light_mask: Vec::new(),
        empty_block_light_mask: Vec::new(),
        sky_light: Vec::new(),
        block_light: Vec::new(),
    }
}

proof fn lemma_field_place_positive(k: nat)
    ensures
        field_place(k) > 0,
    decreases k,
{
    if k > 0 {
        lemma_field_place_positive((k - 1) as nat);
    }
}

proof fn lemma_packed_field(c: nat, k: nat)
    requires
        k < c,
    ensures
        (packed_heights(c) / field_place(k)) % 512 == FLOOR_HEIGHT,
    decreases c,
{
    let x = packed_heights(c);
    let q = packed_heights((c - 1) as nat);
    lemma_packed_heights_grow(0, (c - 1) as nat);
    lemma_fundamental_div_mod_converse(x, 512, q, FLOOR_HEIGHT as int);
    if k == 0 {
        assert(x / 1 == x);
    } else {
        lemma_field_place_positive((k - 1) as nat);
        lemma_div_denominator(x, 512, field_place((k - 1) as nat));
        assert(512 * field_place((k - 1) as nat) == field_place(k));
        lemma_packed_field((c - 1) as nat, (k - 1) as nat);
    }
}

/// Every one of the 256 columns of a heightmap reads the floor height in
/// its 9-bit field: column `i` is field `i % 7` of long `i / 7`.
pub proof fn heightmap_columns_read_floor_height(i: int)
    requires
        0 <= i < 256,
    ensures
        0 <= i / 7 < HEIGHTMAP_LONGS,
        (heightmap_long(i / 7) as int / field_place((i % 7) as nat)) % 512 == FLOOR_HEIGHT,
{
    assert(packed_heights(0) == 0int);
    assert(packed_heights(1) == 164int);
    assert(packed_heights(2) == 84132int);
    assert(packed_heights(3) == 43075748int);
    assert(packed_heights(4) == 22054783140int);
    assert(packed_heights(5) == 11292048967844int);
    assert(packed_heights(6) == 5781529071536292int);
    assert(packed_heights(7) == 2960142884626581668int);
    let j = i / 7;
    let k = i % 7;
    if j < 36 {
        assert(heightmap_long(j) as int == packed_heights(7));
        lemma_packed_field(7, k as nat);
    } else {
        assert(k < 4);
        assert(heightmap_long(j) as int == packed_heights(4));
        lemma_packed_field(4, k as nat);
    }
}

proof fn lemma_be_bytes_len(v: nat, n: nat)
    ensures
        be_bytes(v, n).len() == n,
    decreases n,
{
    if n > 0 {
        lemma_be_bytes_len(v / 256, (n - 1) as nat);
    }
}

proof fn lemma_floor_longs_len(n: nat)
    ensures
        floor_longs_bytes(n).len() == 8 * n,
    decreases n,
{
    if n > 0 {
        lemma_floor_longs_len((n - 1) as nat);
        lemma_be_bytes_len(floor_long(n - 1) as nat, 8);
    }
}

proof fn lemma_section_lengths()
    ensures
        air_section_bytes().len() == 8,
        floor_section_bytes().len() == 522,
{
    lemma_be_bytes_len(0, 2);
    lemma_be_bytes_len(256, 2);
    lemma_floor_longs_len(64);
    assert(varint_of(0) == seq![0u8]);
    assert(varint_of(2) == seq![2u8]);
    assert(varint_of(STONE) == seq![1u8]);
    assert(varint_of(FLOOR_DATA_LONGS as i32) == seq![64u8]);
}

proof fn lemma_sections_len(n: nat)
    ensures
        sections_bytes(n).len() == 8 * n + (if n > FLOOR_SECTION { 514int } else { 0int }),
    decreases n,
{
    lemma_section_lengths();
    if n > 0 {
        lemma_sections_len((n - 1) as nat);
    }
}

/// The encoded chunk is its 24 sections end to end: 23 all-air sections of
/// 8 bytes and the floor section of 522 bytes.
pub proof fn chunk_data_is_24_sections()
    ensures
        sections_bytes(SECTIONS_PER_CHUNK as nat).len() == 23 * 8 + 522,
        air_section_bytes().len() == 8,
        floor_section_bytes().len() == 522,
{
    lemma_sections_len(SECTIONS_PER_CHUNK as nat);
    lemma_section_lengths();
}

/// The floor section holds stone exactly on its floor layer: block
/// (`x`, `y`, `z`), at index `(y * 16 + z) * 16 + x`, has palette index 1
/// when `y` is 3 and 0 otherwise.
pub proof fn floor_section_is_one_stone_layer(x: int, y: int, z: int)
    requires
        0 <= x < 16,
        0 <= y < 16,
        0 <= z < 16,
    ensures
        floor_block((y * 16 + z) * 16 + x) == (if y == FLOOR_LOCAL_Y as int { 1u64 } else { 0u64 }),
{
    let b = (y * 16 + z) * 16 + x;
    let l = b / 64;
    let sh = (b % 64) as u64;
    assert(b == y * 256 + (z * 16 + x));
    assert(l / 4 == y) by {
        lemma_fundamental_div_mod_converse(b, 64, y * 4 + z / 4, (z % 4) * 16 + x);
        lemma_fundamental_div_mod_converse(l, 4, y, z / 4);
    }
    assert(sh < 64);
    let v = floor_long(l);
    if y == FLOOR_LOCAL_Y as int {
        assert(v == 0xFFFF_FFFF_FFFF_FFFFu64);
        assert((0xFFFF_FFFF_FFFF_FFFFu64 >> sh) & 1u64 == 1u64) by (bit_vector)
            requires
                sh < 64,
        ;
    } else {
        assert(v == 0u64);
        assert((0u64 >> sh) & 1u64 == 0u64) by (bit_vector);
    }
}

} // verus!
