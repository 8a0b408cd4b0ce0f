//! Region files: the chunks of a 32x32 chunk grid, each compressed and
//! stored at whole 4096-byte sectors behind a table of their locations.

use crate::block_definitions::Block;
use crate::bresenham::Point;
use crate::chunk::{
    decoded_block, lemma_section_round_trip, palette_of, section_blocks, section_data, section_pos,
    section_recorded, END_SECTION, MIN_SECTION,
};
use crate::chunk_nbt::{chunk_nbt, chunk_sections, encode_chunk};
use crate::nbt::{be32, push_be32, push_byte};
use crate::world_editor::{chunk_in_range, chunk_of, occupant, storable, WorldEditor};
use vstd::arithmetic::div_mod::lemma_fundamental_div_mod_converse;
use vstd::prelude::*;

verus! {

/// Bytes in one sector of a region file.
pub const SECTOR_SIZE: usize = 4096;

/// The compression scheme tag of zlib.
pub const ZLIB_SCHEME: u8 = 2;

/// What zlib compression makes of `data`.
pub uninterp spec fn zlib_of(data: Seq<u8>) -> Seq<u8>;

/// Relies on `miniz_oxide::deflate::compress_to_vec_zlib`: the zlib stream
/// of `data` at level 6, which depends on `data` alone.
#[verifier::external_body]
fn zlib_compress(data: &Vec<u8>) -> (r: Vec<u8>)
    ensures
        r@ == zlib_of(data@),
{
    miniz_oxide::deflate::compress_to_vec_zlib(data.as_slice(), 6)
}

/// The region that holds chunk `c`.
pub open spec fn region_of(c: (int, int)) -> (int, int) {
    (c.0 / 32, c.1 / 32)
}

/// The slot of chunk `c` in its region's location table.
pub open spec fn slot_of(c: (int, int)) -> int {
    c.0 % 32 + 32 * (c.1 % 32)
}

/// Sectors taken by a chunk record with a payload of `len` bytes: a 4-byte
/// length, the scheme byte, the payload, padded to whole sectors.
pub open spec fn sectors_for(len: int) -> int {
    (len + 5 + 4095) / 4096
}

/// `n` zero bytes.
pub open spec fn zeros(n: int) -> Seq<u8> {
    Seq::new(n as nat, |i: int| 0u8)
}

/// A chunk record: the payload length plus one, the scheme, the payload and
/// its padding.
pub open spec fn chunk_record(p: Seq<u8>) -> Seq<u8> {
    be32(p.len() as int + 1) + seq![ZLIB_SCHEME] + p + zeros(sectors_for(p.len() as int) * 4096 - p.len() - 5)
}

/// A compressed chunk on its way into a region file.
pub struct RegionChunk {
    pub cx: i32,
    pub cz: i32,
    pub payload: Vec<u8>,
}

/// A compressed chunk in spec form: its position and payload.
pub open spec fn chunk_view(c: RegionChunk) -> ((int, int), Seq<u8>) {
    ((c.cx as int, c.cz as int), c.payload@)
}

/// Compressed chunks in spec form.
pub open spec fn chunk_views(cs: Seq<RegionChunk>) -> Seq<((int, int), Seq<u8>)> {
    cs.map_values(|c: RegionChunk| chunk_view(c))
}

/// The sector at which record `k` starts: records follow the two header
/// sectors in order.
pub open spec fn offset_at(cs: Seq<((int, int), Seq<u8>)>, k: int) -> int
    decreases k,
{
    if k <= 0 {
        2
    } else {
        offset_at(cs, k - 1) + sectors_for(cs[k - 1].1.len() as int)
    }
}

/// The location table after the first `k` records: each slot holds the
/// record's sector offset times 256 plus its sector count; empty slots
/// hold zero.
pub open spec fn table_at(cs: Seq<((int, int), Seq<u8>)>, k: int) -> Seq<int>
    decreases k,
{
    if k <= 0 {
        Seq::new(1024, |i: int| 0int)
    } else {
        table_at(cs, k - 1).update(
            slot_of(cs[k - 1].0),
            offset_at(cs, k - 1) * 256 + sectors_for(cs[k - 1].1.len() as int),
        )
    }
}

/// The location table as big-endian words.
pub open spec fn table_bytes(t: Seq<int>) -> Seq<u8>
    decreases t.len(),
{
    if t.len() == 0 {
        Seq::empty()
    } else {
        table_bytes(t.drop_last()) + be32(t.last())
    }
}

/// The chunk records, in order.
pub open spec fn records(cs: Seq<((int, int), Seq<u8>)>) -> Seq<u8>
    decreases cs.len(),
{
    if cs.len() == 0 {
        Seq::empty()
    } else {
        records(cs.drop_last()) + chunk_record(cs.last().1)
    }
}

/// Record `k` fits the location table: at most 255 sectors, ending within
/// the 24-bit sector range.
pub open spec fn record_fits(cs: Seq<((int, int), Seq<u8>)>, k: int) -> bool {
    sectors_for(cs[k].1.len() as int) <= 255 && offset_at(cs, k) + sectors_for(cs[k].1.len() as int)
        <= 0x100_0000
}

/// Every record fits the location table.
pub open spec fn region_fits(cs: Seq<((int, int), Seq<u8>)>) -> bool {
    forall|k: int| 0 <= k < cs.len() ==> #[trigger] record_fits(cs, k)
}

/// A region file: the location table, a table of zero timestamps, and the
/// chunk records in order.
pub open spec fn region_bytes(cs: Seq<((int, int), Seq<u8>)>) -> Seq<u8> {
    table_bytes(table_at(cs, cs.len() as int)) + zeros(4096) + records(cs)
}

/// Why a region file could not be laid out.
#[derive(Debug, Clone, Copy, PartialEq, Eq, Structural)]
pub enum RegionError {
    /// The chunk's record does not fit the location table.
    ChunkTooLarge { cx: i32, cz: i32 },
}

/// The slot of chunk `(cx, cz)` in its region's location table.
fn chunk_slot(cx: i32, cz: i32) -> (r: usize)
    ensures
        r == slot_of((cx as int, cz as int)),
        r < 1024,
{
    let ux: i64 = cx as i64 + 0x8000_0000;
    let uz: i64 = cz as i64 + 0x8000_0000;
    proof {
        vstd::arithmetic::div_mod::lemma_fundamental_div_mod(cx as int, 32);
        vstd::arithmetic::div_mod::lemma_mod_bound(cx as int, 32);
        vstd::arithmetic::div_mod::lemma_fundamental_div_mod(cz as int, 32);
        vstd::arithmetic::div_mod::lemma_mod_bound(cz as int, 32);
        lemma_fundamental_div_mod_converse(ux as int, 32, cx as int / 32 + 0x400_0000, cx as int % 32);
        lemma_fundamental_div_mod_converse(uz as int, 32, cz as int / 32 + 0x400_0000, cz as int % 32);
    }
    ((ux % 32) + 32 * (uz % 32)) as usize
}

/// Lays out a region file from its compressed chunks, in the given order.
/// Fails, naming the first chunk that does not fit, when a record would
/// take more than 255 sectors or end past the table's sector range.
pub fn build_region(chunks: &Vec<RegionChunk>) -> (r: Result<Vec<u8>, RegionError>)
    ensures
        r is Ok <==> region_fits(chunk_views(chunks@)),
        r matches Ok(b) ==> b@ == region_bytes(chunk_views(chunks@)),
        r matches Err(RegionError::ChunkTooLarge { cx, cz }) ==> exists|k: int|
            0 <= k < chunks@.len() && chunks@[k].cx == cx && chunks@[k].cz == cz && !record_fits(
                chunk_views(chunks@),
                k,
            ) && forall|j: int|
                0 <= j < k ==> #[trigger] record_fits(chunk_views(chunks@), j),
{
    let ghost cs = chunk_views(chunks@);
    let mut table: Vec<u64> = Vec::new();
    let mut s: usize = 0;
    while s < 1024
        invariant
            s <= 1024,
            table@.len() == s,
            forall|i: int| 0 <= i < s ==> table@[i] == 0,
        decreases 1024 - s,
    {
        table.push(0);
        s = s + 1;
    }
    assert(table@.map_values(|v: u64| v as int) =~= table_at(cs, 0));
    let mut offset: u64 = 2;
    let mut k: usize = 0;
    while k < chunks.len()
        invariant
            k <= chunks@.len(),
            cs == chunk_views(chunks@),
            offset == offset_at(cs, k as int),
            offset <= 0x100_0000,
            table@.len() == 1024,
            table@.map_values(|v: u64| v as int) == table_at(cs, k as int),
            forall|i: int| 0 <= i < 1024 ==> #[trigger] table@[i] < 0x1_0000_0000,
            forall|j: int| 0 <= j < k ==> #[trigger] record_fits(cs, j),
        decreases chunks@.len() - k,
    {
        let c = &chunks[k];
        let len = c.payload.len();
        assert(cs[k as int].1.len() == len);
        if len > 255 * SECTOR_SIZE {
            proof {
                assert(sectors_for(len as int) > 255);
                assert(!record_fits(cs, k as int));
            }
            return Err(RegionError::ChunkTooLarge { cx: c.cx, cz: c.cz });
        }
        let sectors: u64 = ((len + 5 + 4095) / 4096) as u64;
        if sectors > 255 || offset + sectors > 0x100_0000 {
            assert(!record_fits(cs, k as int));
            return Err(RegionError::ChunkTooLarge { cx: c.cx, cz: c.cz });
        }
        let slot = chunk_slot(c.cx, c.cz);
        let ghost before = table@;
        table.set(slot, offset * 256 + sectors);
        proof {
            assert(table@.map_values(|v: u64| v as int) =~= table_at(cs, k as int + 1));
        }
        offset = offset + sectors;
        k = k + 1;
    }
    let mut out: Vec<u8> = Vec::new();
    let mut t: usize = 0;
    let ghost tv = table@.map_values(|v: u64| v as int);
    assert(tv.subrange(0, 0) =~= Seq::<int>::empty());
    while t < 1024
        invariant
            t <= 1024,
            table@.len() == 1024,
            tv == table@.map_values(|v: u64| v as int),
            forall|i: int| 0 <= i < 1024 ==> #[trigger] table@[i] < 0x1_0000_0000,
            out@ == table_bytes(tv.subrange(0, t as int)),
        decreases 1024 - t,
    {
        push_be32(&mut out, table[t] as i64);
        let ghost sub = tv.subrange(0, t + 1);
        assert(sub.drop_last() =~= tv.subrange(0, t as int));
        t = t + 1;
    }
    assert(tv.subrange(0, 1024) =~= tv);
    let ghost after_table = out@;
    let mut z: usize = 0;
    while z < SECTOR_SIZE
        invariant
            z <= 4096,
            out@ == after_table + zeros(z as int),
        decreases 4096 - z,
    {
        out.push(0);
        z = z + 1;
        assert(out@ =~= after_table + zeros(z as int));
    }
    let ghost after_times = out@;
    let mut k: usize = 0;
    assert(cs.subrange(0, 0) =~= Seq::<((int, int), Seq<u8>)>::empty());
    while k < chunks.len()
        invariant
            k <= chunks@.len(),
            cs == chunk_views(chunks@),
            forall|j: int| 0 <= j < chunks@.len() ==> #[trigger] record_fits(cs, j),
            out@ == after_times + records(cs.subrange(0, k as int)),
        decreases chunks@.len() - k,
    {
        let c = &chunks[k];
        assert(record_fits(cs, k as int));
        let ghost before = out@;
        push_record(&mut out, &c.payload);
        let ghost sub = cs.subrange(0, k + 1);
        assert(sub.drop_last() =~= cs.subrange(0, k as int));
        k = k + 1;
        assert(out@ =~= after_times + records(cs.subrange(0, k as int)));
    }
    assert(cs.subrange(0, cs.len() as int) =~= cs);
    proof {
        assert(region_fits(cs));
    }
    Ok(out)
}

/// Appends the record of one compressed chunk.
fn push_record(out: &mut Vec<u8>, payload: &Vec<u8>)
    requires
        sectors_for(payload@.len() as int) <= 255,
    ensures
        final(out)@ == old(out)@ + chunk_record(payload@),
{
    let len = payload.len();
    push_be32(out, (len + 1) as i64);
    push_byte(out, ZLIB_SCHEME);
    let ghost mid = out@;
    let mut i: usize = 0;
    while i < len
        invariant
            len == payload@.len(),
            i <= len,
            out@ == mid + payload@.subrange(0, i as int),
        decreases len - i,
    {
        out.push(payload[i]);
        i = i + 1;
        assert(out@ =~= mid + payload@.subrange(0, i as int));
    }
    assert(payload@.subrange(0, len as int) =~= payload@);
    let ghost with_payload = out@;
    let total: usize = (len + 5 + 4095) / 4096 * 4096;
    let pad: usize = total - len - 5;
    let mut j: usize = 0;
    while j < pad
        invariant
            j <= pad,
            out@ == with_payload + zeros(j as int),
        decreases pad - j,
    {
        out.push(0);
        j = j + 1;
        assert(out@ =~= with_payload + zeros(j as int));
    }
    assert(out@ =~= old(out)@ + chunk_record(payload@));
}

/// The chunks of `cs` that lie in region `r`, in order.
pub open spec fn chunks_in_region(cs: Seq<(int, int)>, r: (int, int)) -> Seq<(int, int)>
    decreases cs.len(),
{
    if cs.len() == 0 {
        Seq::empty()
    } else if region_of(cs.last()) == r {
        chunks_in_region(cs.drop_last(), r).push(cs.last())
    } else {
        chunks_in_region(cs.drop_last(), r)
    }
}

/// The regions of the chunks of `cs`, each once, in order of first
/// occurrence.
pub open spec fn region_list(cs: Seq<(int, int)>) -> Seq<(int, int)>
    decreases cs.len(),
{
    if cs.len() == 0 {
        Seq::empty()
    } else {
        let prev = region_list(cs.drop_last());
        if prev.contains(region_of(cs.last())) {
            prev
        } else {
            prev.push(region_of(cs.last()))
        }
    }
}

/// Chunk `c` of the world `m`, encoded and compressed.
#[verifier::opaque]
pub open spec fn compressed_chunk(m: Map<Point, Block>, c: (int, int)) -> ((int, int), Seq<u8>) {
    (c, zlib_of(chunk_nbt(c, chunk_sections(m, c, END_SECTION - MIN_SECTION))))
}

/// The compressed chunks of region `r` of the world `m` whose chunks, in
/// order, are `cs`.
pub open spec fn region_contents(m: Map<Point, Block>, cs: Seq<(int, int)>, r: (int, int)) -> Seq<
    ((int, int), Seq<u8>),
>
    decreases cs.len(),
{
    if cs.len() == 0 {
        Seq::empty()
    } else if region_of(cs.last()) == r {
        region_contents(m, cs.drop_last(), r).push(compressed_chunk(m, cs.last()))
    } else {
        region_contents(m, cs.drop_last(), r)
    }
}

/// The region that holds chunk `(cx, cz)`.
pub fn region_coords(cx: i32, cz: i32) -> (r: (i32, i32))
    ensures
        (r.0 as int, r.1 as int) == region_of((cx as int, cz as int)),
{
    let ux: i64 = cx as i64 + 0x8000_0000;
    let uz: i64 = cz as i64 + 0x8000_0000;
    proof {
        vstd::arithmetic::div_mod::lemma_fundamental_div_mod(cx as int, 32);
        vstd::arithmetic::div_mod::lemma_mod_bound(cx as int, 32);
        vstd::arithmetic::div_mod::lemma_fundamental_div_mod(cz as int, 32);
        vstd::arithmetic::div_mod::lemma_mod_bound(cz as int, 32);
        lemma_fundamental_div_mod_converse(ux as int, 32, cx as int / 32 + 0x400_0000, cx as int % 32);
        lemma_fundamental_div_mod_converse(uz as int, 32, cz as int / 32 + 0x400_0000, cz as int % 32);
    }
    ((ux / 32 - 0x400_0000) as i32, (uz / 32 - 0x400_0000) as i32)
}

/// Pairs of `i32` in spec form.
pub open spec fn int_pairs(v: Seq<(i32, i32)>) -> Seq<(int, int)> {
    v.map_values(|c: (i32, i32)| (c.0 as int, c.1 as int))
}

/// Whether `v` holds the pair `x`.
fn contains_pair(v: &Vec<(i32, i32)>, x: (i32, i32)) -> (r: bool)
    ensures
        r == int_pairs(v@).contains((x.0 as int, x.1 as int)),
{
    let mut j: usize = 0;
    while j < v.len()
        invariant
            j <= v@.len(),
            forall|i: int| 0 <= i < j ==> int_pairs(v@)[i] != (x.0 as int, x.1 as int),
        decreases v@.len() - j,
    {
        if v[j].0 == x.0 && v[j].1 == x.1 {
            assert(int_pairs(v@)[j as int] == (x.0 as int, x.1 as int));
            return true;
        }
        j = j + 1;
    }
    false
}

impl WorldEditor {
    /// The regions that hold recorded blocks, each once, in the order in
    /// which their chunks first received a block.
    pub fn regions(&self) -> (r: Vec<(i32, i32)>)
        requires
            self.wf(),
        ensures
            int_pairs(r@) == region_list(self.chunks()),
    {
        let chunks = self.chunk_list();
        let ghost cs = self.chunks();
        let mut r: Vec<(i32, i32)> = Vec::new();
        let mut k: usize = 0;
        assert(cs.subrange(0, 0) =~= Seq::<(int, int)>::empty());
        assert(int_pairs(r@) =~= Seq::<(int, int)>::empty());
        while k < chunks.len()
            invariant
                k <= chunks@.len(),
                int_pairs(chunks@) == cs,
                int_pairs(r@) == region_list(cs.subrange(0, k as int)),
            decreases chunks@.len() - k,
        {
            let (cx, cz) = chunks[k];
            let reg = region_coords(cx, cz);
            let ghost sub = cs.subrange(0, k + 1);
            assert(sub.drop_last() =~= cs.subrange(0, k as int));
            assert(sub.last() == (cx as int, cz as int));
            let seen = contains_pair(&r, reg);
            if !seen {
                let ghost before = r@;
                r.push(reg);
                assert(int_pairs(r@) =~= int_pairs(before).push((reg.0 as int, reg.1 as int)));
            }
            k = k + 1;
        }
        assert(cs.subrange(0, cs.len() as int) =~= cs);
        r
    }

    /// Chunk `(cx, cz)`, encoded and compressed.
    fn compress_chunk(&self, cx: i32, cz: i32) -> (r: RegionChunk)
        requires
            chunk_in_range((cx as int, cz as int)),
        ensures
            chunk_view(r) == compressed_chunk(self@, (cx as int, cz as int)),
    {
        let bytes = encode_chunk(self, cx, cz);
        let payload = zlib_compress(&bytes);
        let r = RegionChunk { cx, cz, payload };
        assert(chunk_view(r) == compressed_chunk(self@, (cx as int, cz as int))) by {
            reveal(compressed_chunk);
        }
        r
    }

    /// The region file of region `(rx, rz)`: each chunk of the region that
    /// holds a recorded block, encoded and compressed, laid out in the order
    /// in which the chunks first received a block.
    pub fn region_file(&self, rx: i32, rz: i32) -> (r: Result<Vec<u8>, RegionError>)
        requires
            self.wf(),
        ensures
            r is Ok <==> region_fits(region_contents(self@, self.chunks(), (rx as int, rz as int))),
            r matches Ok(b) ==> b@ == region_bytes(region_contents(self@, self.chunks(), (rx as int, rz as int))),
    {
        proof {
            self.lemma_chunks();
        }
        let ghost rg = (rx as int, rz as int);
        let ghost cs = self.chunks();
        let chunks = self.chunk_list();
        let mut members: Vec<RegionChunk> = Vec::new();
        let mut k: usize = 0;
        assert(cs.subrange(0, 0) =~= Seq::<(int, int)>::empty());
        while k < chunks.len()
            invariant
                k <= chunks@.len(),
                rg == (rx as int, rz as int),
                int_pairs(chunks@) == cs,
                cs == self.chunks(),
                forall|i: int| 0 <= i < cs.len() ==> chunk_in_range(#[trigger] cs[i]),
                members@.len() == region_contents(self@, cs.subrange(0, k as int), rg).len(),
                forall|i: int|
                    0 <= i < members@.len() ==> chunk_view(#[trigger] members@[i]) == region_contents(
                        self@,
                        cs.subrange(0, k as int),
                        rg,
                    )[i],
            decreases chunks@.len() - k,
        {
            let (cx, cz) = chunks[k];
            let ghost c = (cx as int, cz as int);
            assert(cs[k as int] == c);
            let ghost sub = cs.subrange(0, k + 1);
            let ghost prev = region_contents(self@, cs.subrange(0, k as int), rg);
            assert(sub.drop_last() =~= cs.subrange(0, k as int));
            assert(sub.last() == c);
            let reg = region_coords(cx, cz);
            if reg.0 == rx && reg.1 == rz {
                let item = self.compress_chunk(cx, cz);
                members.push(item);
                assert(region_of(c) == (reg.0 as int, reg.1 as int));
                assert(sub.last() == c);
                assert(region_of(sub.last()) == rg);
                assert(sub.len() > 0);
                assert(region_contents(self@, sub, rg) == region_contents(self@, sub.drop_last(), rg).push(
                    compressed_chunk(self@, sub.last()),
                ));
                assert(region_contents(self@, sub, rg) == prev.push(compressed_chunk(self@, c)));
            } else {
                assert(region_of(sub.last()) != rg);
                assert(sub.len() > 0);
                assert(region_contents(self@, sub, rg) == region_contents(self@, sub.drop_last(), rg));
                assert(region_contents(self@, sub, rg) == prev);
            }
            k = k + 1;
        }
        assert(cs.subrange(0, cs.len() as int) =~= cs);
        assert(chunk_views(members@) =~= region_contents(self@, cs, rg));
        build_region(&members)
    }
}

/// The index of position `p` within its section: y, then z, then x, each
/// taken within the section.
pub open spec fn local_index(p: Point) -> int {
    (p.1 % 16) * 256 + (p.2 % 16) * 16 + p.0 % 16
}

/// What the encoded world keeps of the store: every recorded position lies
/// in an encoded chunk, in an encoded section of it that decodes to the
/// recorded block; every other position of an encoded section decodes to
/// air, the block that a reader also takes where no section or chunk was
/// written.
pub proof fn lemma_encoding_round_trip(w: &WorldEditor, p: Point)
    requires
        w.wf(),
        storable(p),
    ensures
        ({
            let c = chunk_of(p);
            let ss = chunk_sections(w@, c, END_SECTION - MIN_SECTION);
            &&& w@.contains_key(p) ==> w.chunks().contains(c) && exists|k: int|
                0 <= k < ss.len() && ss[k].0 == p.1 / 16 && decoded_block(ss[k].1, ss[k].2, local_index(p))
                    == w@[p]
            &&& !w@.contains_key(p) ==> forall|k: int|
                0 <= k < ss.len() && ss[k].0 == p.1 / 16 ==> decoded_block(ss[k].1, ss[k].2, local_index(p))
                    == Block::Air
        }),
{
    w.lemma_chunks();
    let c = chunk_of(p);
    let sy = p.1 / 16;
    let i = local_index(p);
    lemma_local_index(p);
    let ss = chunk_sections(w@, c, END_SECTION - MIN_SECTION);
    lemma_chunk_sections(w@, c, END_SECTION - MIN_SECTION);
    assert(MIN_SECTION <= sy < END_SECTION);
    if w@.contains_key(p) {
        assert(section_recorded(w@, c, sy)) by {
            assert(w@.contains_key(section_pos(c, sy, i)));
        }
        let k = choose|k: int| 0 <= k < ss.len() && ss[k].0 == sy;
        lemma_section_round_trip(section_blocks(w@, c, sy));
        assert(section_blocks(w@, c, sy)[i] == occupant(w@, p));
    }
    assert forall|k: int| 0 <= k < ss.len() && ss[k].0 == sy implies decoded_block(ss[k].1, ss[k].2, i)
        == occupant(w@, p) by {
        lemma_section_round_trip(section_blocks(w@, c, sy));
        assert(section_blocks(w@, c, sy)[i] == occupant(w@, p));
    }
}

/// Position `p` is voxel `local_index(p)` of its section.
proof fn lemma_local_index(p: Point)
    requires
        storable(p),
    ensures
        0 <= local_index(p) < 4096,
        section_pos(chunk_of(p), p.1 / 16, local_index(p)) == p,
        MIN_SECTION <= p.1 / 16 < END_SECTION,
{
    let (a, b, c) = (p.0 % 16, p.1 % 16, p.2 % 16);
    vstd::arithmetic::div_mod::lemma_fundamental_div_mod(p.0, 16);
    vstd::arithmetic::div_mod::lemma_fundamental_div_mod(p.1, 16);
    vstd::arithmetic::div_mod::lemma_fundamental_div_mod(p.2, 16);
    vstd::arithmetic::div_mod::lemma_mod_bound(p.0, 16);
    vstd::arithmetic::div_mod::lemma_mod_bound(p.1, 16);
    vstd::arithmetic::div_mod::lemma_mod_bound(p.2, 16);
    let i = b * 256 + c * 16 + a;
    lemma_fundamental_div_mod_converse(i, 16, b * 16 + c, a);
    lemma_fundamental_div_mod_converse(i, 256, b, c * 16 + a);
    lemma_fundamental_div_mod_converse(b * 16 + c, 16, b, c);
    lemma_fundamental_div_mod_converse(p.1, 16, p.1 / 16, b);
    assert(-64 <= p.1 < 320);
    assert(-4 <= p.1 / 16 < 20) by {
        vstd::arithmetic::div_mod::lemma_div_is_ordered(-64, p.1, 16);
        vstd::arithmetic::div_mod::lemma_div_is_ordered(p.1, 319, 16);
    }
}

/// The sections listed for a chunk are exactly its recorded sections, each
/// in palette form.
proof fn lemma_chunk_sections(m: Map<Point, Block>, c: (int, int), n: int)
    requires
        0 <= n,
    ensures
        forall|k: int|
            0 <= k < chunk_sections(m, c, n).len() ==> {
                let s = #[trigger] chunk_sections(m, c, n)[k];
                &&& MIN_SECTION <= s.0 < MIN_SECTION + n
                &&& s.1 == palette_of(section_blocks(m, c, s.0))
                &&& s.2 == section_data(section_blocks(m, c, s.0))
            },
        forall|sy: int|
            MIN_SECTION <= sy < MIN_SECTION + n && #[trigger] section_recorded(m, c, sy) ==> exists|k: int|
                0 <= k < chunk_sections(m, c, n).len() && chunk_sections(m, c, n)[k].0 == sy,
    decreases n,
{
    if n > 0 {
        lemma_chunk_sections(m, c, n - 1);
        let prev = chunk_sections(m, c, n - 1);
        let cur = chunk_sections(m, c, n);
        let top = MIN_SECTION + n - 1;
        assert forall|sy: int|
            MIN_SECTION <= sy < MIN_SECTION + n && #[trigger] section_recorded(m, c, sy) implies exists|k: int|
                0 <= k < cur.len() && cur[k].0 == sy by {
            if sy == top {
                assert(cur[prev.len() as int].0 == sy);
            } else {
                let k = choose|k: int| 0 <= k < prev.len() && prev[k].0 == sy;
                assert(cur[k] == prev[k]);
            }
        }
        assert forall|k: int| 0 <= k < cur.len() implies {
            let s = #[trigger] cur[k];
            &&& MIN_SECTION <= s.0 < MIN_SECTION + n
            &&& s.1 == palette_of(section_blocks(m, c, s.0))
            &&& s.2 == section_data(section_blocks(m, c, s.0))
        } by {
            if k < prev.len() {
                assert(cur[k] == prev[k]);
            }
        }
    }
}

} // verus!
