//! Chunk sections in palette form: each 16x16x16 section of a chunk as a
//! per-section palette of blocks and the palette index of every voxel,
//! packed into 64-bit words.

use crate::block_definitions::Block;
use crate::bresenham::Point;
use crate::world_editor::{chunk_in_range, occupant, WorldEditor};
use vstd::arithmetic::div_mod::lemma_fundamental_div_mod_converse;
use vstd::arithmetic::power2::{lemma2_to64, lemma_pow2_adds, lemma_pow2_pos, lemma_pow2_strictly_increases, pow2};
use vstd::prelude::*;

verus! {

/// Voxels in one section.
pub const SECTION_VOLUME: usize = 4096;

/// The lowest section of a chunk.
pub const MIN_SECTION: i32 = -4;

/// One past the highest section of a chunk.
pub const END_SECTION: i32 = 20;

/// The position of voxel `i` of section `sy` of chunk `c`, with `i` counted
/// in y, then z, then x order (x fastest).
pub open spec fn section_pos(c: (int, int), sy: int, i: int) -> Point {
    (c.0 * 16 + i % 16, sy * 16 + i / 256, c.1 * 16 + (i / 16) % 16)
}

/// The blocks of section `sy` of chunk `c` in voxel order, air where
/// nothing is recorded.
pub open spec fn section_blocks(m: Map<Point, Block>, c: (int, int), sy: int) -> Seq<Block> {
    Seq::new(4096, |i: int| occupant(m, section_pos(c, sy, i)))
}

/// Some voxel of section `sy` of chunk `c` is recorded.
pub open spec fn section_recorded(m: Map<Point, Block>, c: (int, int), sy: int) -> bool {
    exists|i: int| 0 <= i < 4096 && #[trigger] m.contains_key(section_pos(c, sy, i))
}

/// `p` extended by the blocks of `blocks` that it lacks, in order of first
/// occurrence.
pub open spec fn first_seen(p: Seq<Block>, blocks: Seq<Block>) -> Seq<Block>
    decreases blocks.len(),
{
    if blocks.len() == 0 {
        p
    } else {
        let q = first_seen(p, blocks.drop_last());
        if q.contains(blocks.last()) {
            q
        } else {
            q.push(blocks.last())
        }
    }
}

/// The palette of a section: air first, then each other block in order of
/// first occurrence.
pub open spec fn palette_of(blocks: Seq<Block>) -> Seq<Block> {
    first_seen(seq![Block::Air], blocks)
}

/// The position of `b` in a palette that holds it once.
pub open spec fn palette_index(p: Seq<Block>, b: Block) -> int {
    choose|i: int| 0 <= i < p.len() && p[i] == b
}

/// Bits per voxel index: enough for the palette, and never fewer than four.
pub open spec fn bits_for(n: int) -> nat {
    if n <= 16 {
        4
    } else if n <= 32 {
        5
    } else if n <= 64 {
        6
    } else if n <= 128 {
        7
    } else if n <= 256 {
        8
    } else if n <= 512 {
        9
    } else if n <= 1024 {
        10
    } else if n <= 2048 {
        11
    } else if n <= 4096 {
        12
    } else {
        13
    }
}

/// Indices per 64-bit word; an index never straddles two words.
pub open spec fn per_word(bits: nat) -> nat {
    64nat / bits
}

/// `count` indices from `start` packed into one word, the first in the
/// lowest bits.
pub open spec fn pack_word(idx: Seq<u64>, start: int, count: int, bits: nat) -> int
    decreases count,
{
    if count <= 0 {
        0
    } else {
        idx[start] + pow2(bits) * pack_word(idx, start + 1, count - 1, bits)
    }
}

/// The number of words that `len` indices take.
pub open spec fn word_count(len: int, bits: nat) -> int {
    (len + per_word(bits) - 1) / (per_word(bits) as int)
}

/// All indices of `idx` packed into words.
pub open spec fn packed(idx: Seq<u64>, bits: nat) -> Seq<u64> {
    let per = per_word(bits) as int;
    Seq::new(
        word_count(idx.len() as int, bits) as nat,
        |w: int|
            pack_word(
                idx,
                w * per,
                if idx.len() - w * per < per {
                    idx.len() - w * per
                } else {
                    per
                },
                bits,
            ) as u64,
    )
}

/// Index `j` of a packed word.
pub open spec fn unpack(v: int, j: int, bits: nat) -> int
    decreases j,
{
    if j <= 0 {
        v % pow2(bits) as int
    } else {
        unpack(v / pow2(bits) as int, j - 1, bits)
    }
}

/// The palette index of voxel `i` as stored in the packed words.
pub open spec fn stored_index(data: Seq<u64>, i: int, bits: nat) -> int {
    unpack(data[i / per_word(bits) as int] as int, i % per_word(bits) as int, bits)
}

/// The block that a section in palette form gives to voxel `i`.
pub open spec fn decoded_block(palette: Seq<Block>, data: Seq<u64>, i: int) -> Block {
    if palette.len() == 1 {
        palette[0]
    } else {
        palette[stored_index(data, i, bits_for(palette.len() as int))]
    }
}

/// A section in palette form.
pub struct Section {
    /// The section's index along y.
    pub y: i8,
    /// The blocks of the section, air first.
    pub palette: Vec<Block>,
    /// The packed palette indices; empty when the palette holds air alone.
    pub data: Vec<u64>,
}

/// The palette index of every voxel of a section.
pub open spec fn section_indices(blocks: Seq<Block>) -> Seq<u64> {
    Seq::new(4096, |i: int| palette_index(palette_of(blocks), blocks[i]) as u64)
}

/// The packed indices of a section; none when its palette holds one block.
pub open spec fn section_data(blocks: Seq<Block>) -> Seq<u64> {
    let p = palette_of(blocks);
    if p.len() == 1 {
        Seq::<u64>::empty()
    } else {
        packed(section_indices(blocks), bits_for(p.len() as int))
    }
}

/// The section in palette form that `blocks` yields.
pub open spec fn section_matches(s: Section, blocks: Seq<Block>, sy: int) -> bool {
    &&& s.y == sy
    &&& s.palette@ == palette_of(blocks)
    &&& s.data@ == section_data(blocks)
}

proof fn lemma_first_seen(p: Seq<Block>, blocks: Seq<Block>)
    requires
        p.no_duplicates(),
    ensures
        first_seen(p, blocks).no_duplicates(),
        first_seen(p, blocks).len() <= p.len() + blocks.len(),
        p.len() <= first_seen(p, blocks).len(),
        first_seen(p, blocks).subrange(0, p.len() as int) == p,
        forall|i: int| 0 <= i < blocks.len() ==> first_seen(p, blocks).contains(#[trigger] blocks[i]),
    decreases blocks.len(),
{
    if blocks.len() > 0 {
        let q = first_seen(p, blocks.drop_last());
        lemma_first_seen(p, blocks.drop_last());
        assert forall|i: int| 0 <= i < blocks.len() implies first_seen(p, blocks).contains(#[trigger] blocks[i]) by {
            if i < blocks.len() - 1 {
                assert(blocks.drop_last()[i] == blocks[i]);
                assert(q.contains(blocks[i]));
                if !q.contains(blocks.last()) {
                    let k = choose|k: int| 0 <= k < q.len() && q[k] == blocks[i];
                    assert(q.push(blocks.last())[k] == blocks[i]);
                }
            } else {
                if !q.contains(blocks.last()) {
                    assert(q.push(blocks.last())[q.len() as int] == blocks.last());
                }
            }
        }
        if !q.contains(blocks.last()) {
            assert(q.push(blocks.last()).subrange(0, p.len() as int) =~= q.subrange(0, p.len() as int));
        }
    } else {
        assert(p.subrange(0, p.len() as int) =~= p);
    }
}

/// A palette holds at most one block more than the section has voxels.
pub proof fn lemma_first_seen_len(blocks: Seq<Block>)
    ensures
        palette_of(blocks).len() <= blocks.len() + 1,
{
    lemma_first_seen(seq![Block::Air], blocks);
}

/// A packed word is below `2^(bits * count)`.
proof fn lemma_pack_word_bound(idx: Seq<u64>, start: int, count: int, bits: nat)
    requires
        0 <= count,
        0 <= start,
        start + count <= idx.len(),
        forall|i: int| start <= i < start + count ==> (#[trigger] idx[i] as int) < pow2(bits),
    ensures
        0 <= pack_word(idx, start, count, bits) < pow2((bits * count) as nat),
    decreases count,
{
    if count > 0 {
        lemma_pack_word_bound(idx, start + 1, count - 1, bits);
        let rest = pack_word(idx, start + 1, count - 1, bits);
        let b = pow2(bits) as int;
        let r = pow2((bits * (count - 1)) as nat) as int;
        assert((bits * count) as nat == bits + (bits * (count - 1)) as nat) by (nonlinear_arith)
            requires
                count > 0,
        ;
        lemma_pow2_adds(bits, (bits * (count - 1)) as nat);
        lemma_pow2_pos(bits);
        assert(idx[start] + b * rest < b * r) by (nonlinear_arith)
            requires
                0 <= idx[start] < b,
                0 <= rest < r,
        ;
        assert(0 <= b * rest) by (nonlinear_arith)
            requires
                0 <= rest,
                0 < b,
        ;
    } else {
        assert(bits * count == 0) by (nonlinear_arith)
            requires
                count == 0,
        ;
        lemma2_to64();
    }
}

/// Unpacking a packed word gives back each index.
pub proof fn lemma_unpack_pack(idx: Seq<u64>, start: int, count: int, bits: nat, j: int)
    requires
        0 <= j < count,
        0 <= start,
        start + count <= idx.len(),
        forall|i: int| start <= i < start + count ==> (#[trigger] idx[i] as int) < pow2(bits),
    ensures
        unpack(pack_word(idx, start, count, bits), j, bits) == idx[start + j],
    decreases j,
{
    let b = pow2(bits) as int;
    lemma_pow2_pos(bits);
    lemma_pack_word_bound(idx, start + 1, count - 1, bits);
    let rest = pack_word(idx, start + 1, count - 1, bits);
    let v = pack_word(idx, start, count, bits);
    assert(v == idx[start] + b * rest);
    assert(b * rest == rest * b) by (nonlinear_arith);
    lemma_fundamental_div_mod_converse(v, b, rest, idx[start] as int);
    if j > 0 {
        lemma_unpack_pack(idx, start + 1, count - 1, bits, j - 1);
    }
}

/// The bits per index for a palette of `n` blocks.
fn exec_bits_for(n: usize) -> (r: u64)
    ensures
        r == bits_for(n as int),
        4 <= r <= 13,
{
    if n <= 16 {
        4
    } else if n <= 32 {
        5
    } else if n <= 64 {
        6
    } else if n <= 128 {
        7
    } else if n <= 256 {
        8
    } else if n <= 512 {
        9
    } else if n <= 1024 {
        10
    } else if n <= 2048 {
        11
    } else if n <= 4096 {
        12
    } else {
        13
    }
}

/// `count` indices of `idx` from `start`, packed into one word.
fn exec_pack_word(idx: &Vec<u64>, start: usize, count: usize, bits: u64) -> (r: u64)
    requires
        1 <= bits <= 16,
        bits * count <= 64,
        start + count <= idx@.len(),
        forall|i: int| start <= i < start + count ==> (#[trigger] idx@[i] as int) < pow2(bits as nat),
    ensures
        r == pack_word(idx@, start as int, count as int, bits as nat),
{
    let mut base: u64 = 1;
    let mut k: u64 = 0;
    proof {
        lemma2_to64();
    }
    while k < bits
        invariant
            k <= bits <= 16,
            base == pow2(k as nat),
        decreases bits - k,
    {
        proof {
            lemma_pow2_adds(k as nat, 1);
            lemma2_to64();
            lemma_pow2_strictly_increases(k as nat, 16);
        }
        base = base * 2;
        k = k + 1;
    }
    let mut v: u64 = 0;
    let mut j: usize = count;
    let n: usize = idx.len();
    proof {
        lemma2_to64();
    }
    while j > 0
        invariant
            j <= count,
            1 <= bits <= 16,
            bits * count <= 64,
            start + count <= idx@.len(),
            n == idx@.len(),
            base == pow2(bits as nat),
            forall|i: int| start <= i < start + count ==> (#[trigger] idx@[i] as int) < pow2(bits as nat),
            v == pack_word(idx@, start + j, count - j, bits as nat),
        decreases j,
    {
        j = j - 1;
        proof {
            lemma_pack_word_bound(idx@, start + j + 1, count - j - 1, bits as nat);
            let r = pow2((bits * (count - j - 1)) as nat) as int;
            lemma_pow2_adds(bits as nat, (bits * (count - j - 1)) as nat);
            assert((bits * (count - j)) as nat == bits + (bits * (count - j - 1)) as nat) by (nonlinear_arith)
                requires
                    j < count,
            ;
            assert(bits * (count - j) <= bits * count) by (nonlinear_arith)
                requires
                    j < count,
                    bits >= 1,
            ;
            if bits * (count - j) < 64 {
                lemma_pow2_strictly_increases((bits * (count - j)) as nat, 64);
            }
            lemma2_to64();
            lemma2_to64_rest_max();
            assert(pow2((bits * (count - j)) as nat) <= 0x1_0000_0000_0000_0000);
            assert(idx@[start + j] + base * v < pow2((bits * (count - j)) as nat)) by (nonlinear_arith)
                requires
                    0 <= idx@[start + j] < base,
                    0 <= v < r,
                    pow2((bits * (count - j)) as nat) == base * r,
            ;
            assert(0 <= base * v) by (nonlinear_arith)
                requires
                    0 <= v,
                    0 <= base,
            ;
        }
        v = idx[start + j] + base * v;
    }
    v
}

proof fn lemma2_to64_rest_max()
    ensures
        pow2(64) == 0x1_0000_0000_0000_0000,
{
    vstd::arithmetic::power2::lemma2_to64_rest();
}

/// All indices of `idx` packed into words of `bits`-bit fields.
fn pack_indices(idx: &Vec<u64>, bits: u64) -> (r: Vec<u64>)
    requires
        4 <= bits <= 13,
        idx@.len() <= 4096,
        forall|i: int| 0 <= i < idx@.len() ==> (#[trigger] idx@[i] as int) < pow2(bits as nat),
    ensures
        r@ == packed(idx@, bits as nat),
{
    let per: usize = (64 / bits) as usize;
    assert(4 <= per <= 16) by {
        if bits == 4 {} else if bits == 5 {} else if bits == 6 {} else if bits == 7 {} else if bits == 8 {
        } else if bits == 9 {} else if bits == 10 {} else if bits == 11 {} else if bits == 12 {} else {}
    }
    let n = idx.len();
    let words: usize = (n + per - 1) / per;
    assert(per == per_word(bits as nat));
    assert(per as int * bits <= 64) by (nonlinear_arith)
        requires
            per == 64int / (bits as int),
            bits >= 4,
    ;
    let mut r: Vec<u64> = Vec::new();
    let mut w: usize = 0;
    while w < words
        invariant
            n == idx@.len(),
            4 <= bits <= 13,
            per == per_word(bits as nat),
            per * bits <= 64,
            1 <= per <= 16,
            words == word_count(n as int, bits as nat),
            w <= words,
            r@.len() == w,
            forall|i: int| 0 <= i < idx@.len() ==> (#[trigger] idx@[i] as int) < pow2(bits as nat),
            forall|k: int| 0 <= k < w ==> #[trigger] r@[k] == packed(idx@, bits as nat)[k],
        decreases words - w,
    {
        assert(w * per < n) by (nonlinear_arith)
            requires
                w < words,
                words as int == (n + per - 1) as int / (per as int),
                per >= 1,
        {
            vstd::arithmetic::div_mod::lemma_fundamental_div_mod((n + per - 1) as int, per as int);
            vstd::arithmetic::div_mod::lemma_mod_bound((n + per - 1) as int, per as int);
            assert((w + 1) * per <= words * per) by (nonlinear_arith)
                requires
                    w < words,
                    per >= 1,
            ;
        }
        let start: usize = w * per;
        let count: usize = if n - start < per { n - start } else { per };
        assert(bits * count <= 64) by (nonlinear_arith)
            requires
                count <= per,
                per * bits <= 64,
        ;
        let v = exec_pack_word(idx, start, count, bits);
        r.push(v);
        w = w + 1;
    }
    assert(r@ =~= packed(idx@, bits as nat));
    r
}

/// The slot of `b` in `palette`, or the palette's length when it is absent.
fn palette_slot(palette: &Vec<Block>, b: Block) -> (r: usize)
    ensures
        r <= palette@.len(),
        r < palette@.len() ==> palette@[r as int] == b,
        r == palette@.len() ==> !palette@.contains(b),
{
    let mut j: usize = 0;
    while j < palette.len()
        invariant
            j <= palette@.len(),
            forall|k: int| 0 <= k < j ==> palette@[k] != b,
        decreases palette@.len() - j,
    {
        if palette[j] == b {
            return j;
        }
        j = j + 1;
    }
    j
}

/// A palette no larger than `n` fits in `bits_for(n)` bits per index.
proof fn lemma_bits_for(n: int)
    requires
        1 <= n <= 8192,
    ensures
        n <= pow2(bits_for(n)),
        4 <= bits_for(n) <= 13,
{
    lemma2_to64();
}

/// Section `sy` of chunk `(cx, cz)` in palette form, or none when no voxel
/// of it is recorded.
pub fn encode_section(editor: &WorldEditor, cx: i32, cz: i32, sy: i32) -> (r: Option<Section>)
    requires
        chunk_in_range((cx as int, cz as int)),
        MIN_SECTION <= sy < END_SECTION,
    ensures
        r is None <==> !section_recorded(editor@, (cx as int, cz as int), sy as int),
        r matches Some(s) ==> section_matches(s, section_blocks(editor@, (cx as int, cz as int), sy as int), sy as int),
{
    let ghost c = (cx as int, cz as int);
    let ghost blocks = section_blocks(editor@, c, sy as int);
    let mut palette: Vec<Block> = Vec::new();
    palette.push(Block::Air);
    let mut idx: Vec<u64> = Vec::new();
    let mut recorded = false;
    let mut i: usize = 0;
    proof {
        assert(blocks.subrange(0, 0) =~= Seq::<Block>::empty());
        assert(palette@ =~= seq![Block::Air]);
    }
    while i < SECTION_VOLUME
        invariant
            chunk_in_range(c),
            c == (cx as int, cz as int),
            MIN_SECTION <= sy < END_SECTION,
            blocks == section_blocks(editor@, c, sy as int),
            i <= 4096,
            palette@ == first_seen(seq![Block::Air], blocks.subrange(0, i as int)),
            palette@.no_duplicates(),
            palette@.len() <= i + 1,
            idx@.len() == i,
            forall|k: int| 0 <= k < i ==> (#[trigger] idx@[k] as int) < palette@.len() && palette@[idx@[k] as int] == blocks[k],
            recorded == exists|k: int| 0 <= k < i && #[trigger] editor@.contains_key(section_pos(c, sy as int, k)),
        decreases 4096 - i,
    {
        let lx: i32 = (i % 16) as i32;
        let lz: i32 = ((i / 16) % 16) as i32;
        let ly: i32 = (i / 256) as i32;
        let x: i32 = cx * 16 + lx;
        let y: i32 = sy * 16 + ly;
        let z: i32 = cz * 16 + lz;
        let ghost p = section_pos(c, sy as int, i as int);
        assert((x as int, y as int, z as int) == p);
        let found = editor.get_block(x, y, z);
        let b = match found {
            Some(b) => b,
            None => Block::Air,
        };
        assert(b == blocks[i as int]);
        if found.is_some() {
            recorded = true;
        }
        let ghost before = palette@;
        let slot = palette_slot(&palette, b);
        if slot == palette.len() {
            palette.push(b);
        }
        idx.push(slot as u64);
        proof {
            let sub = blocks.subrange(0, i + 1);
            assert(sub.drop_last() =~= blocks.subrange(0, i as int));
            assert(sub.last() == b);
            if slot < before.len() {
                assert(before.contains(b));
            } else {
                assert(palette@ == before.push(b));
                assert forall|a: int, bb: int| 0 <= a < bb < palette@.len() implies palette@[a] != palette@[bb] by {
                    if bb == before.len() {
                        assert(palette@[a] == before[a]);
                    }
                }
            }
            assert forall|k: int| 0 <= k < i + 1 implies (#[trigger] idx@[k] as int) < palette@.len() && palette@[idx@[k] as int] == blocks[k] by {
                if k < i {
                    assert(palette@[idx@[k] as int] == before[idx@[k] as int]);
                }
            }
            if found.is_some() {
                assert(editor@.contains_key(section_pos(c, sy as int, i as int)));
            }
        }
        i = i + 1;
    }
    if !recorded {
        return None;
    }
    proof {
        assert(blocks.subrange(0, 4096) =~= blocks);
        lemma_first_seen(seq![Block::Air], blocks);
    }
    let ghost pal = palette@;
    let ghost spec_idx = section_indices(blocks);
    proof {
        assert forall|k: int| 0 <= k < 4096 implies idx@[k] == #[trigger] spec_idx[k] by {
            let j = palette_index(pal, blocks[k]);
            assert(pal[idx@[k] as int] == blocks[k]);
            assert(0 <= j < pal.len() && pal[j] == blocks[k]);
        }
        assert(idx@ =~= spec_idx);
    }
    let data = if palette.len() == 1 {
        Vec::new()
    } else {
        let bits = exec_bits_for(palette.len());
        proof {
            lemma_bits_for(pal.len() as int);
        }
        pack_indices(&idx, bits)
    };
    Some(Section { y: sy as i8, palette, data })
}

/// Every voxel of a section in palette form decodes to the block it was
/// encoded from.
pub proof fn lemma_section_round_trip(blocks: Seq<Block>)
    requires
        blocks.len() == 4096,
    ensures
        forall|i: int|
            0 <= i < 4096 ==> #[trigger] decoded_block(palette_of(blocks), section_data(blocks), i) == blocks[i],
{
    let p = palette_of(blocks);
    let d = section_data(blocks);
    lemma_first_seen(seq![Block::Air], blocks);
    assert(p.subrange(0, 1) == seq![Block::Air]);
    assert(p[0] == Block::Air) by {
        assert(p.subrange(0, 1)[0] == p[0]);
    }
    let idx = section_indices(blocks);
    assert forall|i: int| 0 <= i < 4096 implies #[trigger] decoded_block(p, d, i) == blocks[i] by {
        assert(p.contains(blocks[i]));
        let j = palette_index(p, blocks[i]);
        assert(0 <= j < p.len() && p[j] == blocks[i]);
        if p.len() == 1 {
        } else {
            let bits = bits_for(p.len() as int);
            lemma_bits_for(p.len() as int);
            assert forall|k: int| 0 <= k < 4096 implies (#[trigger] idx[k] as int) < pow2(bits) by {
                assert(p.contains(blocks[k]));
                let jk = palette_index(p, blocks[k]);
                assert(0 <= jk < p.len());
            }
            let per = per_word(bits) as int;
            assert(per >= 4 && per <= 16);
            let w = i / per;
            let jj = i % per;
            vstd::arithmetic::div_mod::lemma_fundamental_div_mod(i, per);
            vstd::arithmetic::div_mod::lemma_mod_bound(i, per);
            let start = w * per;
            assert(w * per == per * w) by (nonlinear_arith);
            assert(start + jj == i);
            assert(0 <= w) by (nonlinear_arith)
                requires
                    w == i / per,
                    0 <= i,
                    per > 0,
            {
                vstd::arithmetic::div_mod::lemma_div_pos_is_pos(i, per);
            }
            assert(w < word_count(4096, bits)) by {
                assert(word_count(4096, bits) == (4096 + per - 1) / per);
                vstd::arithmetic::div_mod::lemma_fundamental_div_mod(4096 + per - 1, per);
                vstd::arithmetic::div_mod::lemma_mod_bound(4096 + per - 1, per);
                assert(w * per <= i);
                assert(w < (4096 + per - 1) / per) by (nonlinear_arith)
                    requires
                        w * per <= i,
                        i < 4096,
                        per >= 1,
                        4096 + per - 1 == per * ((4096 + per - 1) / per) + (4096 + per - 1) % per,
                        (4096 + per - 1) % per < per,
                ;
            }
            let count = if 4096 - start < per { 4096 - start } else { per };
            assert(0 <= start) by (nonlinear_arith)
                requires
                    0 <= w,
                    0 < per,
                    start == w * per,
            ;
            lemma_pack_word_bound(idx, start, count, bits);
            lemma_unpack_pack(idx, start, count, bits, jj);
            assert(d[w] as int == pack_word(idx, start, count, bits)) by {
                assert(pack_word(idx, start, count, bits) < pow2((bits * count) as nat));
                assert(bits * count <= 64) by (nonlinear_arith)
                    requires
                        count <= per,
                        per == 64int / (bits as int),
                        bits >= 4,
                ;
                if bits * count < 64 {
                    lemma_pow2_strictly_increases((bits * count) as nat, 64);
                }
                lemma2_to64_rest_max();
            }
            assert(stored_index(d, i, bits) == idx[i]);
        }
    }
}

} // verus!
