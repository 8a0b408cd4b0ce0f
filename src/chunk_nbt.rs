//! The named-tag encoding of a chunk: its fixed bookkeeping fields and, for
//! each section that holds a recorded voxel, the section's palette and
//! packed indices.

use crate::block_definitions::{block_namespace, lemma_name_short, lemma_namespace_short, lemma_properties_short, Block};
use crate::bresenham::Point;
use crate::chunk::{
    encode_section, palette_of, section_data, section_blocks, section_recorded, Section,
    END_SECTION, MIN_SECTION,
};
use crate::nbt::{
    be32, be64, byte_of, lemma_utf8_len, nbt_str, push_be32, push_be64, push_byte, push_head, push_str,
    tag_head, TAG_BYTE, TAG_COMPOUND, TAG_END, TAG_INT, TAG_LIST, TAG_LONG, TAG_LONG_ARRAY, TAG_STRING,
};
use crate::world_editor::{chunk_in_range, WorldEditor};
use vstd::prelude::*;
use vstd::utf8::encode_utf8;

verus! {

/// The data version written into every chunk.
pub const DATA_VERSION: i32 = 3465;

/// A section as the encoding sees it: its y index, palette and packed
/// indices.
pub type SectionView = (int, Seq<Block>, Seq<u64>);

/// The namespaced identifier of a block, as bytes.
pub open spec fn block_id(b: Block) -> Seq<u8> {
    encode_utf8(block_namespace()) + encode_utf8(":"@) + encode_utf8(b.spec_name())
}

/// The string properties of a block, as tags.
pub open spec fn props_bytes(ps: Seq<(Seq<char>, Seq<char>)>) -> Seq<u8>
    decreases ps.len(),
{
    if ps.len() == 0 {
        Seq::empty()
    } else {
        props_bytes(ps.drop_last()) + tag_head(TAG_STRING, ps.last().0) + nbt_str(encode_utf8(ps.last().1))
    }
}

/// A palette entry: the block's identifier and, if it has any, its
/// properties.
pub open spec fn palette_entry(b: Block) -> Seq<u8> {
    tag_head(TAG_STRING, "Name"@) + nbt_str(block_id(b)) + match b.spec_properties() {
        None => Seq::empty(),
        Some(ps) => tag_head(TAG_COMPOUND, "Properties"@) + props_bytes(ps) + seq![TAG_END],
    } + seq![TAG_END]
}

/// The entries of a palette list, in order.
pub open spec fn palette_bytes(p: Seq<Block>) -> Seq<u8>
    decreases p.len(),
{
    if p.len() == 0 {
        Seq::empty()
    } else {
        palette_bytes(p.drop_last()) + palette_entry(p.last())
    }
}

/// The elements of a long array, in order.
pub open spec fn longs_bytes(d: Seq<u64>) -> Seq<u8>
    decreases d.len(),
{
    if d.len() == 0 {
        Seq::empty()
    } else {
        longs_bytes(d.drop_last()) + be64(d.last() as int)
    }
}

/// A section compound: its y, then its block states (palette, and the
/// packed indices when the palette holds more than one block).
pub open spec fn section_nbt(s: SectionView) -> Seq<u8> {
    tag_head(TAG_BYTE, "Y"@) + seq![byte_of(s.0)] + tag_head(TAG_COMPOUND, "block_states"@) + tag_head(
        TAG_LIST,
        "palette"@,
    ) + seq![TAG_COMPOUND] + be32(s.1.len() as int) + palette_bytes(s.1) + (if s.2.len() == 0 {
        Seq::empty()
    } else {
        tag_head(TAG_LONG_ARRAY, "data"@) + be32(s.2.len() as int) + longs_bytes(s.2)
    }) + seq![TAG_END] + seq![TAG_END]
}

/// The elements of the section list, in order.
pub open spec fn sections_bytes(ss: Seq<SectionView>) -> Seq<u8>
    decreases ss.len(),
{
    if ss.len() == 0 {
        Seq::empty()
    } else {
        sections_bytes(ss.drop_last()) + section_nbt(ss.last())
    }
}

/// The sections of chunk `c` among the first `k` (from the lowest) that
/// hold a recorded voxel, in palette form.
pub open spec fn chunk_sections(m: Map<Point, Block>, c: (int, int), k: int) -> Seq<SectionView>
    decreases k,
{
    if k <= 0 {
        Seq::empty()
    } else {
        let prev = chunk_sections(m, c, k - 1);
        let sy = MIN_SECTION + k - 1;
        if section_recorded(m, c, sy) {
            let blocks = section_blocks(m, c, sy);
            prev.push((sy, palette_of(blocks), section_data(blocks)))
        } else {
            prev
        }
    }
}

/// The fields of an encoded chunk before its sections: an unnamed root
/// compound with the data version, the chunk's position, its lowest
/// section, a fixed status and update time, and the head of the list of its
/// `n` sections.
pub open spec fn chunk_head(c: (int, int), n: int) -> Seq<u8> {
    tag_head(TAG_COMPOUND, ""@) + tag_head(TAG_INT, "DataVersion"@) + be32(DATA_VERSION as int) + tag_head(
        TAG_INT,
        "xPos"@,
    ) + be32(c.0) + tag_head(TAG_INT, "zPos"@) + be32(c.1) + tag_head(TAG_INT, "yPos"@) + be32(
        MIN_SECTION as int,
    ) + tag_head(TAG_STRING, "Status"@) + nbt_str(encode_utf8("minecraft:full"@)) + tag_head(
        TAG_LONG,
        "LastUpdate"@,
    ) + be64(0) + tag_head(TAG_LIST, "sections"@) + seq![TAG_COMPOUND] + be32(n)
}

/// The encoded chunk: its head, its sections, and the end of the root
/// compound.
#[verifier::opaque]
pub open spec fn chunk_nbt(c: (int, int), ss: Seq<SectionView>) -> Seq<u8> {
    chunk_head(c, ss.len() as int) + sections_bytes(ss) + seq![TAG_END]
}

fn push_chunk_head(out: &mut Vec<u8>, cx: i32, cz: i32, n: usize)
    requires
        n <= 24,
    ensures
        final(out)@ == old(out)@ + chunk_head((cx as int, cz as int), n as int),
{
    let mut buf: Vec<u8> = Vec::new();
    proof {
        reveal_strlit("");
        reveal_strlit("DataVersion");
        reveal_strlit("xPos");
        reveal_strlit("zPos");
        reveal_strlit("yPos");
        reveal_strlit("Status");
        reveal_strlit("minecraft:full");
        reveal_strlit("LastUpdate");
        reveal_strlit("sections");
        lemma_utf8_len("minecraft:full"@);
    }
    push_named(&mut buf, TAG_COMPOUND, "");
    push_named(&mut buf, TAG_INT, "DataVersion");
    push_be32(&mut buf, DATA_VERSION as i64);
    push_named(&mut buf, TAG_INT, "xPos");
    push_be32(&mut buf, cx as i64);
    push_named(&mut buf, TAG_INT, "zPos");
    push_be32(&mut buf, cz as i64);
    push_named(&mut buf, TAG_INT, "yPos");
    push_be32(&mut buf, MIN_SECTION as i64);
    push_named(&mut buf, TAG_STRING, "Status");
    push_str(&mut buf, "minecraft:full".as_bytes());
    push_named(&mut buf, TAG_LONG, "LastUpdate");
    push_be64(&mut buf, 0);
    push_named(&mut buf, TAG_LIST, "sections");
    push_byte(&mut buf, TAG_COMPOUND);
    push_be32(&mut buf, n as i64);
    proof {
        let head = tag_head(TAG_COMPOUND, ""@);
        assert(Seq::<u8>::empty() + head =~= head);
        assert(buf@ == chunk_head((cx as int, cz as int), n as int));
    }
    append_bytes(out, buf.as_slice());
}

/// Appends a tag header whose name is a literal of at most 16 characters.
fn push_named(out: &mut Vec<u8>, tag: u8, name: &str)
    requires
        name@.len() <= 16,
    ensures
        final(out)@ == old(out)@ + tag_head(tag, name@),
{
    proof {
        lemma_utf8_len(name@);
    }
    push_head(out, tag, name);
}

fn push_palette_entry(out: &mut Vec<u8>, b: Block)
    ensures
        final(out)@ == old(out)@ + palette_entry(b),
{
    let mut buf: Vec<u8> = Vec::new();
    proof {
        reveal_strlit("Name");
        reveal_strlit("Properties");
        reveal_strlit(":");
        lemma_name_short(b);
        lemma_namespace_short();
        lemma_utf8_len(b.spec_name());
        lemma_utf8_len(block_namespace());
        lemma_utf8_len(":"@);
    }
    push_named(&mut buf, TAG_STRING, "Name");
    let mut id: Vec<u8> = Vec::new();
    let ns = b.namespace().as_bytes();
    let sep = ":".as_bytes();
    let nm = b.name().as_bytes();
    append_bytes(&mut id, ns);
    append_bytes(&mut id, sep);
    append_bytes(&mut id, nm);
    assert(id@ == block_id(b));
    push_str(&mut buf, id.as_slice());
    let ghost mid = buf@;
    match b.properties() {
        None => {},
        Some(ps) => {
            proof {
                lemma_properties_short(b);
            }
            push_named(&mut buf, TAG_COMPOUND, "Properties");
            let ghost props = b.spec_properties()->Some_0;
            let ghost before = buf@;
            let mut i: usize = 0;
            assert(props.subrange(0, 0) =~= Seq::<(Seq<char>, Seq<char>)>::empty());
            while i < ps.len()
                invariant
                    i <= ps@.len(),
                    props == ps@.map_values(|p: (&'static str, &'static str)| (p.0@, p.1@)),
                    props.len() <= 2,
                    forall|j: int| 0 <= j < props.len() ==> (#[trigger] props[j]).0.len() <= 16 && props[j].1.len() <= 16,
                    buf@ == before + props_bytes(props.subrange(0, i as int)),
                decreases ps@.len() - i,
            {
                let (k, v) = ps[i];
                assert(props[i as int] == (k@, v@));
                proof {
                    lemma_utf8_len(v@);
                }
                push_named(&mut buf, TAG_STRING, k);
                push_str(&mut buf, v.as_bytes());
                let ghost sub = props.subrange(0, i + 1);
                assert(sub.drop_last() =~= props.subrange(0, i as int));
                i = i + 1;
                assert(buf@ =~= before + props_bytes(props.subrange(0, i as int)));
            }
            assert(props.subrange(0, props.len() as int) =~= props);
            push_byte(&mut buf, TAG_END);
            assert(buf@ =~= mid + (tag_head(TAG_COMPOUND, "Properties"@) + props_bytes(props) + seq![TAG_END]));
        },
    }
    push_byte(&mut buf, TAG_END);
    proof {
        let head = tag_head(TAG_STRING, "Name"@);
        assert(Seq::<u8>::empty() + head =~= head);
        if b.spec_properties() is None {
            assert(mid =~= mid + Seq::<u8>::empty());
        }
        assert(buf@ == palette_entry(b));
    }
    append_bytes(out, buf.as_slice());
}

fn append_bytes(dst: &mut Vec<u8>, src: &[u8])
    ensures
        final(dst)@ == old(dst)@ + src@,
{
    let mut i: usize = 0;
    while i < src.len()
        invariant
            i <= src@.len(),
            dst@ == old(dst)@ + src@.subrange(0, i as int),
        decreases src@.len() - i,
    {
        dst.push(src[i]);
        i = i + 1;
        assert(dst@ =~= old(dst)@ + src@.subrange(0, i as int));
    }
    assert(src@.subrange(0, src@.len() as int) =~= src@);
}

fn push_section(out: &mut Vec<u8>, s: &Section)
    requires
        s.palette@.len() <= 4097,
        s.data@.len() <= 1024,
    ensures
        final(out)@ == old(out)@ + section_nbt((s.y as int, s.palette@, s.data@)),
{
    let mut buf: Vec<u8> = Vec::new();
    let yb: u8 = if s.y < 0 { (s.y as i16 + 256) as u8 } else { s.y as u8 };
    proof {
        vstd::arithmetic::div_mod::lemma_fundamental_div_mod_converse(
            s.y as int,
            256,
            if s.y < 0 { -1 } else { 0 },
            yb as int,
        );
        reveal_strlit("Y");
        reveal_strlit("block_states");
        reveal_strlit("palette");
        reveal_strlit("data");
    }
    push_named(&mut buf, TAG_BYTE, "Y");
    push_byte(&mut buf, yb);
    assert(yb == byte_of(s.y as int));
    push_named(&mut buf, TAG_COMPOUND, "block_states");
    push_named(&mut buf, TAG_LIST, "palette");
    push_byte(&mut buf, TAG_COMPOUND);
    push_be32(&mut buf, s.palette.len() as i64);
    let ghost before = buf@;
    let mut i: usize = 0;
    assert(s.palette@.subrange(0, 0) =~= Seq::<Block>::empty());
    while i < s.palette.len()
        invariant
            i <= s.palette@.len(),
            buf@ == before + palette_bytes(s.palette@.subrange(0, i as int)),
        decreases s.palette@.len() - i,
    {
        push_palette_entry(&mut buf, s.palette[i]);
        let ghost sub = s.palette@.subrange(0, i + 1);
        assert(sub.drop_last() =~= s.palette@.subrange(0, i as int));
        i = i + 1;
        assert(buf@ =~= before + palette_bytes(s.palette@.subrange(0, i as int)));
    }
    assert(s.palette@.subrange(0, s.palette@.len() as int) =~= s.palette@);
    let ghost after_palette = buf@;
    if s.data.len() > 0 {
        push_named(&mut buf, TAG_LONG_ARRAY, "data");
        push_be32(&mut buf, s.data.len() as i64);
        let ghost before_longs = buf@;
        let mut j: usize = 0;
        assert(s.data@.subrange(0, 0) =~= Seq::<u64>::empty());
        while j < s.data.len()
            invariant
                j <= s.data@.len(),
                buf@ == before_longs + longs_bytes(s.data@.subrange(0, j as int)),
            decreases s.data@.len() - j,
        {
            push_be64(&mut buf, s.data[j]);
            let ghost sub = s.data@.subrange(0, j + 1);
            assert(sub.drop_last() =~= s.data@.subrange(0, j as int));
            j = j + 1;
            assert(buf@ =~= before_longs + longs_bytes(s.data@.subrange(0, j as int)));
        }
        assert(s.data@.subrange(0, s.data@.len() as int) =~= s.data@);
        assert(buf@ =~= after_palette + (tag_head(TAG_LONG_ARRAY, "data"@) + be32(s.data@.len() as int)
            + longs_bytes(s.data@)));
    } else {
        assert(buf@ =~= after_palette + Seq::<u8>::empty());
    }
    push_byte(&mut buf, TAG_END);
    push_byte(&mut buf, TAG_END);
    proof {
        let head = tag_head(TAG_BYTE, "Y"@);
        assert(Seq::<u8>::empty() + head =~= head);
        assert(buf@ == section_nbt((s.y as int, s.palette@, s.data@)));
    }
    append_bytes(out, buf.as_slice());
}

/// A section in palette form as the encoding sees it.
pub open spec fn section_view(s: Section) -> SectionView {
    (s.y as int, s.palette@, s.data@)
}

/// The sections of chunk `(cx, cz)` that hold a recorded voxel, in palette
/// form, from the lowest.
pub fn chunk_section_list(editor: &WorldEditor, cx: i32, cz: i32) -> (r: Vec<Section>)
    requires
        chunk_in_range((cx as int, cz as int)),
    ensures
        r@.map_values(|s: Section| section_view(s)) == chunk_sections(
            editor@,
            (cx as int, cz as int),
            END_SECTION - MIN_SECTION,
        ),
        forall|i: int| 0 <= i < r@.len() ==> (#[trigger] r@[i]).palette@.len() <= 4097 && r@[i].data@.len() <= 1024,
{
    let ghost c = (cx as int, cz as int);
    let mut r: Vec<Section> = Vec::new();
    let mut sy: i32 = MIN_SECTION;
    assert(r@.map_values(|s: Section| section_view(s)) =~= chunk_sections(editor@, c, 0));
    while sy < END_SECTION
        invariant
            MIN_SECTION <= sy <= END_SECTION,
            chunk_in_range(c),
            c == (cx as int, cz as int),
            r@.map_values(|s: Section| section_view(s)) == chunk_sections(editor@, c, sy - MIN_SECTION),
            forall|i: int| 0 <= i < r@.len() ==> (#[trigger] r@[i]).palette@.len() <= 4097 && r@[i].data@.len() <= 1024,
        decreases END_SECTION - sy,
    {
        let ghost before = r@;
        match encode_section(editor, cx, cz, sy) {
            Some(s) => {
                proof {
                    lemma_section_sizes(section_blocks(editor@, c, sy as int));
                }
                r.push(s);
                assert(r@.map_values(|s: Section| section_view(s)) =~= before.map_values(
                    |s: Section| section_view(s),
                ).push(section_view(s)));
            },
            None => {},
        }
        sy = sy + 1;
    }
    r
}

spec fn word_count_ok(per: int) -> bool {
    (4096 + per - 1) / per <= 1024
}

proof fn lemma_word_count_ok(per: int)
    requires
        4 <= per <= 16,
    ensures
        word_count_ok(per),
{
    vstd::arithmetic::div_mod::lemma_fundamental_div_mod(4096 + per - 1, per);
    vstd::arithmetic::div_mod::lemma_mod_bound(4096 + per - 1, per);
    assert((4096 + per - 1) / per <= 1024) by (nonlinear_arith)
        requires
            4 <= per <= 16,
            4096 + per - 1 == per * ((4096 + per - 1) / per) + (4096 + per - 1) % per,
            0 <= (4096 + per - 1) % per,
    ;
}

/// Palettes and packed words of a section stay small.
proof fn lemma_section_sizes(blocks: Seq<Block>)
    requires
        blocks.len() == 4096,
    ensures
        palette_of(blocks).len() <= 4097,
        section_data(blocks).len() <= 1024,
{
    crate::chunk::lemma_first_seen_len(blocks);
    let p = palette_of(blocks);
    if p.len() != 1 {
        let bits = crate::chunk::bits_for(p.len() as int);
        let per = crate::chunk::per_word(bits) as int;
        assert(4 <= per <= 16) by {
            if bits == 4 {} else if bits == 5 {} else if bits == 6 {} else if bits == 7 {} else if bits == 8 {
            } else if bits == 9 {} else if bits == 10 {} else if bits == 11 {} else if bits == 12 {} else {}
        }
        lemma_word_count_ok(per);
    }
}

proof fn lemma_sections_count(m: Map<Point, Block>, c: (int, int), k: int)
    ensures
        chunk_sections(m, c, k).len() <= if k < 0 { 0 } else { k },
    decreases k,
{
    if k > 0 {
        lemma_sections_count(m, c, k - 1);
    }
}

/// The encoded bytes of chunk `(cx, cz)`.
pub fn encode_chunk(editor: &WorldEditor, cx: i32, cz: i32) -> (r: Vec<u8>)
    requires
        chunk_in_range((cx as int, cz as int)),
    ensures
        r@ == chunk_nbt(
            (cx as int, cz as int),
            chunk_sections(editor@, (cx as int, cz as int), END_SECTION - MIN_SECTION),
        ),
{
    let sections = chunk_section_list(editor, cx, cz);
    let ghost ss = sections@.map_values(|s: Section| section_view(s));
    let mut out: Vec<u8> = Vec::new();
    proof {
        lemma_sections_count(editor@, (cx as int, cz as int), END_SECTION - MIN_SECTION);
    }
    push_chunk_head(&mut out, cx, cz, sections.len());
    let ghost before = out@;
    let mut i: usize = 0;
    assert(ss.subrange(0, 0) =~= Seq::<SectionView>::empty());
    while i < sections.len()
        invariant
            i <= sections@.len(),
            ss == sections@.map_values(|s: Section| section_view(s)),
            forall|k: int| 0 <= k < sections@.len() ==> (#[trigger] sections@[k]).palette@.len() <= 4097 && sections@[k].data@.len() <= 1024,
            out@ == before + sections_bytes(ss.subrange(0, i as int)),
        decreases sections@.len() - i,
    {
        push_section(&mut out, &sections[i]);
        let ghost sub = ss.subrange(0, i + 1);
        assert(sub.drop_last() =~= ss.subrange(0, i as int));
        assert(sub.last() == section_view(sections@[i as int]));
        i = i + 1;
        assert(out@ =~= before + sections_bytes(ss.subrange(0, i as int)));
    }
    assert(ss.subrange(0, ss.len() as int) =~= ss);
    push_byte(&mut out, TAG_END);
    proof {
        let head = chunk_head((cx as int, cz as int), ss.len() as int);
        assert(Seq::<u8>::empty() + head =~= head);
        reveal(chunk_nbt);
        assert(out@ == chunk_nbt((cx as int, cz as int), ss));
    }
    out
}

} // verus!
