//! The binary named-tag encoding: big-endian integers, length-prefixed
//! strings, and tag headers, written onto a byte vector.

use vstd::prelude::*;
use vstd::utf8::encode_utf8;

verus! {

/// Tag types of the named-tag encoding.
pub const TAG_END: u8 = 0;

pub const TAG_BYTE: u8 = 1;

pub const TAG_INT: u8 = 3;

pub const TAG_LONG: u8 = 4;

pub const TAG_STRING: u8 = 8;

pub const TAG_LIST: u8 = 9;

pub const TAG_COMPOUND: u8 = 10;

pub const TAG_LONG_ARRAY: u8 = 12;

/// The low byte of `v`, in two's complement for negative values.
pub open spec fn byte_of(v: int) -> u8 {
    (v % 256) as u8
}

/// `v` as two big-endian bytes.
pub open spec fn be16(v: int) -> Seq<u8> {
    seq![byte_of(v / 0x100), byte_of(v)]
}

/// `v` as four big-endian bytes, two's complement for negative values.
pub open spec fn be32(v: int) -> Seq<u8> {
    let u = v % 0x1_0000_0000;
    seq![(u / 0x100_0000) as u8, (u / 0x1_0000 % 0x100) as u8, (u / 0x100 % 0x100) as u8, (u % 0x100) as u8]
}

/// `v` as eight big-endian bytes.
pub open spec fn be64(v: int) -> Seq<u8> {
    be32(v / 0x1_0000_0000) + be32(v % 0x1_0000_0000)
}

/// A string payload: its length in two bytes, then its bytes.
pub open spec fn nbt_str(b: Seq<u8>) -> Seq<u8> {
    be16(b.len() as int) + b
}

/// The header of a named tag: the tag type, then the name as a string.
pub open spec fn tag_head(tag: u8, name: Seq<char>) -> Seq<u8> {
    seq![tag] + nbt_str(encode_utf8(name))
}

/// The UTF-8 encoding takes at most four bytes per character.
pub proof fn lemma_utf8_len(s: Seq<char>)
    ensures
        encode_utf8(s).len() <= 4 * s.len(),
    decreases s.len(),
{
    if s.len() > 0 {
        lemma_utf8_len(s.drop_first());
    }
}

/// Appends one byte.
pub fn push_byte(out: &mut Vec<u8>, b: u8)
    ensures
        final(out)@ == old(out)@ + seq![b],
{
    out.push(b);
    assert(out@ =~= old(out)@ + seq![b]);
}

/// Appends `v` as four big-endian bytes.
pub fn push_be32(out: &mut Vec<u8>, v: i64)
    requires
        -0x8000_0000 <= v < 0x1_0000_0000,
    ensures
        final(out)@ == old(out)@ + be32(v as int),
{
    let u: u64 = if v < 0 { (v + 0x1_0000_0000) as u64 } else { v as u64 };
    proof {
        if v < 0 {
            vstd::arithmetic::div_mod::lemma_fundamental_div_mod_converse(v as int, 0x1_0000_0000, -1, u as int);
        } else {
            vstd::arithmetic::div_mod::lemma_fundamental_div_mod_converse(v as int, 0x1_0000_0000, 0, u as int);
        }
        assert(u as int == (v as int) % 0x1_0000_0000);
    }
    out.push((u / 0x100_0000) as u8);
    out.push((u / 0x1_0000 % 0x100) as u8);
    out.push((u / 0x100 % 0x100) as u8);
    out.push((u % 0x100) as u8);
    assert(out@ =~= old(out)@ + be32(v as int));
}

/// Appends `v` as eight big-endian bytes.
pub fn push_be64(out: &mut Vec<u8>, v: u64)
    ensures
        final(out)@ == old(out)@ + be64(v as int),
{
    let hi = (v / 0x1_0000_0000) as i64;
    let lo = (v % 0x1_0000_0000) as i64;
    push_be32(out, hi);
    push_be32(out, lo);
    assert(out@ =~= old(out)@ + be64(v as int));
}

/// Appends a string payload. Its bytes must fit the two-byte length.
pub fn push_str(out: &mut Vec<u8>, s: &[u8])
    requires
        s@.len() <= 0xFFFF,
    ensures
        final(out)@ == old(out)@ + nbt_str(s@),
{
    let n = s.len() as u64;
    out.push((n / 0x100) as u8);
    out.push((n % 0x100) as u8);
    let ghost mid = out@;
    assert(mid =~= old(out)@ + be16(s@.len() as int));
    let mut i: usize = 0;
    while i < s.len()
        invariant
            i <= s@.len(),
            out@ == mid + s@.subrange(0, i as int),
        decreases s@.len() - i,
    {
        out.push(s[i]);
        i = i + 1;
        assert(out@ =~= mid + s@.subrange(0, i as int));
    }
    assert(s@.subrange(0, s@.len() as int) =~= s@);
    assert(out@ =~= old(out)@ + nbt_str(s@));
}

/// Appends the header of a tag of type `tag` named `name`.
pub fn push_head(out: &mut Vec<u8>, tag: u8, name: &str)
    requires
        encode_utf8(name@).len() <= 0xFFFF,
    ensures
        final(out)@ == old(out)@ + tag_head(tag, name@),
{
    push_byte(out, tag);
    push_str(out, name.as_bytes());
    assert(out@ =~= old(out)@ + tag_head(tag, name@));
}

} // verus!
