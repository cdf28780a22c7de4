use vstd::prelude::*;
use vstd::bytes::{
    lemma_auto_spec_u32_to_from_le_bytes, lemma_auto_spec_u64_to_from_le_bytes, spec_u32_from_le_bytes,
    spec_u32_to_le_bytes, spec_u64_from_le_bytes, spec_u64_to_le_bytes, u32_from_le_bytes, u32_to_le_bytes,
    u64_from_le_bytes, u64_to_le_bytes,
};
use vstd::slice::slice_subrange;

verus! {

/// The little-endian encoding of `v`: eight bytes, least significant first.
pub open spec fn spec_u64_le(v: u64) -> Seq<u8> {
    spec_u64_to_le_bytes(v)
}

/// The little-endian encoding of `v`: four bytes, least significant first.
pub open spec fn spec_u32_le(v: u32) -> Seq<u8> {
    spec_u32_to_le_bytes(v)
}

/// The number encoded little-endian by the eight bytes `s`.
pub open spec fn spec_u64_from_le(s: Seq<u8>) -> u64
    recommends
        s.len() == 8,
{
    spec_u64_from_le_bytes(s)
}

/// The number encoded little-endian by the four bytes `s`.
pub open spec fn spec_u32_from_le(s: Seq<u8>) -> u32
    recommends
        s.len() == 4,
{
    spec_u32_from_le_bytes(s)
}

/// The encoding of a number has eight bytes, and decoding it gives the number back.
pub proof fn lemma_u64_le_roundtrip(v: u64)
    ensures
        spec_u64_le(v).len() == 8,
        spec_u64_from_le(spec_u64_le(v)) == v,
{
    lemma_auto_spec_u64_to_from_le_bytes();
}

/// The encoding of a number has four bytes, and decoding it gives the number back.
pub proof fn lemma_u32_le_roundtrip(v: u32)
    ensures
        spec_u32_le(v).len() == 4,
        spec_u32_from_le(spec_u32_le(v)) == v,
{
    lemma_auto_spec_u32_to_from_le_bytes();
    assert(spec_u32_to_le_bytes(v).len() == 4);
}

/// Encoding the number that eight bytes stand for gives the same eight bytes back.
pub proof fn lemma_u64_le_of_bytes(s: Seq<u8>)
    requires
        s.len() == 8,
    ensures
        spec_u64_le(spec_u64_from_le(s)) == s,
{
    lemma_auto_spec_u64_to_from_le_bytes();
}

/// Encoding the number that four bytes stand for gives the same four bytes back.
pub proof fn lemma_u32_le_of_bytes(s: Seq<u8>)
    requires
        s.len() == 4,
    ensures
        spec_u32_le(spec_u32_from_le(s)) == s,
{
    lemma_auto_spec_u32_to_from_le_bytes();
}

/// Appends `bytes` to `buf`.
fn push_all(buf: &mut Vec<u8>, bytes: &Vec<u8>)
    ensures
        final(buf)@ == old(buf)@ + bytes@,
{
    let mut i: usize = 0;
    while i < bytes.len()
        invariant
            i <= bytes@.len(),
            buf@ == old(buf)@ + bytes@.take(i as int),
        decreases bytes@.len() - i,
    {
        buf.push(bytes[i]);
        i = i + 1;
        assert(buf@ =~= old(buf)@ + bytes@.take(i as int));
    }
    assert(bytes@.take(i as int) =~= bytes@);
}

/// Appends the little-endian bytes of `v` to `buf`.
pub fn push_u64_le(buf: &mut Vec<u8>, v: u64)
    ensures
        final(buf)@ == old(buf)@ + spec_u64_le(v),
{
    let bytes = u64_to_le_bytes(v);
    push_all(buf, &bytes);
}

/// Appends the little-endian bytes of `v` to `buf`.
pub fn push_u32_le(buf: &mut Vec<u8>, v: u32)
    ensures
        final(buf)@ == old(buf)@ + spec_u32_le(v),
{
    let bytes = u32_to_le_bytes(v);
    push_all(buf, &bytes);
}

/// The number encoded little-endian by the eight bytes of `bytes` at `offset`.
pub fn read_u64_le(bytes: &[u8], offset: usize) -> (r: u64)
    requires
        offset + 8 <= bytes@.len(),
    ensures
        r == spec_u64_from_le(bytes@.subrange(offset as int, offset + 8)),
{
    let len = bytes.len();
    assert(offset + 8 <= len);
    u64_from_le_bytes(slice_subrange(bytes, offset, offset + 8))
}

/// The number encoded little-endian by the four bytes of `bytes` at `offset`.
pub fn read_u32_le(bytes: &[u8], offset: usize) -> (r: u32)
    requires
        offset + 4 <= bytes@.len(),
    ensures
        r == spec_u32_from_le(bytes@.subrange(offset as int, offset + 4)),
{
    let len = bytes.len();
    assert(offset + 4 <= len);
    u32_from_le_bytes(slice_subrange(bytes, offset, offset + 4))
}

} // verus!
