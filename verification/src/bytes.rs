//! Big-endian integer encodings and byte-buffer helpers used by the wire format.

use vstd::prelude::*;

verus! {

/// The two big-endian bytes of `x`.
pub open spec fn be16(x: u16) -> Seq<u8> {
    seq![(x >> 8u16) as u8, x as u8]
}

/// The four big-endian bytes of `x`.
pub open spec fn be32(x: u32) -> Seq<u8> {
    seq![(x >> 24u32) as u8, (x >> 16u32) as u8, (x >> 8u32) as u8, x as u8]
}

/// The eight big-endian bytes of `x`.
pub open spec fn be64(x: u64) -> Seq<u8> {
    seq![
        (x >> 56u64) as u8,
        (x >> 48u64) as u8,
        (x >> 40u64) as u8,
        (x >> 32u64) as u8,
        (x >> 24u64) as u8,
        (x >> 16u64) as u8,
        (x >> 8u64) as u8,
        x as u8,
    ]
}

/// The integer whose big-endian bytes are the first two of `s`.
pub open spec fn from_be16(s: Seq<u8>) -> u16
    recommends
        s.len() >= 2,
{
    ((s[0] as u16) << 8u16) | (s[1] as u16)
}

/// The integer whose big-endian bytes are the first four of `s`.
pub open spec fn from_be32(s: Seq<u8>) -> u32
    recommends
        s.len() >= 4,
{
    ((s[0] as u32) << 24u32) | ((s[1] as u32) << 16u32) | ((s[2] as u32) << 8u32) | (s[3] as u32)
}

/// The integer whose big-endian bytes are the first eight of `s`.
pub open spec fn from_be64(s: Seq<u8>) -> u64
    recommends
        s.len() >= 8,
{
    ((s[0] as u64) << 56u64) | ((s[1] as u64) << 48u64) | ((s[2] as u64) << 40u64) | ((s[3] as u64)
        << 32u64) | ((s[4] as u64) << 24u64) | ((s[5] as u64) << 16u64) | ((s[6] as u64) << 8u64)
        | (s[7] as u64)
}

/// Reading back the big-endian bytes of a 16-bit integer gives the integer.
pub proof fn lemma_be16_roundtrip(x: u16)
    ensures
        be16(x).len() == 2,
        from_be16(be16(x)) == x,
{
    assert((((x >> 8u16) as u8) as u16) << 8u16 | ((x as u8) as u16) == x) by (bit_vector);
}

/// Reading back the big-endian bytes of a 32-bit integer gives the integer.
pub proof fn lemma_be32_roundtrip(x: u32)
    ensures
        be32(x).len() == 4,
        from_be32(be32(x)) == x,
{
    assert(((((x >> 24u32) as u8) as u32) << 24u32) | ((((x >> 16u32) as u8) as u32) << 16u32) | ((((
    x >> 8u32) as u8) as u32) << 8u32) | ((x as u8) as u32) == x) by (bit_vector);
}

/// Reading back the big-endian bytes of a 64-bit integer gives the integer.
pub proof fn lemma_be64_roundtrip(x: u64)
    ensures
        be64(x).len() == 8,
        from_be64(be64(x)) == x,
{
    assert(((((x >> 56u64) as u8) as u64) << 56u64) | ((((x >> 48u64) as u8) as u64) << 48u64) | ((((
    x >> 40u64) as u8) as u64) << 40u64) | ((((x >> 32u64) as u8) as u64) << 32u64) | ((((x
        >> 24u64) as u8) as u64) << 24u64) | ((((x >> 16u64) as u8) as u64) << 16u64) | ((((x
        >> 8u64) as u8) as u64) << 8u64) | ((x as u8) as u64) == x) by (bit_vector);
}

/// Reinterpreting a signed 64-bit integer as unsigned and back gives it again.
pub proof fn lemma_i64_u64_roundtrip(n: i64)
    ensures
        ((n as u64) as i64) == n,
{
    assert(((n as u64) as i64) == n) by (bit_vector);
}

/// The number whose base-256 digits, most significant first, are the bytes of `s`.
pub open spec fn be_value(s: Seq<u8>) -> int
    decreases s.len(),
{
    if s.len() == 0 {
        0
    } else {
        be_value(s.drop_last()) * 256 + s.last() as int
    }
}

/// Reading one more byte of `s` shifts the value read so far by one byte.
proof fn lemma_be_value_prefix(s: Seq<u8>, k: int)
    requires
        0 <= k < s.len(),
    ensures
        be_value(s.subrange(0, k + 1)) == be_value(s.subrange(0, k)) * 256 + s[k] as int,
{
    assert(s.subrange(0, k + 1).drop_last() =~= s.subrange(0, k));
}

/// The value of the first two bytes of `s`.
pub proof fn law_be_value_2(s: Seq<u8>)
    requires
        s.len() >= 2,
    ensures
        be_value(s.subrange(0, 2)) == s[0] as int * 0x100 + s[1] as int,
{
    assert(s.subrange(0, 0) =~= Seq::<u8>::empty());
    lemma_be_value_prefix(s, 0);
    lemma_be_value_prefix(s, 1);
}

/// The value of the first four bytes of `s`.
pub proof fn law_be_value_4(s: Seq<u8>)
    requires
        s.len() >= 4,
    ensures
        be_value(s.subrange(0, 4)) == s[0] as int * 0x100_0000 + s[1] as int * 0x1_0000 + s[2] as int
            * 0x100 + s[3] as int,
{
    law_be_value_2(s);
    lemma_be_value_prefix(s, 2);
    lemma_be_value_prefix(s, 3);
}

/// The value of the first eight bytes of `s`.
pub proof fn law_be_value_8(s: Seq<u8>)
    requires
        s.len() >= 8,
    ensures
        be_value(s.subrange(0, 8)) == s[0] as int * 0x100_0000_0000_0000 + s[1] as int
            * 0x1_0000_0000_0000 + s[2] as int * 0x100_0000_0000 + s[3] as int * 0x1_0000_0000
            + s[4] as int * 0x100_0000 + s[5] as int * 0x1_0000 + s[6] as int * 0x100 + s[7] as int,
{
    law_be_value_4(s);
    lemma_be_value_prefix(s, 4);
    lemma_be_value_prefix(s, 5);
    lemma_be_value_prefix(s, 6);
    lemma_be_value_prefix(s, 7);
}

/// The 16-bit integer read from two bytes is their big-endian value.
pub proof fn law_from_be16_value(s: Seq<u8>)
    requires
        s.len() >= 2,
    ensures
        from_be16(s) as int == be_value(s.subrange(0, 2)),
{
    law_be_value_2(s);
    let b0 = s[0];
    let b1 = s[1];
    assert((((b0 as u16) << 8u16) | (b1 as u16)) as int == b0 as int * 0x100 + b1 as int)
        by (bit_vector);
}

/// The 32-bit integer read from four bytes is their big-endian value.
pub proof fn law_from_be32_value(s: Seq<u8>)
    requires
        s.len() >= 4,
    ensures
        from_be32(s) as int == be_value(s.subrange(0, 4)),
{
    law_be_value_4(s);
    let b0 = s[0];
    let b1 = s[1];
    let b2 = s[2];
    let b3 = s[3];
    assert((((b0 as u32) << 24u32) | ((b1 as u32) << 16u32) | ((b2 as u32) << 8u32) | (b3 as u32))
        as int == b0 as int * 0x100_0000 + b1 as int * 0x1_0000 + b2 as int * 0x100 + b3 as int)
        by (bit_vector);
}

/// The 64-bit integer read from eight bytes is their big-endian value.
pub proof fn law_from_be64_value(s: Seq<u8>)
    requires
        s.len() >= 8,
    ensures
        from_be64(s) as int == be_value(s.subrange(0, 8)),
{
    law_be_value_8(s);
    let b0 = s[0];
    let b1 = s[1];
    let b2 = s[2];
    let b3 = s[3];
    let b4 = s[4];
    let b5 = s[5];
    let b6 = s[6];
    let b7 = s[7];
    assert((((b0 as u64) << 56u64) | ((b1 as u64) << 48u64) | ((b2 as u64) << 40u64) | ((b3 as u64)
        << 32u64) | ((b4 as u64) << 24u64) | ((b5 as u64) << 16u64) | ((b6 as u64) << 8u64) | (
    b7 as u64)) as int == b0 as int * 0x100_0000_0000_0000 + b1 as int * 0x1_0000_0000_0000 + b2 as int
        * 0x100_0000_0000 + b3 as int * 0x1_0000_0000 + b4 as int * 0x100_0000 + b5 as int
        * 0x1_0000 + b6 as int * 0x100 + b7 as int) by (bit_vector);
}

/// The two bytes written for `x` are its big-endian digits: their value is `x`.
pub proof fn law_be16_value(x: u16)
    ensures
        be16(x).len() == 2,
        be_value(be16(x)) == x,
{
    lemma_be16_roundtrip(x);
    law_from_be16_value(be16(x));
    assert(be16(x).subrange(0, 2) =~= be16(x));
}

/// The four bytes written for `x` are its big-endian digits: their value is `x`.
pub proof fn law_be32_value(x: u32)
    ensures
        be32(x).len() == 4,
        be_value(be32(x)) == x,
{
    lemma_be32_roundtrip(x);
    law_from_be32_value(be32(x));
    assert(be32(x).subrange(0, 4) =~= be32(x));
}

/// The eight bytes written for `x` are its big-endian digits: their value is `x`.
pub proof fn law_be64_value(x: u64)
    ensures
        be64(x).len() == 8,
        be_value(be64(x)) == x,
{
    lemma_be64_roundtrip(x);
    law_from_be64_value(be64(x));
    assert(be64(x).subrange(0, 8) =~= be64(x));
}

/// A signed 64-bit integer reinterpreted as unsigned is itself when not
/// negative, and itself plus 2^64 when negative (two's complement).
pub proof fn law_i64_as_u64(n: i64)
    ensures
        (n as u64) as int == (if n >= 0 {
            n as int
        } else {
            n as int + 0x1_0000_0000_0000_0000
        }),
{
    assert(n >= 0 ==> (n as u64) as int == n as int) by (bit_vector);
    assert(n < 0 ==> (n as u64) as int == n as int + 0x1_0000_0000_0000_0000) by (bit_vector);
}

/// Appends the big-endian bytes of `x` to `out`.
pub fn push_be16(out: &mut Vec<u8>, x: u16)
    ensures
        final(out)@ == old(out)@ + be16(x),
{
    out.push((x >> 8u16) as u8);
    out.push(x as u8);
    assert(final(out)@ =~= old(out)@ + be16(x));
}

/// Appends the big-endian bytes of `x` to `out`.
pub fn push_be32(out: &mut Vec<u8>, x: u32)
    ensures
        final(out)@ == old(out)@ + be32(x),
{
    out.push((x >> 24u32) as u8);
    out.push((x >> 16u32) as u8);
    out.push((x >> 8u32) as u8);
    out.push(x as u8);
    assert(final(out)@ =~= old(out)@ + be32(x));
}

/// Appends the big-endian bytes of `x` to `out`.
pub fn push_be64(out: &mut Vec<u8>, x: u64)
    ensures
        final(out)@ == old(out)@ + be64(x),
{
    out.push((x >> 56u64) as u8);
    out.push((x >> 48u64) as u8);
    out.push((x >> 40u64) as u8);
    out.push((x >> 32u64) as u8);
    out.push((x >> 24u64) as u8);
    out.push((x >> 16u64) as u8);
    out.push((x >> 8u64) as u8);
    out.push(x as u8);
    assert(final(out)@ =~= old(out)@ + be64(x));
}

/// Appends the bytes of `bytes` to `out`.
pub fn push_bytes(out: &mut Vec<u8>, bytes: &[u8])
    ensures
        final(out)@ == old(out)@ + bytes@,
{
    let mut i: usize = 0;
    while i < bytes.len()
        invariant
            0 <= i <= bytes@.len(),
            out@ == old(out)@ + bytes@.subrange(0, i as int),
        decreases bytes@.len() - i,
    {
        out.push(bytes[i]);
        i = i + 1;
        assert(out@ =~= old(out)@ + bytes@.subrange(0, i as int));
    }
    assert(bytes@.subrange(0, bytes@.len() as int) =~= bytes@);
}

/// The 16-bit integer stored big-endian at `data[at..at + 2]`.
pub fn read_be16(data: &[u8], at: usize) -> (r: u16)
    requires
        at + 2 <= data@.len(),
    ensures
        r == from_be16(data@.subrange(at as int, at + 2)),
{
    ((data[at] as u16) << 8u16) | (data[at + 1] as u16)
}

/// The 32-bit integer stored big-endian at `data[at..at + 4]`.
pub fn read_be32(data: &[u8], at: usize) -> (r: u32)
    requires
        at + 4 <= data@.len(),
    ensures
        r == from_be32(data@.subrange(at as int, at + 4)),
{
    ((data[at] as u32) << 24u32) | ((data[at + 1] as u32) << 16u32) | ((data[at + 2] as u32) << 8u32)
        | (data[at + 3] as u32)
}

/// The 64-bit integer stored big-endian at `data[at..at + 8]`.
pub fn read_be64(data: &[u8], at: usize) -> (r: u64)
    requires
        at + 8 <= data@.len(),
    ensures
        r == from_be64(data@.subrange(at as int, at + 8)),
{
    ((data[at] as u64) << 56u64) | ((data[at + 1] as u64) << 48u64) | ((data[at + 2] as u64)
        << 40u64) | ((data[at + 3] as u64) << 32u64) | ((data[at + 4] as u64) << 24u64) | ((data[at
        + 5] as u64) << 16u64) | ((data[at + 6] as u64) << 8u64) | (data[at + 7] as u64)
}

} // verus!
