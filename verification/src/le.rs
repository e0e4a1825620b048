//! Little-endian integers as byte strings, and byte-wise negation.
use vstd::prelude::*;

verus! {

/// The bytes of `s`, each bitwise negated.
pub open spec fn negated(s: Seq<u8>) -> Seq<u8> {
    s.map_values(|b: u8| !b)
}

/// The little-endian bytes of a `u16`.
pub open spec fn le16(x: u16) -> Seq<u8> {
    seq![(x & 0xff) as u8, ((x >> 8u16) & 0xff) as u8]
}

/// The `u16` whose little-endian bytes are `s`.
pub open spec fn from_le16(s: Seq<u8>) -> u16
    recommends
        s.len() == 2,
{
    (s[0] as u16) | ((s[1] as u16) << 8u16)
}

/// The little-endian bytes of a `u32`.
pub open spec fn le32(x: u32) -> Seq<u8> {
    seq![
        (x & 0xff) as u8,
        ((x >> 8u32) & 0xff) as u8,
        ((x >> 16u32) & 0xff) as u8,
        ((x >> 24u32) & 0xff) as u8,
    ]
}

/// The `u32` whose little-endian bytes are `s`.
pub open spec fn from_le32(s: Seq<u8>) -> u32
    recommends
        s.len() == 4,
{
    (s[0] as u32) | ((s[1] as u32) << 8u32) | ((s[2] as u32) << 16u32) | ((s[3] as u32) << 24u32)
}

/// The little-endian bytes of a `u64`.
pub open spec fn le64(x: u64) -> Seq<u8> {
    seq![
        (x & 0xff) as u8,
        ((x >> 8u64) & 0xff) as u8,
        ((x >> 16u64) & 0xff) as u8,
        ((x >> 24u64) & 0xff) as u8,
        ((x >> 32u64) & 0xff) as u8,
        ((x >> 40u64) & 0xff) as u8,
        ((x >> 48u64) & 0xff) as u8,
        ((x >> 56u64) & 0xff) as u8,
    ]
}

/// The `u64` whose little-endian bytes are `s`.
pub open spec fn from_le64(s: Seq<u8>) -> u64
    recommends
        s.len() == 8,
{
    (s[0] as u64) | ((s[1] as u64) << 8u64) | ((s[2] as u64) << 16u64) | ((s[3] as u64) << 24u64)
        | ((s[4] as u64) << 32u64) | ((s[5] as u64) << 40u64) | ((s[6] as u64) << 48u64) | ((
    s[7] as u64) << 56u64)
}

/// Reading back the bytes of a `u16` gives it back; two bytes that are read and written again
/// are unchanged; the bytes of a negated `u16` are its bytes negated.
pub proof fn lemma_le16(x: u16, s: Seq<u8>)
    ensures
        le16(x).len() == 2,
        from_le16(le16(x)) == x,
        s.len() == 2 ==> le16(from_le16(s)) == s,
        le16(!x) == negated(le16(x)),
{
    assert(x == ((x & 0xff) as u8 as u16) | (((x >> 8u16) & 0xff) as u8 as u16) << 8u16)
        by (bit_vector);
    assert(!x & 0xff == !((x & 0xff) as u8) as u16) by (bit_vector);
    assert((!x >> 8u16) & 0xff == !(((x >> 8u16) & 0xff) as u8) as u16) by (bit_vector);
    assert(le16(!x) =~= negated(le16(x)));
    if s.len() == 2 {
        let a = s[0];
        let b = s[1];
        let y = (a as u16) | ((b as u16) << 8u16);
        assert((y & 0xff) as u8 == a && ((y >> 8u16) & 0xff) as u8 == b) by (bit_vector)
            requires
                y == (a as u16) | ((b as u16) << 8u16),
        ;
        assert(le16(from_le16(s)) =~= s);
    }
}

/// Reading back the bytes of a `u32` gives it back; four bytes that are read and written again
/// are unchanged; the bytes of a negated `u32` are its bytes negated.
pub proof fn lemma_le32(x: u32, s: Seq<u8>)
    ensures
        le32(x).len() == 4,
        from_le32(le32(x)) == x,
        s.len() == 4 ==> le32(from_le32(s)) == s,
        le32(!x) == negated(le32(x)),
{
    assert(x == ((x & 0xff) as u8 as u32) | (((x >> 8u32) & 0xff) as u8 as u32) << 8u32 | (((x
        >> 16u32) & 0xff) as u8 as u32) << 16u32 | (((x >> 24u32) & 0xff) as u8 as u32) << 24u32)
        by (bit_vector);
    assert(!x & 0xff == !((x & 0xff) as u8) as u32) by (bit_vector);
    assert((!x >> 8u32) & 0xff == !(((x >> 8u32) & 0xff) as u8) as u32) by (bit_vector);
    assert((!x >> 16u32) & 0xff == !(((x >> 16u32) & 0xff) as u8) as u32) by (bit_vector);
    assert((!x >> 24u32) & 0xff == !(((x >> 24u32) & 0xff) as u8) as u32) by (bit_vector);
    assert(le32(!x) =~= negated(le32(x)));
    if s.len() == 4 {
        let a = s[0];
        let b = s[1];
        let c = s[2];
        let d = s[3];
        let y = (a as u32) | ((b as u32) << 8u32) | ((c as u32) << 16u32) | ((d as u32) << 24u32);
        assert((y & 0xff) as u8 == a && ((y >> 8u32) & 0xff) as u8 == b && ((y >> 16u32) & 0xff) as u8
            == c && ((y >> 24u32) & 0xff) as u8 == d) by (bit_vector)
            requires
                y == (a as u32) | ((b as u32) << 8u32) | ((c as u32) << 16u32) | ((d as u32)
                    << 24u32),
        ;
        assert(le32(from_le32(s)) =~= s);
    }
}

/// Reading back the bytes of a `u64` gives it back; eight bytes that are read and written again
/// are unchanged; the bytes of a negated `u64` are its bytes negated.
pub proof fn lemma_le64(x: u64, s: Seq<u8>)
    ensures
        le64(x).len() == 8,
        from_le64(le64(x)) == x,
        s.len() == 8 ==> le64(from_le64(s)) == s,
        le64(!x) == negated(le64(x)),
{
    assert(x == ((x & 0xff) as u8 as u64) | (((x >> 8u64) & 0xff) as u8 as u64) << 8u64 | (((x
        >> 16u64) & 0xff) as u8 as u64) << 16u64 | (((x >> 24u64) & 0xff) as u8 as u64) << 24u64
        | (((x >> 32u64) & 0xff) as u8 as u64) << 32u64 | (((x >> 40u64) & 0xff) as u8 as u64)
        << 40u64 | (((x >> 48u64) & 0xff) as u8 as u64) << 48u64 | (((x >> 56u64) & 0xff) as u8
        as u64) << 56u64) by (bit_vector);
    assert(!x & 0xff == !((x & 0xff) as u8) as u64) by (bit_vector);
    assert((!x >> 8u64) & 0xff == !(((x >> 8u64) & 0xff) as u8) as u64) by (bit_vector);
    assert((!x >> 16u64) & 0xff == !(((x >> 16u64) & 0xff) as u8) as u64) by (bit_vector);
    assert((!x >> 24u64) & 0xff == !(((x >> 24u64) & 0xff) as u8) as u64) by (bit_vector);
    assert((!x >> 32u64) & 0xff == !(((x >> 32u64) & 0xff) as u8) as u64) by (bit_vector);
    assert((!x >> 40u64) & 0xff == !(((x >> 40u64) & 0xff) as u8) as u64) by (bit_vector);
    assert((!x >> 48u64) & 0xff == !(((x >> 48u64) & 0xff) as u8) as u64) by (bit_vector);
    assert((!x >> 56u64) & 0xff == !(((x >> 56u64) & 0xff) as u8) as u64) by (bit_vector);
    assert(le64(!x) =~= negated(le64(x)));
    if s.len() == 8 {
        let s0 = s[0];
        let s1 = s[1];
        let s2 = s[2];
        let s3 = s[3];
        let s4 = s[4];
        let s5 = s[5];
        let s6 = s[6];
        let s7 = s[7];
        let y = from_le64(s);
        assert((y & 0xff) as u8 == s0 && ((y >> 8u64) & 0xff) as u8 == s1 && ((y >> 16u64) & 0xff)
            as u8 == s2 && ((y >> 24u64) & 0xff) as u8 == s3 && ((y >> 32u64) & 0xff) as u8 == s4
            && ((y >> 40u64) & 0xff) as u8 == s5 && ((y >> 48u64) & 0xff) as u8 == s6 && ((y
            >> 56u64) & 0xff) as u8 == s7) by (bit_vector)
            requires
                y == (s0 as u64) | ((s1 as u64) << 8u64) | ((s2 as u64) << 16u64) | ((s3 as u64)
                    << 24u64) | ((s4 as u64) << 32u64) | ((s5 as u64) << 40u64) | ((s6 as u64)
                    << 48u64) | ((s7 as u64) << 56u64),
        ;
        assert(le64(from_le64(s)) =~= s);
    }
}

/// Read a little-endian `u16` at `pos`.
pub fn read_u16(buf: &[u8], pos: usize) -> (r: u16)
    requires
        pos + 2 <= buf@.len(),
    ensures
        r == from_le16(buf@.subrange(pos as int, pos + 2)),
{
    let ghost s = buf@.subrange(pos as int, pos + 2);
    assert(s[0] == buf@[pos as int] && s[1] == buf@[pos + 1]);
    (buf[pos] as u16) | ((buf[pos + 1] as u16) << 8u16)
}

/// Read a little-endian `u32` at `pos`.
pub fn read_u32(buf: &[u8], pos: usize) -> (r: u32)
    requires
        pos + 4 <= buf@.len(),
    ensures
        r == from_le32(buf@.subrange(pos as int, pos + 4)),
{
    let ghost s = buf@.subrange(pos as int, pos + 4);
    assert(s[0] == buf@[pos as int] && s[1] == buf@[pos + 1] && s[2] == buf@[pos + 2] && s[3]
        == buf@[pos + 3]);
    (buf[pos] as u32) | ((buf[pos + 1] as u32) << 8u32) | ((buf[pos + 2] as u32) << 16u32) | ((
    buf[pos + 3] as u32) << 24u32)
}

/// Read a little-endian `u64` at `pos`.
pub fn read_u64(buf: &[u8], pos: usize) -> (r: u64)
    requires
        pos + 8 <= buf@.len(),
    ensures
        r == from_le64(buf@.subrange(pos as int, pos + 8)),
{
    let ghost s = buf@.subrange(pos as int, pos + 8);
    assert(s[0] == buf@[pos as int] && s[1] == buf@[pos + 1] && s[2] == buf@[pos + 2] && s[3]
        == buf@[pos + 3] && s[4] == buf@[pos + 4] && s[5] == buf@[pos + 5] && s[6] == buf@[pos
        + 6] && s[7] == buf@[pos + 7]);
    (buf[pos] as u64) | ((buf[pos + 1] as u64) << 8u64) | ((buf[pos + 2] as u64) << 16u64) | ((
    buf[pos + 3] as u64) << 24u64) | ((buf[pos + 4] as u64) << 32u64) | ((buf[pos + 5] as u64)
        << 40u64) | ((buf[pos + 6] as u64) << 48u64) | ((buf[pos + 7] as u64) << 56u64)
}

/// Append the little-endian bytes of a `u16`.
pub fn push_u16(v: &mut Vec<u8>, x: u16)
    ensures
        final(v)@ == old(v)@ + le16(x),
{
    v.push((x & 0xff) as u8);
    v.push(((x >> 8u16) & 0xff) as u8);
    assert(v@ =~= old(v)@ + le16(x));
}

/// Append the little-endian bytes of a `u32`.
pub fn push_u32(v: &mut Vec<u8>, x: u32)
    ensures
        final(v)@ == old(v)@ + le32(x),
{
    v.push((x & 0xff) as u8);
    v.push(((x >> 8u32) & 0xff) as u8);
    v.push(((x >> 16u32) & 0xff) as u8);
    v.push(((x >> 24u32) & 0xff) as u8);
    assert(v@ =~= old(v)@ + le32(x));
}

/// Append the little-endian bytes of a `u64`.
pub fn push_u64(v: &mut Vec<u8>, x: u64)
    ensures
        final(v)@ == old(v)@ + le64(x),
{
    v.push((x & 0xff) as u8);
    v.push(((x >> 8u64) & 0xff) as u8);
    v.push(((x >> 16u64) & 0xff) as u8);
    v.push(((x >> 24u64) & 0xff) as u8);
    v.push(((x >> 32u64) & 0xff) as u8);
    v.push(((x >> 40u64) & 0xff) as u8);
    v.push(((x >> 48u64) & 0xff) as u8);
    v.push(((x >> 56u64) & 0xff) as u8);
    assert(v@ =~= old(v)@ + le64(x));
}

} // verus!
