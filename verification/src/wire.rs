//! Little-endian integers inside byte strings.

use vstd::prelude::*;

verus! {

/// The two's complement bit pattern of `x`.
pub open spec fn i16_bits(x: i16) -> u16 {
    if x < 0 {
        (x + 0x1_0000) as u16
    } else {
        x as u16
    }
}

/// The value whose two's complement bit pattern is `v`.
pub open spec fn i16_from_bits(v: u16) -> i16 {
    if v >= 0x8000 {
        (v - 0x1_0000) as i16
    } else {
        v as i16
    }
}

/// Little-endian bytes of a 16-bit value.
pub open spec fn u16_bytes(v: u16) -> Seq<u8> {
    seq![(v % 256) as u8, (v / 256) as u8]
}

/// Little-endian bytes of a 32-bit value.
pub open spec fn u32_bytes(v: u32) -> Seq<u8> {
    seq![
        (v % 256) as u8,
        (v / 256 % 256) as u8,
        (v / 65536 % 256) as u8,
        (v / 16777216) as u8,
    ]
}

/// Little-endian bytes of a signed 16-bit value.
pub open spec fn i16_bytes(v: i16) -> Seq<u8> {
    u16_bytes(i16_bits(v))
}

/// The 16-bit value stored at `at`, low byte first.
pub open spec fn u16_at(b: Seq<u8>, at: int) -> u16 {
    (b[at] + 256 * b[at + 1]) as u16
}

/// The 32-bit value stored at `at`, low byte first.
pub open spec fn u32_at(b: Seq<u8>, at: int) -> u32 {
    (b[at] + 256 * b[at + 1] + 65536 * b[at + 2] + 16777216 * b[at + 3]) as u32
}

/// The signed 16-bit value stored at `at`, low byte first.
pub open spec fn i16_at(b: Seq<u8>, at: int) -> i16 {
    i16_from_bits(u16_at(b, at))
}

/// Byte strings one after the other.
pub open spec fn joined(chunks: Seq<Seq<u8>>) -> Seq<u8>
    decreases chunks.len(),
{
    if chunks.len() == 0 {
        Seq::empty()
    } else {
        joined(chunks.drop_last()) + chunks.last()
    }
}

/// Reading back what was written gives the value, wherever in a byte string
/// it stands.
pub proof fn lemma_u16_at(b: Seq<u8>, at: int, v: u16)
    requires
        0 <= at,
        at + 2 <= b.len(),
        b.subrange(at, at + 2) == u16_bytes(v),
    ensures
        u16_at(b, at) == v,
{
    let s = b.subrange(at, at + 2);
    assert(s[0] == b[at] && s[1] == b[at + 1]);
}

/// Reading back what was written gives the value.
pub proof fn lemma_i16_at(b: Seq<u8>, at: int, v: i16)
    requires
        0 <= at,
        at + 2 <= b.len(),
        b.subrange(at, at + 2) == i16_bytes(v),
    ensures
        i16_at(b, at) == v,
{
    lemma_u16_at(b, at, i16_bits(v));
}

/// Reading back what was written gives the value.
pub proof fn lemma_u32_at(b: Seq<u8>, at: int, v: u32)
    requires
        0 <= at,
        at + 4 <= b.len(),
        b.subrange(at, at + 4) == u32_bytes(v),
    ensures
        u32_at(b, at) == v,
{
    let s = b.subrange(at, at + 4);
    assert(s[0] == b[at] && s[1] == b[at + 1] && s[2] == b[at + 2] && s[3] == b[at + 3]);
}

/// Read a 16-bit value at `at`.
pub fn get_u16(b: &[u8], at: usize) -> (v: u16)
    requires
        at + 2 <= b@.len(),
    ensures
        v == u16_at(b@, at as int),
{
    b[at] as u16 + 256 * (b[at + 1] as u16)
}

/// Read a signed 16-bit value at `at`.
pub fn get_i16(b: &[u8], at: usize) -> (v: i16)
    requires
        at + 2 <= b@.len(),
    ensures
        v == i16_at(b@, at as int),
{
    let v: u16 = get_u16(b, at);
    if v >= 0x8000 {
        (v as i32 - 0x1_0000) as i16
    } else {
        v as i16
    }
}

/// Read a 32-bit value at `at`.
pub fn get_u32(b: &[u8], at: usize) -> (v: u32)
    requires
        at + 4 <= b@.len(),
    ensures
        v == u32_at(b@, at as int),
{
    b[at] as u32 + 256 * (b[at + 1] as u32) + 65536 * (b[at + 2] as u32) + 16777216 * (
    b[at + 3] as u32)
}

/// Little-endian bytes of a 16-bit value.
pub fn put_u16(v: u16) -> (b: [u8; 2])
    ensures
        b@ == u16_bytes(v),
{
    let b: [u8; 2] = [(v % 256) as u8, (v / 256) as u8];
    assert(b@ =~= u16_bytes(v));
    b
}

/// Little-endian bytes of a signed 16-bit value.
pub fn put_i16(v: i16) -> (b: [u8; 2])
    ensures
        b@ == i16_bytes(v),
{
    if v < 0 {
        put_u16((v as i32 + 0x1_0000) as u16)
    } else {
        put_u16(v as u16)
    }
}

/// Little-endian bytes of a 32-bit value.
pub fn put_u32(v: u32) -> (b: [u8; 4])
    ensures
        b@ == u32_bytes(v),
{
    let b: [u8; 4] = [
        (v % 256) as u8,
        (v / 256 % 256) as u8,
        (v / 65536 % 256) as u8,
        (v / 16777216) as u8,
    ];
    assert(b@ =~= u32_bytes(v));
    b
}

/// Append a copy of `bytes` to `out`.
pub fn append(out: &mut Vec<u8>, bytes: &[u8])
    ensures
        final(out)@ == old(out)@ + bytes@,
{
    out.extend_from_slice(bytes);
}

/// Numbers stand low byte first: what is read is the bytes' place value, and
/// what is written has that place value.
pub proof fn law_little_endian(b: Seq<u8>, at: int, v: u16, w: u32, x: i16)
    ensures
        u16_at(b, at) == b[at] + 256 * b[at + 1],
        u32_at(b, at) == b[at] + 256 * b[at + 1] + 65536 * b[at + 2] + 16777216 * b[at + 3],
        i16_at(b, at) == b[at] + 256 * b[at + 1] - if b[at + 1] >= 128 {
            0x1_0000int
        } else {
            0
        },
        u16_bytes(v).len() == 2,
        u16_bytes(v)[0] + 256 * u16_bytes(v)[1] == v,
        u32_bytes(w).len() == 4,
        u32_bytes(w)[0] + 256 * u32_bytes(w)[1] + 65536 * u32_bytes(w)[2] + 16777216 * u32_bytes(
            w,
        )[3] == w,
        i16_bytes(x).len() == 2,
        i16_bytes(x)[0] + 256 * i16_bytes(x)[1] == if x < 0 {
            x + 0x1_0000
        } else {
            x as int
        },
{
}

/// Joining byte strings keeps each of them whole and in its place.
pub proof fn law_joined_keeps_order(chunks: Seq<Seq<u8>>, chunk: Seq<u8>)
    ensures
        joined(Seq::empty()) == Seq::<u8>::empty(),
        joined(chunks.push(chunk)) == joined(chunks) + chunk,
{
    assert(chunks.push(chunk).drop_last() =~= chunks);
}

} // verus!
