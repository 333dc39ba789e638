//! Fixed-width integers and their byte representations.
//!
//! The protocol is little-endian throughout; the big-endian forms are
//! provided for completeness.

use vstd::prelude::*;

verus! {

/// The value of two bytes read least-significant first.
pub open spec fn u16_from_le(lo: u8, hi: u8) -> int {
    lo as int + 256 * (hi as int)
}

/// The value of four bytes read least-significant first.
pub open spec fn u32_from_le(b0: u8, b1: u8, b2: u8, b3: u8) -> int {
    b0 as int + 256 * (b1 as int) + 65536 * (b2 as int) + 16777216 * (b3 as int)
}

/// The little-endian 16-bit integer at position `at` of `bytes`.
pub open spec fn u16_at(bytes: Seq<u8>, at: int) -> int
    recommends
        0 <= at,
        at + 2 <= bytes.len(),
{
    u16_from_le(bytes[at], bytes[at + 1])
}

/// The little-endian 32-bit integer at position `at` of `bytes`.
pub open spec fn u32_at(bytes: Seq<u8>, at: int) -> int
    recommends
        0 <= at,
        at + 4 <= bytes.len(),
{
    u32_from_le(bytes[at], bytes[at + 1], bytes[at + 2], bytes[at + 3])
}

/// The `count` little-endian 16-bit integers that start at position `at`.
pub open spec fn u16s_at(bytes: Seq<u8>, at: int, count: int) -> Seq<u16>
    recommends
        0 <= at,
        0 <= count,
        at + 2 * count <= bytes.len(),
{
    Seq::new(count as nat, |i: int| u16_at(bytes, at + 2 * i) as u16)
}

/// The two bytes of `x`, least significant first.
pub open spec fn u16_le(x: int) -> Seq<u8>
    recommends
        0 <= x < 0x1_0000,
{
    seq![(x % 256) as u8, (x / 256 % 256) as u8]
}

/// The four bytes of `x`, least significant first.
pub open spec fn u32_le(x: int) -> Seq<u8>
    recommends
        0 <= x < 0x1_0000_0000,
{
    seq![
        (x % 256) as u8,
        (x / 256 % 256) as u8,
        (x / 65536 % 256) as u8,
        (x / 16777216 % 256) as u8,
    ]
}

/// The eight bytes of `x`, least significant first.
pub open spec fn u64_le(x: int) -> Seq<u8>
    recommends
        0 <= x < 0x1_0000_0000_0000_0000,
{
    u32_le(x % 0x1_0000_0000) + u32_le(x / 0x1_0000_0000)
}

/// The two bytes of `x`, most significant first.
pub open spec fn u16_be(x: int) -> Seq<u8>
    recommends
        0 <= x < 0x1_0000,
{
    seq![(x / 256 % 256) as u8, (x % 256) as u8]
}

/// The four bytes of `x`, most significant first.
pub open spec fn u32_be(x: int) -> Seq<u8>
    recommends
        0 <= x < 0x1_0000_0000,
{
    seq![
        (x / 16777216 % 256) as u8,
        (x / 65536 % 256) as u8,
        (x / 256 % 256) as u8,
        (x % 256) as u8,
    ]
}

/// The bytes of a list of 16-bit integers, each little-endian, in order.
pub open spec fn u16s_le(values: Seq<u16>) -> Seq<u8> {
    Seq::new(
        2 * values.len(),
        |k: int|
            if k % 2 == 0 {
                (values[k / 2] % 256) as u8
            } else {
                (values[k / 2] / 256) as u8
            },
    )
}

/// `count` zero bytes.
pub open spec fn zeros(count: int) -> Seq<u8> {
    Seq::new(count as nat, |k: int| 0u8)
}

/// Encodes a 16-bit integer little-endian.
pub fn u16_to_bytes(x: u16) -> (r: [u8; 2])
    ensures
        r@ == u16_le(x as int),
{
    let r = [(x % 256) as u8, (x / 256) as u8];
    assert(r@ =~= u16_le(x as int));
    r
}

/// Encodes a 32-bit integer little-endian.
pub fn u32_to_bytes(x: u32) -> (r: [u8; 4])
    ensures
        r@ == u32_le(x as int),
{
    let r = [
        (x % 256) as u8,
        (x / 256 % 256) as u8,
        (x / 65536 % 256) as u8,
        (x / 16777216) as u8,
    ];
    assert(r@ =~= u32_le(x as int));
    r
}

/// Encodes a 16-bit integer big-endian.
pub fn u16_to_be_bytes(x: u16) -> (r: [u8; 2])
    ensures
        r@ == u16_be(x as int),
{
    let r = [(x / 256) as u8, (x % 256) as u8];
    assert(r@ =~= u16_be(x as int));
    r
}

/// Encodes a 32-bit integer big-endian.
pub fn u32_to_be_bytes(x: u32) -> (r: [u8; 4])
    ensures
        r@ == u32_be(x as int),
{
    let r = [
        (x / 16777216) as u8,
        (x / 65536 % 256) as u8,
        (x / 256 % 256) as u8,
        (x % 256) as u8,
    ];
    assert(r@ =~= u32_be(x as int));
    r
}

/// Decodes a little-endian 16-bit integer.
pub fn bytes_to_u16(bytes: [u8; 2]) -> (r: u16)
    ensures
        r == u16_from_le(bytes[0], bytes[1]),
{
    bytes[0] as u16 + 256 * (bytes[1] as u16)
}

/// Decodes a little-endian 32-bit integer.
pub fn bytes_to_u32(bytes: [u8; 4]) -> (r: u32)
    ensures
        r == u32_from_le(bytes[0], bytes[1], bytes[2], bytes[3]),
{
    bytes[0] as u32 + 256 * (bytes[1] as u32) + 65536 * (bytes[2] as u32) + 16777216 * (
    bytes[3] as u32)
}

/// Decodes a big-endian 16-bit integer.
pub fn be_bytes_to_u16(bytes: [u8; 2]) -> (r: u16)
    ensures
        r == u16_from_le(bytes[1], bytes[0]),
{
    bytes[1] as u16 + 256 * (bytes[0] as u16)
}

/// Decodes a big-endian 32-bit integer.
pub fn be_bytes_to_u32(bytes: [u8; 4]) -> (r: u32)
    ensures
        r == u32_from_le(bytes[3], bytes[2], bytes[1], bytes[0]),
{
    bytes[3] as u32 + 256 * (bytes[2] as u32) + 65536 * (bytes[1] as u32) + 16777216 * (
    bytes[0] as u32)
}

/// Reads the little-endian 16-bit integer at `at`.
pub fn read_u16(bytes: &[u8], at: usize) -> (r: u16)
    requires
        at + 2 <= bytes@.len(),
    ensures
        r == u16_at(bytes@, at as int),
{
    bytes_to_u16([bytes[at], bytes[at + 1]])
}

/// Reads the little-endian 32-bit integer at `at`.
pub fn read_u32(bytes: &[u8], at: usize) -> (r: u32)
    requires
        at + 4 <= bytes@.len(),
    ensures
        r == u32_at(bytes@, at as int),
{
    bytes_to_u32([bytes[at], bytes[at + 1], bytes[at + 2], bytes[at + 3]])
}

/// Reads `count` little-endian 16-bit integers that start at `at`.
pub fn read_u16s(bytes: &[u8], at: usize, count: usize) -> (r: Vec<u16>)
    requires
        at + 2 * count <= bytes@.len(),
    ensures
        r@ == u16s_at(bytes@, at as int, count as int),
{
    let mut out: Vec<u16> = Vec::new();
    let total = bytes.len();
    let mut i: usize = 0;
    while i < count
        invariant
            i <= count,
            total == bytes@.len(),
            at + 2 * count <= bytes@.len(),
            out@ == u16s_at(bytes@, at as int, i as int),
        decreases count - i,
    {
        let v = read_u16(bytes, at + 2 * i);
        out.push(v);
        i += 1;
        assert(out@ =~= u16s_at(bytes@, at as int, i as int));
    }
    out
}

/// Appends the little-endian bytes of a 16-bit integer.
pub fn push_u16(out: &mut Vec<u8>, x: u16)
    ensures
        final(out)@ == old(out)@ + u16_le(x as int),
{
    let b = u16_to_bytes(x);
    out.push(b[0]);
    out.push(b[1]);
    assert(out@ =~= old(out)@ + u16_le(x as int));
}

/// Appends the little-endian bytes of a 32-bit integer.
pub fn push_u32(out: &mut Vec<u8>, x: u32)
    ensures
        final(out)@ == old(out)@ + u32_le(x as int),
{
    let b = u32_to_bytes(x);
    out.push(b[0]);
    out.push(b[1]);
    out.push(b[2]);
    out.push(b[3]);
    assert(out@ =~= old(out)@ + u32_le(x as int));
}

/// Appends the little-endian bytes of each 16-bit integer of a list.
pub fn push_u16s(out: &mut Vec<u8>, values: &Vec<u16>)
    ensures
        final(out)@ == old(out)@ + u16s_le(values@),
{
    let mut i: usize = 0;
    while i < values.len()
        invariant
            i <= values@.len(),
            out@ == old(out)@ + u16s_le(values@.subrange(0, i as int)),
        decreases values@.len() - i,
    {
        let ghost before = out@;
        push_u16(out, values[i]);
        i += 1;
        assert(out@ =~= old(out)@ + u16s_le(values@.subrange(0, i as int)));
    }
    assert(values@.subrange(0, i as int) =~= values@);
}

/// Appends `count` zero bytes.
pub fn push_zeros(out: &mut Vec<u8>, count: usize)
    ensures
        final(out)@ == old(out)@ + zeros(count as int),
{
    let mut i: usize = 0;
    while i < count
        invariant
            i <= count,
            out@ == old(out)@ + zeros(i as int),
        decreases count - i,
    {
        out.push(0u8);
        i += 1;
        assert(out@ =~= old(out)@ + zeros(i as int));
    }
}

/// Appends a copy of `bytes`.
pub fn push_bytes(out: &mut Vec<u8>, bytes: &[u8])
    ensures
        final(out)@ == old(out)@ + bytes@,
{
    let mut i: usize = 0;
    while i < bytes.len()
        invariant
            i <= bytes@.len(),
            out@ == old(out)@ + bytes@.subrange(0, i as int),
        decreases bytes@.len() - i,
    {
        out.push(bytes[i]);
        i += 1;
        assert(out@ =~= old(out)@ + bytes@.subrange(0, i as int));
    }
    assert(bytes@.subrange(0, i as int) =~= bytes@);
}

/// Decoding the little-endian encoding of a 16-bit integer gives it back.
pub proof fn lemma_u16_round_trip(x: int)
    requires
        0 <= x < 0x1_0000,
    ensures
        u16_le(x).len() == 2,
        u16_at(u16_le(x), 0) == x,
        u16_from_le(u16_be(x)[1], u16_be(x)[0]) == x,
{
}

/// Decoding the little-endian encoding of a 32-bit integer gives it back.
pub proof fn lemma_u32_round_trip(x: int)
    requires
        0 <= x < 0x1_0000_0000,
    ensures
        u32_le(x).len() == 4,
        u32_at(u32_le(x), 0) == x,
        u32_from_le(u32_be(x)[3], u32_be(x)[2], u32_be(x)[1], u32_be(x)[0]) == x,
{
}

/// Encoding the value of two bytes gives the bytes back.
pub proof fn lemma_u16_bytes_round_trip(b0: u8, b1: u8)
    ensures
        u16_le(u16_from_le(b0, b1)) == seq![b0, b1],
        u16_be(u16_from_le(b1, b0)) == seq![b0, b1],
{
    let x = u16_from_le(b0, b1);
    assert(x % 256 == b0 && x / 256 == b1);
    assert(u16_le(x) =~= seq![b0, b1]);
    let y = u16_from_le(b1, b0);
    assert(y % 256 == b1 && y / 256 == b0);
    assert(u16_be(y) =~= seq![b0, b1]);
}

/// Encoding the value of four bytes gives the bytes back.
pub proof fn lemma_u32_bytes_round_trip(b0: u8, b1: u8, b2: u8, b3: u8)
    ensures
        u32_le(u32_from_le(b0, b1, b2, b3)) == seq![b0, b1, b2, b3],
        u32_be(u32_from_le(b3, b2, b1, b0)) == seq![b0, b1, b2, b3],
{
    let x = u32_from_le(b0, b1, b2, b3);
    lemma_u32_digits(b0, b1, b2, b3);
    assert(u32_le(x) =~= seq![b0, b1, b2, b3]);
    let y = u32_from_le(b3, b2, b1, b0);
    lemma_u32_digits(b3, b2, b1, b0);
    assert(u32_be(y) =~= seq![b0, b1, b2, b3]);
}

/// The base-256 digits of the value of four bytes are the bytes.
proof fn lemma_u32_digits(b0: u8, b1: u8, b2: u8, b3: u8)
    ensures
        u32_from_le(b0, b1, b2, b3) % 256 == b0,
        u32_from_le(b0, b1, b2, b3) / 256 % 256 == b1,
        u32_from_le(b0, b1, b2, b3) / 65536 % 256 == b2,
        u32_from_le(b0, b1, b2, b3) / 16777216 % 256 == b3,
{
    let x = u32_from_le(b0, b1, b2, b3);
    let t1 = b1 as int + 256 * (b2 as int) + 65536 * (b3 as int);
    assert(x == b0 as int + 256 * t1);
    assert(x / 256 == t1);
    let t2 = b2 as int + 256 * (b3 as int);
    assert(t1 == b1 as int + 256 * t2);
    assert(t1 / 256 == t2);
    assert(x / 65536 == t2) by {
        assert(x == (b0 as int + 256 * (b1 as int)) + 65536 * t2);
    }
    assert(x / 16777216 == b3 as int) by {
        assert(x == (b0 as int + 256 * (b1 as int) + 65536 * (b2 as int)) + 16777216 * (b3 as int));
    }
}

/// A list of 16-bit integers is read back from its encoding, wherever the
/// encoding stands in a buffer.
pub proof fn lemma_u16s_round_trip(prefix: Seq<u8>, values: Seq<u16>, suffix: Seq<u8>)
    ensures
        u16s_le(values).len() == 2 * values.len(),
        u16s_at(prefix + u16s_le(values) + suffix, prefix.len() as int, values.len() as int)
            == values,
{
    let all = prefix + u16s_le(values) + suffix;
    let back = u16s_at(all, prefix.len() as int, values.len() as int);
    assert forall|i: int| 0 <= i < values.len() implies back[i] == values[i] by {
        let k = 2 * i;
        assert(all[prefix.len() + k] == u16s_le(values)[k]);
        assert(all[prefix.len() + k + 1] == u16s_le(values)[k + 1]);
        assert(k / 2 == i && (k + 1) / 2 == i);
    }
    assert(back =~= values);
}

} // verus!
