//! Little-endian integers on the wire.

use vstd::prelude::*;

verus! {

/// The four bytes of `x`, lowest first.
pub open spec fn u32_le(x: u32) -> Seq<u8> {
    seq![
        (x % 256) as u8,
        (x / 256 % 256) as u8,
        (x / 65536 % 256) as u8,
        (x / 16777216) as u8,
    ]
}

/// The number whose four bytes, lowest first, start `s`.
pub open spec fn u32_of_le(s: Seq<u8>) -> nat {
    (s[0] + 256 * s[1] + 65536 * s[2] + 16777216 * s[3]) as nat
}

/// The eight bytes of `x`, lowest first.
pub open spec fn u64_le(x: u64) -> Seq<u8> {
    u32_le((x % 4294967296) as u32) + u32_le((x / 4294967296) as u32)
}

/// The number whose eight bytes, lowest first, start `s`.
pub open spec fn u64_of_le(s: Seq<u8>) -> nat {
    u32_of_le(s) + 4294967296 * u32_of_le(s.skip(4))
}

/// Reading the four bytes of a number gives the number back.
pub proof fn law_u32_le_roundtrip(x: u32)
    ensures
        u32_le(x).len() == 4,
        u32_of_le(u32_le(x)) == x,
{
}

/// Reading the eight bytes of a number gives the number back.
pub proof fn law_u64_le_roundtrip(x: u64)
    ensures
        u64_le(x).len() == 8,
        u64_of_le(u64_le(x)) == x,
{
    let lo = u32_le((x % 4294967296) as u32);
    let hi = u32_le((x / 4294967296) as u32);
    assert(u64_le(x).skip(4) =~= hi);
    law_u32_le_roundtrip((x % 4294967296) as u32);
    law_u32_le_roundtrip((x / 4294967296) as u32);
}

/// Writes `x` into the first four bytes of `out`.
pub fn put_u32(out: &mut [u8], x: u32)
    requires
        old(out)@.len() >= 4,
    ensures
        final(out)@ == u32_le(x) + old(out)@.skip(4),
{
    out[0] = (x % 256) as u8;
    out[1] = (x / 256 % 256) as u8;
    out[2] = (x / 65536 % 256) as u8;
    out[3] = (x / 16777216) as u8;
    assert(out@ =~= u32_le(x) + old(out)@.skip(4));
}

/// Writes `x` into the first eight bytes of `out`.
pub fn put_u64(out: &mut [u8], x: u64)
    requires
        old(out)@.len() >= 8,
    ensures
        final(out)@ == u64_le(x) + old(out)@.skip(8),
{
    let ghost out0 = out@;
    let (lo, hi) = out.split_at_mut(4);
    put_u32(lo, (x % 4294967296) as u32);
    put_u32(hi, (x / 4294967296) as u32);
    assert(out@ =~= u64_le(x) + out0.skip(8));
}

/// Reads the first four bytes of `s`.
pub fn get_u32(s: &[u8]) -> (x: u32)
    requires
        s@.len() >= 4,
    ensures
        x == u32_of_le(s@),
{
    s[0] as u32 + 256 * (s[1] as u32) + 65536 * (s[2] as u32) + 16777216 * (s[3] as u32)
}

/// Reads the first eight bytes of `s`.
pub fn get_u64(s: &[u8]) -> (x: u64)
    requires
        s@.len() >= 8,
    ensures
        x == u64_of_le(s@),
{
    let (lo, hi) = s.split_at(4);
    assert(hi@ =~= s@.skip(4));
    get_u32(lo) as u64 + 4294967296 * (get_u32(hi) as u64)
}

/// The first byte counts ones, the second 256s, and so on; what follows the
/// four bytes does not matter.
pub proof fn law_lowest_byte_first(a: u8, b: u8, c: u8, d: u8, tail: Seq<u8>)
    ensures
        u32_of_le(seq![a, b, c, d] + tail) == a + 0x100 * b + 0x1_0000 * c + 0x100_0000 * d,
        u32_le((a + 0x100 * b + 0x1_0000 * c + 0x100_0000 * d) as u32) == seq![a, b, c, d],
{
    let s = seq![a, b, c, d] + tail;
    assert(s[0] == a && s[1] == b && s[2] == c && s[3] == d);
    let x = a + 0x100 * b + 0x1_0000 * c + 0x100_0000 * d;
    assert(u32_le(x as u32) =~= seq![a, b, c, d]);
}

/// Of eight bytes the first four hold the lower half.
pub proof fn law_lower_half_first(low: u32, high: u32, tail: Seq<u8>)
    ensures
        u64_le((low + 0x1_0000_0000 * high) as u64) == u32_le(low) + u32_le(high),
        u64_of_le(u32_le(low) + u32_le(high) + tail) == low + 0x1_0000_0000 * high,
{
    let x = (low + 0x1_0000_0000 * high) as u64;
    assert(x % 4294967296 == low && x / 4294967296 == high);
    let s = u32_le(low) + u32_le(high) + tail;
    let l = u32_le(low);
    let h = u32_le(high);
    assert(s[0] == l[0] && s[1] == l[1] && s[2] == l[2] && s[3] == l[3]);
    assert(s.skip(4)[0] == h[0] && s.skip(4)[1] == h[1] && s.skip(4)[2] == h[2] && s.skip(4)[3]
        == h[3]);
    law_u32_le_roundtrip(low);
    law_u32_le_roundtrip(high);
}

} // verus!
