//! Little-endian integers, as the wire format lays them out.

use vstd::prelude::*;

verus! {

/// The 16-bit integer whose little-endian bytes are `s[i]` and `s[i + 1]`.
pub open spec fn u16_at(s: Seq<u8>, i: int) -> u16
    recommends
        0 <= i,
        i + 2 <= s.len(),
{
    (s[i] as int + 0x100 * (s[i + 1] as int)) as u16
}

/// The 32-bit integer whose little-endian bytes are `s[i]` to `s[i + 3]`.
pub open spec fn u32_at(s: Seq<u8>, i: int) -> u32
    recommends
        0 <= i,
        i + 4 <= s.len(),
{
    (s[i] as int + 0x100 * (s[i + 1] as int) + 0x1_0000 * (s[i + 2] as int) + 0x100_0000 * (s[i
        + 3] as int)) as u32
}

/// The four bytes of `x`, least significant first.
#[verifier::opaque]
pub open spec fn u32_bytes(x: u32) -> Seq<u8> {
    seq![
        (x as int % 0x100) as u8,
        (x as int / 0x100 % 0x100) as u8,
        (x as int / 0x1_0000 % 0x100) as u8,
        (x as int / 0x100_0000) as u8,
    ]
}

/// An integer of 32 bits has four bytes.
pub broadcast proof fn lemma_u32_bytes_len(x: u32)
    ensures
        #[trigger] u32_bytes(x).len() == 4,
{
    reveal(u32_bytes);
}

/// Reading back the bytes of `x` gives `x`, whatever surrounds them.
pub proof fn lemma_u32_at_bytes(x: u32, s: Seq<u8>, i: int)
    requires
        0 <= i,
        i + 4 <= s.len(),
        s.subrange(i, i + 4) == u32_bytes(x),
    ensures
        u32_at(s, i) == x,
{
    reveal(u32_bytes);
    let b = s.subrange(i, i + 4);
    assert(b[0] == s[i] && b[1] == s[i + 1] && b[2] == s[i + 2] && b[3] == s[i + 3]);
}

/// Two bytes, least significant first, as one 16-bit integer.
pub fn u16_from_le(b: [u8; 2]) -> (x: u16)
    ensures
        x == u16_at(b@, 0),
{
    let lo: u16 = b[0] as u16;
    let hi: u16 = b[1] as u16;
    lo + 0x100 * hi
}

/// Four bytes, least significant first, as one 32-bit integer.
pub fn u32_from_le(b: [u8; 4]) -> (x: u32)
    ensures
        x == u32_at(b@, 0),
{
    let b0: u32 = b[0] as u32;
    let b1: u32 = b[1] as u32;
    let b2: u32 = b[2] as u32;
    let b3: u32 = b[3] as u32;
    b0 + 0x100 * b1 + 0x1_0000 * b2 + 0x100_0000 * b3
}

/// The four bytes of `x`, least significant first.
pub fn u32_to_le(x: u32) -> (b: [u8; 4])
    ensures
        b@ == u32_bytes(x),
{
    let b: [u8; 4] = [
        (x % 0x100) as u8,
        (x / 0x100 % 0x100) as u8,
        (x / 0x1_0000 % 0x100) as u8,
        (x / 0x100_0000) as u8,
    ];
    proof {
        reveal(u32_bytes);
        assert(b@ =~= u32_bytes(x));
    }
    b
}

} // verus!
