//! Little-endian `u32` values in byte buffers, as `u32::from_le_bytes` reads
//! them and `u32::to_le_bytes` writes them.

use vstd::prelude::*;

verus! {

/// The `u32` whose little-endian bytes are `b0 b1 b2 b3`.
pub open spec fn le_value(b0: u8, b1: u8, b2: u8, b3: u8) -> u32 {
    (b0 as int + 256 * b1 as int + 65536 * b2 as int + 16777216 * b3 as int) as u32
}

/// The `u32` stored little-endian at `at` in `s`.
pub open spec fn u32_at(s: Seq<u8>, at: int) -> u32 {
    le_value(s[at], s[at + 1], s[at + 2], s[at + 3])
}

/// The four little-endian bytes of `v`.
pub open spec fn le_bytes(v: u32) -> Seq<u8> {
    seq![
        (v % 256) as u8,
        ((v / 256) % 256) as u8,
        ((v / 65536) % 256) as u8,
        (v / 16777216) as u8,
    ]
}

/// Reading back the little-endian bytes of `v` gives `v`.
pub proof fn lemma_le_round_trip(v: u32)
    ensures
        le_value(le_bytes(v)[0], le_bytes(v)[1], le_bytes(v)[2], le_bytes(v)[3]) == v,
        le_bytes(v).len() == 4,
{
    let b0 = v % 256;
    let b1 = (v / 256) % 256;
    let b2 = (v / 65536) % 256;
    let b3 = v / 16777216;
    assert(b0 + 256 * b1 + 65536 * b2 + 16777216 * b3 == v) by (nonlinear_arith)
        requires
            b0 == v % 256,
            b1 == (v / 256) % 256,
            b2 == (v / 65536) % 256,
            b3 == v / 16777216,
    ;
}

/// `u32::from_le_bytes` of `s[at..at + 4]`.
pub fn read_u32_le(s: &Vec<u8>, at: usize) -> (v: u32)
    requires
        at + 4 <= s.len(),
    ensures
        v == u32_at(s@, at as int),
{
    let b0 = s[at] as u32;
    let b1 = s[at + 1] as u32;
    let b2 = s[at + 2] as u32;
    let b3 = s[at + 3] as u32;
    b0 + 256 * b1 + 65536 * b2 + 16777216 * b3
}

/// `u32::to_le_bytes`.
pub fn u32_to_le(v: u32) -> (res: [u8; 4])
    ensures
        res@ == le_bytes(v),
{
    let res = [(v % 256) as u8, ((v / 256) % 256) as u8, ((v / 65536) % 256) as u8, (v / 16777216) as u8];
    assert(res@ =~= le_bytes(v));
    res
}

/// Writes the little-endian bytes of `v` over `s[at..at + 4]`.
pub fn write_u32_le(s: &mut Vec<u8>, at: usize, v: u32)
    requires
        at + 4 <= old(s).len(),
    ensures
        final(s)@ == old(s)@.take(at as int) + le_bytes(v) + old(s)@.skip(at + 4),
{
    let b = u32_to_le(v);
    s.set(at, b[0]);
    s.set(at + 1, b[1]);
    s.set(at + 2, b[2]);
    s.set(at + 3, b[3]);
    assert(s@ =~= old(s)@.take(at as int) + le_bytes(v) + old(s)@.skip(at + 4));
}

} // verus!
