//! The randomness function's side: drawing a number in a range from four
//! random bytes, and the data of the `process_mint` instruction that carries
//! the draw and the container parameters back to the program.

use crate::keys::sha256;
use crate::le::{le_bytes, le_value, u32_to_le};
use vstd::utf8::encode_utf8;
use vstd::prelude::*;

verus! {

/// The lower bound of a draw between `a` and `b`, in either order.
pub open spec fn draw_low(a: u32, b: u32) -> u32 {
    if a <= b {
        a
    } else {
        b
    }
}

/// The upper bound of a draw between `a` and `b`, in either order.
pub open spec fn draw_high(a: u32, b: u32) -> u32 {
    if a <= b {
        b
    } else {
        a
    }
}

/// The draw between `a` and `b` (inclusive, bounds in either order) for the raw random
/// value `raw`: `raw` modulo the size of the range, above the lower bound.
pub open spec fn draw(a: u32, b: u32, raw: u32) -> u32 {
    let lo = draw_low(a, b);
    let hi = draw_high(a, b);
    if lo == hi {
        lo
    } else {
        (raw as int % (hi - lo + 1) + lo) as u32
    }
}

/// The `u32` whose big-endian bytes are `b`.
pub open spec fn be_value(b: Seq<u8>) -> u32 {
    le_value(b[3], b[2], b[1], b[0])
}

/// The same draw comes out whichever order the two bounds are given in.
pub proof fn lemma_draw_bounds_in_either_order(a: u32, b: u32, raw: u32)
    ensures
        draw(a, b, raw) == draw(b, a, raw),
{
}

/// A draw between `a <= b` is the raw value modulo the number of values in the inclusive
/// range, above `a`; it lies in the range.
pub proof fn lemma_draw_is_raw_modulo_window(a: u32, b: u32, raw: u32)
    requires
        a <= b,
    ensures
        draw(a, b, raw) as int == raw as int % (b as int - a as int + 1) + a as int,
        a <= draw(a, b, raw) <= b,
{
    let w = b as int - a as int + 1;
    assert(0 <= raw as int % w < w) by (nonlinear_arith)
        requires
            w > 0,
    ;
}

/// `generate_randomness` for the raw random value `raw`: between `min` and `max`
/// inclusive, in either order. (The range `[0, u32::MAX]` overflows, as `(max + 1) - min`
/// does there, and is left out.)
pub fn draw_in_range(min: u32, max: u32, raw: u32) -> (res: u32)
    requires
        min == max || draw_high(min, max) < u32::MAX,
    ensures
        res == draw(min, max, raw),
        draw_low(min, max) <= res <= draw_high(min, max),
    decreases (if min > max { 1int } else { 0int }),
{
    if min == max {
        return min;
    }
    if min > max {
        return draw_in_range(max, min, raw);
    }
    let window = (max + 1) - min;
    (raw % window) + min
}

/// Calls `bytemuck::cast` from four bytes to a `u32`, which reads them in the machine's byte
/// order. Claimed: the result is their little-endian or their big-endian value (which one
/// depends on the machine, and is not stated).
#[verifier::external_body]
fn bytes_to_u32(bytes: [u8; 4]) -> (res: u32)
    ensures
        res == le_value(bytes@[0], bytes@[1], bytes@[2], bytes@[3]) || res == be_value(bytes@),
{
    bytemuck::cast::<[u8; 4], u32>(bytes)
}

/// `generate_randomness` on the four random bytes that the enclave gave: a number between
/// `min` and `max` inclusive (bounds in either order), the draw for the bytes read as a `u32`
/// in the machine's byte order.
pub fn generate_randomness(min: u32, max: u32, random_bytes: [u8; 4]) -> (res: u32)
    requires
        min == max || draw_high(min, max) < u32::MAX,
    ensures
        draw_low(min, max) <= res <= draw_high(min, max),
        res == draw(min, max, le_value(random_bytes@[0], random_bytes@[1], random_bytes@[2], random_bytes@[3]))
            || res == draw(min, max, be_value(random_bytes@)),
{
    let raw = bytes_to_u32(random_bytes);
    draw_in_range(min, max, raw)
}

/// The bytes of `global:`, the namespace of instruction discriminators.
pub open spec fn global_namespace() -> Seq<u8> {
    seq![103u8, 108, 111, 98, 97, 108, 58]
}

/// The discriminator of an instruction: the first eight bytes of the SHA-256 digest of
/// `global:` followed by the instruction's name.
pub open spec fn ixn_discriminator(name: Seq<char>) -> Seq<u8> {
    sha256(global_namespace() + encode_utf8(name)).take(8)
}

#[verifier::external_body]
fn instruction_discriminator(name: &str) -> (res: [u8; 8])
    ensures
        res@ == ixn_discriminator(name@),
{
    switchboard_solana::get_ixn_discriminator(name)
}

/// The data of the `process_mint` instruction: its discriminator, the draw as four
/// little-endian bytes, then the container parameters.
pub fn process_mint_ixn_data(rand_seed: u32, container_params: &Vec<u8>) -> (res: Vec<u8>)
    ensures
        res@ == ixn_discriminator("process_mint"@) + le_bytes(rand_seed) + container_params@,
{
    let disc = instruction_discriminator("process_mint");
    let seed = u32_to_le(rand_seed);
    let mut out: Vec<u8> = Vec::new();
    let mut i: usize = 0;
    while i < 8
        invariant
            0 <= i <= 8,
            out@ == disc@.take(i as int),
        decreases 8 - i,
    {
        out.push(disc[i]);
        i = i + 1;
        assert(out@ =~= disc@.take(i as int));
    }
    let mut i: usize = 0;
    while i < 4
        invariant
            0 <= i <= 4,
            out@ == disc@ + seed@.take(i as int),
        decreases 4 - i,
    {
        out.push(seed[i]);
        i = i + 1;
        assert(out@ =~= disc@ + seed@.take(i as int));
    }
    let mut i: usize = 0;
    while i < container_params.len()
        invariant
            0 <= i <= container_params.len(),
            out@ == disc@ + seed@ + container_params@.take(i as int),
        decreases container_params.len() - i,
    {
        out.push(container_params[i]);
        i = i + 1;
        assert(out@ =~= disc@ + seed@ + container_params@.take(i as int));
    }
    assert(disc@.take(8) =~= disc@);
    assert(seed@.take(4) =~= seed@);
    assert(container_params@.take(container_params.len() as int) =~= container_params@);
    out
}

} // verus!
