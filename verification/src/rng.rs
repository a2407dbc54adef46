use rand::Rng;
use rand::SeedableRng;
use rand_pcg::Mcg128Xsl64;
use vstd::prelude::*;

verus! {

/// The PCG generator that both sides of a match seed identically and draw from in the
/// same order.
#[verifier::external_type_specification]
#[verifier::external_body]
pub struct ExMcg128Xsl64(Mcg128Xsl64);

/// The 128-bit state that a generator holds; everything it draws is a function of it.
pub uninterp spec fn pcg_state(rng: Mcg128Xsl64) -> u128;

/// The multiplier of the generator's multiplicative congruential step.
pub const PCG_MULTIPLIER: u128 = 0x2360_ED05_1FC6_5DA4_4385_DF64_9FCC_F645;

/// The number that bytes write, least significant first.
pub open spec fn le_value(b: Seq<u8>) -> nat
    decreases b.len(),
{
    if b.len() == 0 {
        0
    } else {
        b[0] as nat + 256 * le_value(b.drop_first())
    }
}

/// The state of a generator seeded with `seed`: the seed read as a little-endian
/// number, with the low bit set (the state of a multiplicative generator is odd).
pub open spec fn seeded_state(seed: Seq<u8>) -> u128 {
    (le_value(seed) as u128) | 1u128
}

/// The state after one step: multiplied by [`PCG_MULTIPLIER`], modulo 2^128.
pub open spec fn pcg_step(s: u128) -> u128 {
    (s * PCG_MULTIPLIER) as u128
}

/// `x` rotated right by `r` bits, `r` below 64.
pub open spec fn rotate_right_64(x: u64, r: u32) -> u64 {
    if r == 0 {
        x
    } else {
        (x >> r) | (x << (64 - r) as u32)
    }
}

/// The 64-bit output of a state (XSL-RR): the two halves XORed, rotated right by the
/// top six bits.
pub open spec fn pcg_output(s: u128) -> u64 {
    rotate_right_64((((s >> 64u32) as u64) ^ (s as u64)) as u64, (s >> 122u32) as u32)
}

/// The bool drawn from the output of a state: the top bit of its low 32 bits.
pub open spec fn pcg_bool(s: u128) -> bool {
    (pcg_output(s) as u32) >= 0x8000_0000
}

/// What `gen_range(0..high)` on a `u16` draws from a generator in state `state`, and the
/// state it leaves the generator in.
pub uninterp spec fn pcg_range_u16(state: u128, high: u16) -> (u16, u128);

/// What `gen_range(0..high)` on a `usize` draws from a generator in state `state` on a
/// target whose pointer width is `pointer_width` bits, and the state it leaves the
/// generator in. rand samples a `usize` at the target's width (from `next_u64` on 64-bit
/// targets, `next_u32` on narrower ones), so the width is part of what decides the draw.
pub uninterp spec fn pcg_range_usize(state: u128, high: usize, pointer_width: u32) -> (usize, u128);

/// `rand_pcg::Mcg128Xsl64::from_seed` (`rand_core::SeedableRng`): reads the 16 seed bytes
/// as a little-endian `u128` and makes it the state, with the low bit forced to one
/// (`Mcg128Xsl64::new`).
#[verifier::external_body]
pub(crate) fn pcg_from_seed(seed: &[u8]) -> (res: Mcg128Xsl64)
    requires
        seed@.len() == 16,
    ensures
        pcg_state(res) == seeded_state(seed@),
{
    Mcg128Xsl64::from_seed(seed.try_into().unwrap())
}

/// `rand::Rng::gen::<bool>` on the generator: one step of the state (`next_u32`, which is
/// `next_u64` truncated), and the sign of the low 32 bits of that step's output.
#[verifier::external_body]
pub(crate) fn pcg_gen_bool(rng: &mut Mcg128Xsl64) -> (res: bool)
    ensures
        pcg_state(*final(rng)) == pcg_step(pcg_state(*old(rng))),
        res == pcg_bool(pcg_state(*final(rng))),
{
    rng.gen::<bool>()
}

/// `rand::Rng::gen_range(0..high)` for `u16`: a value below `high`, which must not be
/// zero (the range would be empty and the call panics). What is drawn, and the state
/// it leaves, are functions of the state and `high`.
#[verifier::external_body]
pub(crate) fn pcg_gen_range_u16(rng: &mut Mcg128Xsl64, high: u16) -> (res: u16)
    requires
        high > 0,
    ensures
        res < high,
        (res, pcg_state(*final(rng))) == pcg_range_u16(pcg_state(*old(rng)), high),
{
    rng.gen_range(0..high)
}

/// `rand::Rng::gen_range(0..high)` for `usize`: a value below `high`, which must not be
/// zero. What is drawn, and the state it leaves, are functions of the state and `high`.
#[verifier::external_body]
pub(crate) fn pcg_gen_range_usize(rng: &mut Mcg128Xsl64, high: usize) -> (res: usize)
    requires
        high > 0,
    ensures
        res < high,
        (res, pcg_state(*final(rng))) == pcg_range_usize(pcg_state(*old(rng)), high, usize::BITS),
{
    rng.gen_range(0..high)
}

} // verus!
