//! The pseudo-random source: a linear congruential generator over 32 bits,
//! of which the high byte is handed out.

use vstd::prelude::*;

verus! {

/// The multiplier of the generator.
pub const MULTIPLIER: u64 = 1664525;

/// The increment of the generator.
pub const INCREMENT: u64 = 1013904223;

/// The seed that follows `seed`.
pub open spec fn next_seed(seed: u32) -> u32 {
    ((seed as int * 1664525 + 1013904223) % 0x1_0000_0000) as u32
}

/// The byte that a generator in state `seed` hands out: its high byte.
pub open spec fn random_byte(seed: u32) -> u8 {
    (seed as int / 0x100_0000) as u8
}

/// Computes [`next_seed`].
pub fn advance_seed(seed: u32) -> (next: u32)
    ensures
        next == next_seed(seed),
{
    let wide: u64 = seed as u64 * MULTIPLIER + INCREMENT;
    (wide % 0x1_0000_0000) as u32
}

/// Computes [`random_byte`].
pub fn high_byte(seed: u32) -> (byte: u8)
    ensures
        byte == random_byte(seed),
{
    (seed / 0x100_0000) as u8
}

} // verus!
