//! Operations on 32-bit words: circular rotation and addition modulo 2^32.
use vstd::prelude::*;

verus! {

/// Rotation of `x` to the left by `n` places, for `1 <= n <= 31`.
pub open spec fn rotl(x: u32, n: u32) -> u32 {
    (x << n) | (x >> ((32 - n) as u32))
}

/// Addition modulo 2^32.
pub open spec fn add32(x: u32, y: u32) -> u32 {
    ((x as int + y as int) % 0x1_0000_0000) as u32
}

/// Rotates `input` to the left by `n` bit positions.
pub fn circular_left_shift(input: u32, n: u32) -> (r: u32)
    requires
        1 <= n <= 31,
    ensures
        r == rotl(input, n),
{
    (input << n) | (input >> (32 - n))
}

/// Adds two words modulo 2^32.
pub fn wrapping_add32(x: u32, y: u32) -> (r: u32)
    ensures
        r == add32(x, y),
{
    x.wrapping_add(y)
}

} // verus!
