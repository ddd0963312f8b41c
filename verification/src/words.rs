//! Shared 64-bit word utilities: the four-lane state vector, little-endian
//! word loads, rotations, and wraparound (mod 2^64) arithmetic.
//!
//! Every arithmetic step of the hash algorithms is defined modulo 2^64; the
//! spec functions here name the wraparound operations so that the algorithm
//! specifications in `v1` and `v2` can state them directly.

use vstd::prelude::*;

verus! {

/// The running internal state of either hash algorithm: four unsigned
/// 64-bit accumulator words ("lanes").
#[derive(Clone, Copy, PartialEq, Eq, Structural, Debug)]
pub struct Lanes {
    pub h0: u64,
    pub h1: u64,
    pub h2: u64,
    pub h3: u64,
}

/// Addition modulo 2^64.
pub open spec fn wrap_add(a: u64, b: u64) -> u64 {
    vstd::wrapping::u64_specs::wrapping_add(a, b)
}

/// Subtraction modulo 2^64.
pub open spec fn wrap_sub(a: u64, b: u64) -> u64 {
    vstd::wrapping::u64_specs::wrapping_sub(a, b)
}

/// Multiplication modulo 2^64.
pub open spec fn wrap_mul(a: u64, b: u64) -> u64 {
    vstd::wrapping::u64_specs::wrapping_mul(a, b)
}

/// Left rotation of a 64-bit word by `n` bits, for 0 < n < 64.
pub open spec fn spec_rotl64(x: u64, n: u64) -> u64
    recommends
        0 < n < 64,
{
    (x << n) | (x >> ((64 - n) as u64))
}

/// Left rotation of a 64-bit word by `n` bits.
pub fn rotl64(x: u64, n: u64) -> (r: u64)
    requires
        0 < n < 64,
    ensures
        r == spec_rotl64(x, n),
{
    (x << n) | (x >> (64 - n))
}

/// The unsigned 64-bit value encoded little-endian by the first 8 bytes of `s`.
pub open spec fn spec_load_u64_le(s: Seq<u8>) -> u64
    recommends
        s.len() >= 8,
{
    (s[0] as u64) | ((s[1] as u64) << 8) | ((s[2] as u64) << 16) | ((s[3] as u64) << 24) | ((
    s[4] as u64) << 32) | ((s[5] as u64) << 40) | ((s[6] as u64) << 48) | ((s[7] as u64) << 56)
}

/// The unsigned 32-bit value encoded little-endian by the first 4 bytes of
/// `s`, zero-extended to 64 bits.
pub open spec fn spec_load_u32_le(s: Seq<u8>) -> u64
    recommends
        s.len() >= 4,
{
    (s[0] as u64) | ((s[1] as u64) << 8) | ((s[2] as u64) << 16) | ((s[3] as u64) << 24)
}

/// Reads the 64-bit little-endian word at the start of `bytes`.
pub fn load_u64_le(bytes: &[u8]) -> (r: u64)
    requires
        bytes@.len() >= 8,
    ensures
        r == spec_load_u64_le(bytes@),
{
    let b0 = *vstd::slice::slice_index_get(bytes, 0) as u64;
    let b1 = *vstd::slice::slice_index_get(bytes, 1) as u64;
    let b2 = *vstd::slice::slice_index_get(bytes, 2) as u64;
    let b3 = *vstd::slice::slice_index_get(bytes, 3) as u64;
    let b4 = *vstd::slice::slice_index_get(bytes, 4) as u64;
    let b5 = *vstd::slice::slice_index_get(bytes, 5) as u64;
    let b6 = *vstd::slice::slice_index_get(bytes, 6) as u64;
    let b7 = *vstd::slice::slice_index_get(bytes, 7) as u64;
    b0 | (b1 << 8) | (b2 << 16) | (b3 << 24) | (b4 << 32) | (b5 << 40) | (b6 << 48) | (b7 << 56)
}

/// Reads the 32-bit little-endian word at the start of `bytes`, zero-extended
/// to 64 bits.
pub fn load_u32_le(bytes: &[u8]) -> (r: u64)
    requires
        bytes@.len() >= 4,
    ensures
        r == spec_load_u32_le(bytes@),
{
    let b0 = *vstd::slice::slice_index_get(bytes, 0) as u64;
    let b1 = *vstd::slice::slice_index_get(bytes, 1) as u64;
    let b2 = *vstd::slice::slice_index_get(bytes, 2) as u64;
    let b3 = *vstd::slice::slice_index_get(bytes, 3) as u64;
    b0 | (b1 << 8) | (b2 << 16) | (b3 << 24)
}

} // verus!
