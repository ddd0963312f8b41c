//! ChibiHash version 2.
//!
//! Version 2 differs from version 1 in its seed expansion (a second derived
//! seed affects all four lanes), its stripe mixing (add-multiply with a
//! rotate-left-27 carry into the next lane), and its tail handling (4-byte
//! little-endian reads, with a byte-packing scheme for 1-3 trailing bytes).
//! The module mirrors the layout of `v1`: [`spec_chibi_hash64`] specifies
//! the digest, [`chibi_hash64`] computes it in one shot, and
//! [`StreamingChibiHasher`] computes it incrementally with a proved
//! streaming/one-shot equivalence.

use vstd::prelude::*;

pub use crate::words::load_u32_le;
pub use crate::words::load_u64_le;

use crate::words::Lanes;
use crate::words::rotl64;
use crate::words::spec_load_u32_le;
use crate::words::spec_load_u64_le;
use crate::words::spec_rotl64;
use crate::words::wrap_add;
use crate::words::wrap_mul;
use crate::words::wrap_sub;
use vstd::array::ArrayAdditionalExecFns;
use vstd::slice::slice_index_get;
use vstd::slice::slice_subrange;

verus! {

pub const K: u64 = 0x2B7E151628AED2A7;

/// The second seed derived from the caller's seed: two rotations of
/// `seed - K` added together.
pub open spec fn spec_seed2(seed: u64) -> u64 {
    wrap_add(spec_rotl64(wrap_sub(seed, K), 15), spec_rotl64(wrap_sub(seed, K), 47))
}

/// The lane vector before any input is processed: all four lanes depend on
/// the seed, through `seed`, `seed + K`, the derived second seed, and the
/// second seed plus `K*K XOR K`.
pub open spec fn init_lanes(seed: u64) -> Lanes {
    let s2 = spec_seed2(seed);
    Lanes {
        h0: seed,
        h1: wrap_add(seed, K),
        h2: s2,
        h3: wrap_add(s2, wrap_mul(K, K) ^ K),
    }
}

/// One 32-byte stripe folded into the lane vector: for each lane index i,
/// the i-th little-endian word is added to lane i and the sum multiplied by
/// K, while the word rotated left by 27 bits is added to lane (i+1) mod 4.
#[verifier::opaque]
pub open spec fn stripe(h: Lanes, s: Seq<u8>) -> Lanes
    recommends
        s.len() == 32,
{
    let w0 = spec_load_u64_le(s.subrange(0, 8));
    let w1 = spec_load_u64_le(s.subrange(8, 16));
    let w2 = spec_load_u64_le(s.subrange(16, 24));
    let w3 = spec_load_u64_le(s.subrange(24, 32));
    let a0 = wrap_mul(wrap_add(w0, h.h0), K);
    let b0 = wrap_add(h.h1, spec_rotl64(w0, 27));
    let b1 = wrap_mul(wrap_add(w1, b0), K);
    let c1 = wrap_add(h.h2, spec_rotl64(w1, 27));
    let c2 = wrap_mul(wrap_add(w2, c1), K);
    let d2 = wrap_add(h.h3, spec_rotl64(w2, 27));
    let d3 = wrap_mul(wrap_add(w3, d2), K);
    let a3 = wrap_add(a0, spec_rotl64(w3, 27));
    Lanes { h0: a3, h1: b1, h2: c2, h3: d3 }
}

/// The lane vector after folding in every 32-byte stripe of `s`, in order.
/// `s` consists of whole stripes only.
pub open spec fn lanes_after_stripes(seed: u64, s: Seq<u8>) -> Lanes
    recommends
        s.len() % 32 == 0,
    decreases s.len(),
{
    if s.len() < 32 {
        init_lanes(seed)
    } else {
        stripe(
            lanes_after_stripes(seed, s.subrange(0, s.len() - 32)),
            s.subrange(s.len() - 32, s.len() as int),
        )
    }
}

/// The lane vector after the tail phase: remaining 8-byte chunks are read as
/// two 4-byte little-endian words XORed into lanes 0 and 1 (each multiplied
/// by K); then 4 to 7 trailing bytes contribute their first and last 4-byte
/// words to lanes 2 and 3, while 1 to 3 trailing bytes contribute the first
/// byte to lane 2 and the packed middle and last bytes to lane 3.
pub open spec fn tail_lanes(h: Lanes, tail: Seq<u8>) -> Lanes
    recommends
        tail.len() < 32,
{
    let r: int = tail.len() as int;
    let a1 = if r >= 8 {
        wrap_mul(h.h0 ^ spec_load_u32_le(tail.subrange(0, 4)), K)
    } else {
        h.h0
    };
    let b1 = if r >= 8 {
        wrap_mul(h.h1 ^ spec_load_u32_le(tail.subrange(4, 8)), K)
    } else {
        h.h1
    };
    let a2 = if r >= 16 {
        wrap_mul(a1 ^ spec_load_u32_le(tail.subrange(8, 12)), K)
    } else {
        a1
    };
    let b2 = if r >= 16 {
        wrap_mul(b1 ^ spec_load_u32_le(tail.subrange(12, 16)), K)
    } else {
        b1
    };
    let a3 = if r >= 24 {
        wrap_mul(a2 ^ spec_load_u32_le(tail.subrange(16, 20)), K)
    } else {
        a2
    };
    let b3 = if r >= 24 {
        wrap_mul(b2 ^ spec_load_u32_le(tail.subrange(20, 24)), K)
    } else {
        b2
    };
    let w: int = 8 * (r / 8);
    let r2: int = r - w;
    let c = if r2 >= 4 {
        h.h2 ^ spec_load_u32_le(tail.subrange(w, w + 4))
    } else if r2 > 0 {
        h.h2 ^ (tail[w] as u64)
    } else {
        h.h2
    };
    let d = if r2 >= 4 {
        h.h3 ^ spec_load_u32_le(tail.subrange(r - 4, r))
    } else if r2 > 0 {
        h.h3 ^ ((tail[w + r2 / 2] as u64) | ((tail[r - 1] as u64) << 8))
    } else {
        h.h3
    };
    Lanes { h0: a3, h1: b3, h2: c, h3: d }
}

/// The final combination: lanes 2 and 3 are avalanched (multiply by K,
/// rotate left 31, XOR with the right shift by 31) into lanes 0 and 1; then
/// an accumulator derived from the total length and the seed absorbs lane 1
/// and passes through two rounds of rotate-XOR separated by a multiplication
/// by K.
pub open spec fn final_mix(h: Lanes, len: u64, seed: u64) -> u64 {
    let e0 = wrap_add(h.h0, spec_rotl64(wrap_mul(h.h2, K), 31) ^ (h.h2 >> 31));
    let e1 = wrap_add(h.h1, spec_rotl64(wrap_mul(h.h3, K), 31) ^ (h.h3 >> 31));
    let e2 = wrap_mul(e0, K);
    let e3 = e2 ^ (e2 >> 31);
    let f1 = wrap_add(e1, e3);
    let x0 = wrap_mul(len, K);
    let x1 = x0 ^ spec_rotl64(x0, 29);
    let x2 = wrap_add(x1, seed);
    let x3 = x2 ^ f1;
    let x4 = x3 ^ (spec_rotl64(x3, 15) ^ spec_rotl64(x3, 42));
    let x5 = wrap_mul(x4, K);
    x5 ^ (spec_rotl64(x5, 13) ^ spec_rotl64(x5, 31))
}

/// The digest produced from a lane vector `h`, the final partial stripe
/// `tail`, the total input length `len`, and the seed: the tail phase
/// followed by the final combination.
pub open spec fn spec_finish(h: Lanes, tail: Seq<u8>, len: u64, seed: u64) -> u64
    recommends
        tail.len() < 32,
{
    final_mix(tail_lanes(h, tail), len, seed)
}

/// The version-2 ChibiHash digest of `key` under `seed`: every whole
/// 32-byte stripe is folded into the lane vector, then the remaining tail
/// and the total length are mixed in and the result combined.
pub open spec fn spec_chibi_hash64(key: Seq<u8>, seed: u64) -> u64
    recommends
        key.len() <= u64::MAX,
{
    let stripes_len = 32 * (key.len() as int / 32);
    spec_finish(
        lanes_after_stripes(seed, key.subrange(0, stripes_len)),
        key.subrange(stripes_len, key.len() as int),
        key.len() as u64,
        seed,
    )
}

/// The starting lane vector for the given seed.
fn init_lanes_exec(seed: u64) -> (r: Lanes)
    ensures
        r == init_lanes(seed),
{
    let sk: u64 = seed.wrapping_sub(K);
    let seed2: u64 = rotl64(sk, 15).wrapping_add(rotl64(sk, 47));
    Lanes {
        h0: seed,
        h1: seed.wrapping_add(K),
        h2: seed2,
        h3: seed2.wrapping_add(K.wrapping_mul(K) ^ K),
    }
}

/// Folds the 32-byte stripe `block` into the lane vector.
fn process_stripe(h: Lanes, block: &[u8]) -> (r: Lanes)
    requires
        block@.len() == 32,
    ensures
        r == stripe(h, block@),
{
    proof {
        reveal(stripe);
    }
    let w0: u64 = load_u64_le(slice_subrange(block, 0, 8));
    let w1: u64 = load_u64_le(slice_subrange(block, 8, 16));
    let w2: u64 = load_u64_le(slice_subrange(block, 16, 24));
    let w3: u64 = load_u64_le(slice_subrange(block, 24, 32));
    let a0: u64 = w0.wrapping_add(h.h0).wrapping_mul(K);
    let b0: u64 = h.h1.wrapping_add(rotl64(w0, 27));
    let b1: u64 = w1.wrapping_add(b0).wrapping_mul(K);
    let c1: u64 = h.h2.wrapping_add(rotl64(w1, 27));
    let c2: u64 = w2.wrapping_add(c1).wrapping_mul(K);
    let d2: u64 = h.h3.wrapping_add(rotl64(w2, 27));
    let d3: u64 = w3.wrapping_add(d2).wrapping_mul(K);
    let a3: u64 = a0.wrapping_add(rotl64(w3, 27));
    Lanes { h0: a3, h1: b1, h2: c2, h3: d3 }
}

/// Runs the tail phase and the final combination on the lane vector `h`,
/// the final partial stripe `tail`, the total input length `len`, and the
/// seed. Shared by the one-shot evaluator and the streaming finalize.
fn hash_tail(h: Lanes, tail: &[u8], len: u64, seed: u64) -> (r: u64)
    requires
        tail@.len() < 32,
    ensures
        r == spec_finish(h, tail@, len, seed),
{
    let l: usize = tail.len();
    let mut h0: u64 = h.h0;
    let mut h1: u64 = h.h1;
    let mut h2: u64 = h.h2;
    let mut h3: u64 = h.h3;

    if l >= 8 {
        h0 = (h0 ^ load_u32_le(slice_subrange(tail, 0, 4))).wrapping_mul(K);
        h1 = (h1 ^ load_u32_le(slice_subrange(tail, 4, 8))).wrapping_mul(K);
    }
    if l >= 16 {
        h0 = (h0 ^ load_u32_le(slice_subrange(tail, 8, 12))).wrapping_mul(K);
        h1 = (h1 ^ load_u32_le(slice_subrange(tail, 12, 16))).wrapping_mul(K);
    }
    if l >= 24 {
        h0 = (h0 ^ load_u32_le(slice_subrange(tail, 16, 20))).wrapping_mul(K);
        h1 = (h1 ^ load_u32_le(slice_subrange(tail, 20, 24))).wrapping_mul(K);
    }

    let w: usize = 8 * (l / 8);
    let r2: usize = l - w;
    if r2 >= 4 {
        h2 = h2 ^ load_u32_le(slice_subrange(tail, w, w + 4));
        h3 = h3 ^ load_u32_le(slice_subrange(tail, l - 4, l));
    } else if r2 > 0 {
        h2 = h2 ^ (*slice_index_get(tail, w) as u64);
        h3 = h3 ^ ((*slice_index_get(tail, w + r2 / 2) as u64) | ((*slice_index_get(
            tail,
            l - 1,
        ) as u64) << 8));
    }

    h0 = h0.wrapping_add(rotl64(h2.wrapping_mul(K), 31) ^ (h2 >> 31));
    h1 = h1.wrapping_add(rotl64(h3.wrapping_mul(K), 31) ^ (h3 >> 31));
    h0 = h0.wrapping_mul(K);
    h0 = h0 ^ (h0 >> 31);
    h1 = h1.wrapping_add(h0);

    let mut x: u64 = len.wrapping_mul(K);
    x = x ^ rotl64(x, 29);
    x = x.wrapping_add(seed);
    x = x ^ h1;
    x = x ^ (rotl64(x, 15) ^ rotl64(x, 42));
    x = x.wrapping_mul(K);
    x = x ^ (rotl64(x, 13) ^ rotl64(x, 31));
    x
}

/// The one-shot version-2 evaluator: the ChibiHash digest of `key` under
/// `seed`, total over every byte sequence and every seed.
#[verifier::rlimit(60)]
pub fn chibi_hash64(key: &[u8], seed: u64) -> (r: u64)
    ensures
        r == spec_chibi_hash64(key@, seed),
{
    let len: usize = key.len();
    let mut h: Lanes = init_lanes_exec(seed);
    let mut pos: usize = 0;

    while len - pos >= 32
        invariant
            pos <= len,
            len == key@.len(),
            pos % 32 == 0,
            h == lanes_after_stripes(seed, key@.subrange(0, pos as int)),
        decreases len - pos,
    {
        h = process_stripe(h, slice_subrange(key, pos, pos + 32));
        proof {
            lemma_lanes_after_stripes_snoc(
                seed,
                key@.subrange(0, pos as int),
                key@.subrange(pos as int, pos + 32),
            );
            assert(key@.subrange(0, pos as int) + key@.subrange(pos as int, pos + 32)
                =~= key@.subrange(0, pos + 32));
        }
        pos = pos + 32;
    }

    proof {
        assert(pos as int == 32 * (key@.len() as int / 32)) by {
            vstd::arithmetic::div_mod::lemma_fundamental_div_mod(len as int, 32);
            vstd::arithmetic::div_mod::lemma_fundamental_div_mod(pos as int, 32);
            vstd::arithmetic::div_mod::lemma_fundamental_div_mod_converse_div(
                len as int,
                32,
                pos as int / 32,
                len - pos,
            );
        }
    }
    hash_tail(h, slice_subrange(key, pos, len), len as u64, seed)
}

/// A seeded one-shot hasher: holds a seed and a buffer of bytes written so
/// far, and hashes a complete input (or the buffer) in a single call.
#[derive(Debug, Clone, Default, PartialEq, Eq, Hash)]
pub struct ChibiHasher {
    seed: u64,
    buffer: Vec<u8>,
}

impl ChibiHasher {
    /// The seed this hasher was built with.
    pub closed spec fn spec_seed(&self) -> u64 {
        self.seed
    }

    /// The bytes written to this hasher so far.
    pub closed spec fn spec_buffer(&self) -> Seq<u8> {
        self.buffer@
    }

    /// A hasher with the given seed and an empty buffer.
    pub fn new(seed: u64) -> (r: Self)
        ensures
            r.spec_seed() == seed,
            r.spec_buffer() == Seq::<u8>::empty(),
    {
        ChibiHasher { seed, buffer: Vec::new() }
    }

    /// The version-2 digest of `input` under this hasher's seed.
    pub fn hash(&self, input: &[u8]) -> (r: u64)
        ensures
            r == spec_chibi_hash64(input@, self.spec_seed()),
    {
        chibi_hash64(input, self.seed)
    }

    /// Appends `bytes` to the buffer of accumulated input.
    pub fn write(&mut self, bytes: &[u8])
        ensures
            final(self).spec_buffer() == old(self).spec_buffer() + bytes@,
            final(self).spec_seed() == old(self).spec_seed(),
    {
        let ghost b0: Seq<u8> = self.buffer@;
        let len: usize = bytes.len();
        let mut i: usize = 0;
        while i < len
            invariant
                i <= len,
                len == bytes@.len(),
                self.seed == old(self).seed,
                self.buffer@ == b0 + bytes@.subrange(0, i as int),
            decreases len - i,
        {
            self.buffer.push(*slice_index_get(bytes, i));
            i = i + 1;
            proof {
                assert(b0 + bytes@.subrange(0, i - 1) + seq![bytes@[i - 1]] =~= b0
                    + bytes@.subrange(0, i as int));
            }
        }
        proof {
            assert(b0 + bytes@.subrange(0, len as int) =~= b0 + bytes@);
        }
    }

    /// The version-2 digest of the accumulated buffer under this hasher's
    /// seed.
    pub fn finish(&self) -> (r: u64)
        ensures
            r == spec_chibi_hash64(self.spec_buffer(), self.spec_seed()),
    {
        chibi_hash64(self.buffer.as_slice(), self.seed)
    }
}

/// The version-2 streaming evaluator: absorbs bytes incrementally and, on
/// demand, produces the digest the one-shot evaluator would produce over the
/// concatenation of all bytes absorbed so far.
///
/// Whole 32-byte stripes are folded into the lane vector as they arrive; a
/// final partial stripe (0 to 31 bytes) is carried in a fixed scratch buffer
/// until further bytes complete it or `finalize` consumes it read-only.
#[derive(Clone)]
pub struct StreamingChibiHasher {
    h: Lanes,
    total_len: u64,
    seed: u64,
    buf: [u8; 32],
    buf_len: usize,
    absorbed: Ghost<Seq<u8>>,
}

impl StreamingChibiHasher {
    /// The concatenation of all bytes absorbed by `update` calls so far.
    pub closed spec fn bytes_absorbed(&self) -> Seq<u8> {
        self.absorbed@
    }

    /// The seed this hasher was built with.
    pub closed spec fn spec_seed(&self) -> u64 {
        self.seed
    }

    /// Internal consistency: the scratch buffer holds exactly the bytes of
    /// the final partial stripe of the absorbed input, the byte count equals
    /// the total absorbed length, and the lane vector is the fold of every
    /// whole stripe absorbed so far.
    pub closed spec fn wf(&self) -> bool {
        &&& self.buf_len < 32
        &&& self.total_len == self.absorbed@.len()
        &&& self.buf_len as int == self.absorbed@.len() as int % 32
        &&& self.buf@.subrange(0, self.buf_len as int) == self.absorbed@.subrange(
            self.absorbed@.len() - self.buf_len,
            self.absorbed@.len() as int,
        )
        &&& self.h == lanes_after_stripes(
            self.seed,
            self.absorbed@.subrange(0, self.absorbed@.len() - self.buf_len),
        )
    }

    /// A fresh streaming hasher for the given seed, with nothing absorbed.
    pub fn new(seed: u64) -> (r: Self)
        ensures
            r.wf(),
            r.bytes_absorbed() == Seq::<u8>::empty(),
            r.spec_seed() == seed,
    {
        let r = StreamingChibiHasher {
            h: init_lanes_exec(seed),
            total_len: 0,
            seed,
            buf: [0u8; 32],
            buf_len: 0,
            absorbed: Ghost(Seq::empty()),
        };
        proof {
            assert(r.absorbed@.subrange(0, 0) =~= Seq::<u8>::empty());
            assert(r.buf@.subrange(0, 0) =~= Seq::<u8>::empty());
        }
        r
    }

    /// Absorbs `input`: the bytes are appended (logically) to the absorbed
    /// sequence, while whole stripes are folded into the lane vector and the
    /// remainder is buffered.
    #[verifier::rlimit(60)]
    pub fn update(&mut self, input: &[u8])
        requires
            old(self).wf(),
            old(self).bytes_absorbed().len() + input@.len() <= u64::MAX,
        ensures
            final(self).wf(),
            final(self).bytes_absorbed() == old(self).bytes_absorbed() + input@,
            final(self).spec_seed() == old(self).spec_seed(),
    {
        let ghost a: Seq<u8> = self.absorbed@;
        let ghost n: Seq<u8> = a + input@;
        let ghost seed0: u64 = self.seed;
        let len: usize = input.len();
        let mut j: usize = 0;

        proof {
            assert(a.subrange(a.len() - self.buf_len, a.len() as int) =~= n.subrange(
                a.len() - self.buf_len,
                a.len() as int,
            ));
            assert(a.subrange(0, a.len() - self.buf_len) =~= n.subrange(
                0,
                a.len() - self.buf_len,
            ));
        }

        // Top up a partially filled scratch buffer, flushing it as a stripe
        // if it reaches 32 bytes.
        if self.buf_len > 0 {
            while j < len && self.buf_len < 32
                invariant
                    j <= len,
                    len == input@.len(),
                    n == a + input@,
                    n.len() <= u64::MAX,
                    self.seed == seed0,
                    self.total_len == a.len(),
                    self.absorbed@ == a,
                    self.buf_len <= 32,
                    self.buf_len as int == a.len() % 32 + j,
                    self.h == lanes_after_stripes(seed0, n.subrange(0, a.len() - a.len() % 32)),
                    self.buf@.subrange(0, self.buf_len as int) == n.subrange(
                        a.len() - a.len() % 32,
                        a.len() + j,
                    ),
                decreases len - j,
            {
                let b: u8 = *slice_index_get(input, j);
                self.buf.set(self.buf_len, b);
                self.buf_len = self.buf_len + 1;
                j = j + 1;
                proof {
                    assert(self.buf@.subrange(0, self.buf_len as int) =~= n.subrange(
                        a.len() - a.len() % 32,
                        a.len() + j,
                    ));
                }
            }
            if self.buf_len == 32 {
                let ghost base: int = a.len() - a.len() % 32;
                proof {
                    assert(self.buf@.subrange(0, 32) =~= self.buf@);
                }
                self.h = process_stripe(self.h, self.buf.as_slice());
                self.buf_len = 0;
                proof {
                    lemma_lanes_after_stripes_snoc(
                        seed0,
                        n.subrange(0, base),
                        n.subrange(base, base + 32),
                    );
                    assert(n.subrange(0, base) + n.subrange(base, base + 32) =~= n.subrange(
                        0,
                        base + 32,
                    ));
                }
            }
        }

        proof {
            assert((a.len() + j - self.buf_len) % 32 == 0);
            assert(self.h == lanes_after_stripes(
                seed0,
                n.subrange(0, a.len() + j - self.buf_len),
            ));
            assert(self.buf@.subrange(0, self.buf_len as int) == n.subrange(
                a.len() + j - self.buf_len,
                a.len() + j,
            ));
        }

        // Fold whole stripes straight from the input, without copying.
        while len - j >= 32
            invariant
                j <= len,
                len == input@.len(),
                n == a + input@,
                n.len() <= u64::MAX,
                self.seed == seed0,
                self.total_len == a.len(),
                self.absorbed@ == a,
                self.buf_len < 32,
                self.buf_len == 0 || j == len,
                (a.len() + j - self.buf_len) % 32 == 0,
                self.h == lanes_after_stripes(seed0, n.subrange(0, a.len() + j - self.buf_len)),
                self.buf@.subrange(0, self.buf_len as int) == n.subrange(
                    a.len() + j - self.buf_len,
                    a.len() + j,
                ),
            decreases len - j,
        {
            self.h = process_stripe(self.h, slice_subrange(input, j, j + 32));
            proof {
                lemma_lanes_after_stripes_snoc(
                    seed0,
                    n.subrange(0, a.len() + j),
                    input@.subrange(j as int, j + 32),
                );
                assert(input@.subrange(j as int, j + 32) =~= n.subrange(
                    a.len() + j,
                    a.len() + j + 32,
                ));
                assert(n.subrange(0, a.len() + j) + n.subrange(a.len() + j, a.len() + j + 32)
                    =~= n.subrange(0, a.len() + j + 32));
            }
            j = j + 32;
        }

        // Carry the remaining partial stripe in the scratch buffer.
        while j < len
            invariant
                j <= len,
                len == input@.len(),
                n == a + input@,
                n.len() <= u64::MAX,
                self.seed == seed0,
                self.total_len == a.len(),
                self.absorbed@ == a,
                self.buf_len as int + (len - j) < 32,
                (a.len() + j - self.buf_len) % 32 == 0,
                self.h == lanes_after_stripes(seed0, n.subrange(0, a.len() + j - self.buf_len)),
                self.buf@.subrange(0, self.buf_len as int) == n.subrange(
                    a.len() + j - self.buf_len,
                    a.len() + j,
                ),
            decreases len - j,
        {
            let b: u8 = *slice_index_get(input, j);
            self.buf.set(self.buf_len, b);
            self.buf_len = self.buf_len + 1;
            j = j + 1;
            proof {
                assert(self.buf@.subrange(0, self.buf_len as int) =~= n.subrange(
                    a.len() + j - self.buf_len,
                    a.len() + j,
                ));
            }
        }

        self.total_len = self.total_len + (len as u64);
        proof {
            self.absorbed@ = n;
        }
        proof {
            let k: int = n.len() - self.buf_len;
            vstd::arithmetic::div_mod::lemma_fundamental_div_mod(k, 32);
            vstd::arithmetic::div_mod::lemma_fundamental_div_mod_converse_mod(
                n.len() as int,
                32,
                k / 32,
                self.buf_len as int,
            );
        }
    }

    /// The digest of everything absorbed so far: exactly the one-shot
    /// version-2 digest of the absorbed byte sequence under this hasher's
    /// seed. Read-only, so it may be called repeatedly and interleaved with
    /// further `update` calls.
    pub fn finalize(&self) -> (r: u64)
        requires
            self.wf(),
        ensures
            r == spec_chibi_hash64(self.bytes_absorbed(), self.spec_seed()),
    {
        proof {
            vstd::arithmetic::div_mod::lemma_fundamental_div_mod(self.absorbed@.len() as int, 32);
        }
        hash_tail(
            self.h,
            slice_subrange(self.buf.as_slice(), 0, self.buf_len),
            self.total_len,
            self.seed,
        )
    }
}

/// Determinism law: the digest is a function of the byte sequence and the
/// seed alone, so any two results of hashing the same input under the same
/// seed are equal.
pub proof fn lemma_hash64_deterministic(key: Seq<u8>, seed: u64, r1: u64, r2: u64)
    requires
        r1 == spec_chibi_hash64(key, seed),
        r2 == spec_chibi_hash64(key, seed),
    ensures
        r1 == r2,
{
}

/// Idempotent-finalize law: finalizing is read-only, so any two digests
/// produced from the same streaming state are equal.
pub proof fn lemma_finalize_idempotent(s: &StreamingChibiHasher, r1: u64, r2: u64)
    requires
        r1 == spec_chibi_hash64(s.bytes_absorbed(), s.spec_seed()),
        r2 == spec_chibi_hash64(s.bytes_absorbed(), s.spec_seed()),
    ensures
        r1 == r2,
{
}

/// Folding one further whole stripe commutes with the recursion in
/// [`lanes_after_stripes`]: processing `s + t` stripe by stripe is
/// processing `s`, then folding in the stripe `t`. This is the step that
/// lets the streaming evaluator process stripes as they arrive.
pub proof fn lemma_lanes_after_stripes_snoc(seed: u64, s: Seq<u8>, t: Seq<u8>)
    requires
        s.len() % 32 == 0,
        t.len() == 32,
    ensures
        lanes_after_stripes(seed, s + t) == stripe(lanes_after_stripes(seed, s), t),
{
    let st = s + t;
    assert(st.subrange(0, st.len() - 32) =~= s);
    assert(st.subrange(st.len() - 32, st.len() as int) =~= t);
}

} // verus!
