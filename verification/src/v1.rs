//! ChibiHash version 1.
//!
//! The algorithm is specified by the spec functions in this module:
//! [`spec_chibi_hash64`] maps a byte sequence and a 64-bit seed to the 64-bit
//! digest. The one-shot evaluator [`chibi_hash64`] is proved to return exactly
//! that digest, and the streaming evaluator [`StreamingChibiHasher`] is proved
//! to return the digest of the concatenation of all bytes fed to it, however
//! the input was split across `update` calls.

use vstd::prelude::*;

pub use crate::words::load_u64_le;

use crate::words::Lanes;
use crate::words::rotl64;
use crate::words::spec_load_u64_le;
use crate::words::spec_rotl64;
use crate::words::wrap_add;
use crate::words::wrap_mul;
use vstd::array::ArrayAdditionalExecFns;
use vstd::slice::slice_index_get;
use vstd::slice::slice_subrange;

verus! {

pub const P1: u64 = 0x2B7E151628AED2A5;

pub const P2: u64 = 0x9E3793492EEDC3F7;

pub const P3: u64 = 0x3243F6A8885A308D;

pub const M1: u64 = 0x3C79AC492BA7B653;

pub const M2: u64 = 0x1C69B3F74AC4AE35;

/// The lane vector before any input is processed: three fixed constants and
/// the seed.
pub open spec fn init_lanes(seed: u64) -> Lanes {
    Lanes { h0: P1, h1: P2, h2: P3, h3: seed }
}

/// One 32-byte stripe folded into the lane vector: for each lane index i,
/// lane i is XORed with the i-th little-endian word and multiplied by P1,
/// and lane (i+1) mod 4 is XORed with that word rotated left by 40 bits.
#[verifier::opaque]
pub open spec fn stripe(h: Lanes, s: Seq<u8>) -> Lanes
    recommends
        s.len() == 32,
{
    let w0 = spec_load_u64_le(s.subrange(0, 8));
    let w1 = spec_load_u64_le(s.subrange(8, 16));
    let w2 = spec_load_u64_le(s.subrange(16, 24));
    let w3 = spec_load_u64_le(s.subrange(24, 32));
    let a0 = wrap_mul(h.h0 ^ w0, P1);
    let b0 = h.h1 ^ spec_rotl64(w0, 40);
    let b1 = wrap_mul(b0 ^ w1, P1);
    let c1 = h.h2 ^ spec_rotl64(w1, 40);
    let c2 = wrap_mul(c1 ^ w2, P1);
    let d2 = h.h3 ^ spec_rotl64(w2, 40);
    let d3 = wrap_mul(d2 ^ w3, P1);
    let a3 = a0 ^ spec_rotl64(w3, 40);
    Lanes { h0: a3, h1: b1, h2: c2, h3: d3 }
}

/// The lane vector after folding in every 32-byte stripe of `s`, in order.
/// `s` consists of whole stripes only.
pub open spec fn lanes_after_stripes(seed: u64, s: Seq<u8>) -> Lanes
    recommends
        s.len() % 32 == 0,
    decreases s.len(),
{
    if s.len() < 32 {
        init_lanes(seed)
    } else {
        stripe(
            lanes_after_stripes(seed, s.subrange(0, s.len() - 32)),
            s.subrange(s.len() - 32, s.len() as int),
        )
    }
}

/// The 8-byte tail step on one lane: XOR in the word, multiply by P2,
/// then avalanche by XORing with the right shift by 31.
pub open spec fn mix8(x: u64, w: u64) -> u64 {
    let y = wrap_mul(x ^ w, P2);
    y ^ (y >> 31)
}

/// The 2-byte tail step on one lane: XOR in the little-endian pair, multiply
/// by P3, then avalanche by XORing with the right shift by 31.
pub open spec fn mix2(x: u64, b0: u8, b1: u8) -> u64 {
    let y = wrap_mul(x ^ ((b0 as u64) | ((b1 as u64) << 8)), P3);
    y ^ (y >> 31)
}

/// The lane vector after the tail phase: the total input length (with its
/// 32-bit halves swapped) is added to lane 0; if the tail has odd length its
/// first byte is XORed into lane 0; lane 0 is multiplied by P2 and
/// avalanched; then the remaining 8-byte words go into lanes 1..=3 and the
/// remaining 2-byte pairs into lanes 0..=2.
pub open spec fn tail_state(h: Lanes, tail: Seq<u8>, len: u64) -> Lanes
    recommends
        tail.len() < 32,
{
    let g0 = wrap_add(h.h0, spec_rotl64(len, 32));
    let odd: int = (tail.len() % 2) as int;
    let g1 = if odd == 1 {
        g0 ^ (tail[0] as u64)
    } else {
        g0
    };
    let g2 = wrap_mul(g1, P2);
    let h0f = g2 ^ (g2 >> 31);
    let r8: int = tail.len() - odd;
    let l1 = if r8 >= 8 {
        mix8(h.h1, spec_load_u64_le(tail.subrange(odd, odd + 8)))
    } else {
        h.h1
    };
    let l2 = if r8 >= 16 {
        mix8(h.h2, spec_load_u64_le(tail.subrange(odd + 8, odd + 16)))
    } else {
        h.h2
    };
    let l3 = if r8 >= 24 {
        mix8(h.h3, spec_load_u64_le(tail.subrange(odd + 16, odd + 24)))
    } else {
        h.h3
    };
    let w: int = odd + 8 * (r8 / 8);
    let r2: int = tail.len() - w;
    let m0 = if r2 >= 2 {
        mix2(h0f, tail[w], tail[w + 1])
    } else {
        h0f
    };
    let m1 = if r2 >= 4 {
        mix2(l1, tail[w + 2], tail[w + 3])
    } else {
        l1
    };
    let m2 = if r2 >= 6 {
        mix2(l2, tail[w + 4], tail[w + 5])
    } else {
        l2
    };
    Lanes { h0: m0, h1: m1, h2: m2, h3: l3 }
}

/// The final three-round "moremur" avalanche.
pub open spec fn moremur(x: u64) -> u64 {
    let a = x ^ (x >> 27);
    let b = wrap_mul(a, M1);
    let c = b ^ (b >> 33);
    let d = wrap_mul(c, M2);
    d ^ (d >> 27)
}

/// The final combination: an accumulator seeded with the seed XORs in the
/// product of each lane with the (odd-forced) upper half of its partner
/// lane, then the moremur avalanche is applied.
pub open spec fn final_mix(h: Lanes, seed: u64) -> u64 {
    let x0 = seed ^ wrap_mul(h.h0, (h.h2 >> 32) | 1);
    let x1 = x0 ^ wrap_mul(h.h1, (h.h3 >> 32) | 1);
    let x2 = x1 ^ wrap_mul(h.h2, (h.h0 >> 32) | 1);
    let x3 = x2 ^ wrap_mul(h.h3, (h.h1 >> 32) | 1);
    moremur(x3)
}

/// The digest produced from a lane vector `h`, the final partial stripe
/// `tail`, the total input length `len`, and the seed: the tail phase
/// followed by the final combination.
pub open spec fn spec_finish(h: Lanes, tail: Seq<u8>, len: u64, seed: u64) -> u64
    recommends
        tail.len() < 32,
{
    final_mix(tail_state(h, tail, len), seed)
}

/// The version-1 ChibiHash digest of `key` under `seed`: every whole
/// 32-byte stripe is folded into the lane vector, then the remaining tail
/// and the total length are mixed in and the result combined.
pub open spec fn spec_chibi_hash64(key: Seq<u8>, seed: u64) -> u64
    recommends
        key.len() <= u64::MAX,
{
    let stripes_len = 32 * (key.len() as int / 32);
    spec_finish(
        lanes_after_stripes(seed, key.subrange(0, stripes_len)),
        key.subrange(stripes_len, key.len() as int),
        key.len() as u64,
        seed,
    )
}

/// Folds the 32-byte stripe `block` into the lane vector.
fn process_stripe(h: Lanes, block: &[u8]) -> (r: Lanes)
    requires
        block@.len() == 32,
    ensures
        r == stripe(h, block@),
{
    proof {
        reveal(stripe);
    }
    let w0: u64 = load_u64_le(slice_subrange(block, 0, 8));
    let w1: u64 = load_u64_le(slice_subrange(block, 8, 16));
    let w2: u64 = load_u64_le(slice_subrange(block, 16, 24));
    let w3: u64 = load_u64_le(slice_subrange(block, 24, 32));
    let a0: u64 = (h.h0 ^ w0).wrapping_mul(P1);
    let b0: u64 = h.h1 ^ rotl64(w0, 40);
    let b1: u64 = (b0 ^ w1).wrapping_mul(P1);
    let c1: u64 = h.h2 ^ rotl64(w1, 40);
    let c2: u64 = (c1 ^ w2).wrapping_mul(P1);
    let d2: u64 = h.h3 ^ rotl64(w2, 40);
    let d3: u64 = (d2 ^ w3).wrapping_mul(P1);
    let a3: u64 = a0 ^ rotl64(w3, 40);
    Lanes { h0: a3, h1: b1, h2: c2, h3: d3 }
}

/// Runs the tail phase and the final combination on the lane vector `h`,
/// the final partial stripe `tail`, the total input length `len`, and the
/// seed. Shared by the one-shot evaluator and the streaming finalize.
fn hash_tail(h: Lanes, tail: &[u8], len: u64, seed: u64) -> (r: u64)
    requires
        tail@.len() < 32,
    ensures
        r == spec_finish(h, tail@, len, seed),
{
    let l: usize = tail.len();
    let mut h0: u64 = h.h0;
    let mut h1: u64 = h.h1;
    let mut h2: u64 = h.h2;
    let mut h3: u64 = h.h3;

    h0 = h0.wrapping_add(rotl64(len, 32));

    let mut off: usize = 0;
    if l % 2 == 1 {
        h0 = h0 ^ (*slice_index_get(tail, 0) as u64);
        off = 1;
    }
    h0 = h0.wrapping_mul(P2);
    h0 = h0 ^ (h0 >> 31);

    let r8: usize = l - off;
    if r8 >= 8 {
        h1 = h1 ^ load_u64_le(slice_subrange(tail, off, off + 8));
        h1 = h1.wrapping_mul(P2);
        h1 = h1 ^ (h1 >> 31);
    }
    if r8 >= 16 {
        h2 = h2 ^ load_u64_le(slice_subrange(tail, off + 8, off + 16));
        h2 = h2.wrapping_mul(P2);
        h2 = h2 ^ (h2 >> 31);
    }
    if r8 >= 24 {
        h3 = h3 ^ load_u64_le(slice_subrange(tail, off + 16, off + 24));
        h3 = h3.wrapping_mul(P2);
        h3 = h3 ^ (h3 >> 31);
    }

    let w: usize = off + 8 * (r8 / 8);
    let r2: usize = l - w;
    if r2 >= 2 {
        h0 = h0 ^ ((*slice_index_get(tail, w) as u64) | ((*slice_index_get(tail, w + 1) as u64)
            << 8));
        h0 = h0.wrapping_mul(P3);
        h0 = h0 ^ (h0 >> 31);
    }
    if r2 >= 4 {
        h1 = h1 ^ ((*slice_index_get(tail, w + 2) as u64) | ((*slice_index_get(tail, w + 3) as u64)
            << 8));
        h1 = h1.wrapping_mul(P3);
        h1 = h1 ^ (h1 >> 31);
    }
    if r2 >= 6 {
        h2 = h2 ^ ((*slice_index_get(tail, w + 4) as u64) | ((*slice_index_get(tail, w + 5) as u64)
            << 8));
        h2 = h2.wrapping_mul(P3);
        h2 = h2 ^ (h2 >> 31);
    }

    let mut x: u64 = seed;
    x = x ^ h0.wrapping_mul((h2 >> 32) | 1);
    x = x ^ h1.wrapping_mul((h3 >> 32) | 1);
    x = x ^ h2.wrapping_mul((h0 >> 32) | 1);
    x = x ^ h3.wrapping_mul((h1 >> 32) | 1);

    x = x ^ (x >> 27);
    x = x.wrapping_mul(M1);
    x = x ^ (x >> 33);
    x = x.wrapping_mul(M2);
    x = x ^ (x >> 27);
    x
}

/// The one-shot version-1 evaluator: the ChibiHash digest of `key` under
/// `seed`, total over every byte sequence and every seed.
#[verifier::rlimit(60)]
pub fn chibi_hash64(key: &[u8], seed: u64) -> (r: u64)
    ensures
        r == spec_chibi_hash64(key@, seed),
{
    let len: usize = key.len();
    let mut h = Lanes { h0: P1, h1: P2, h2: P3, h3: seed };
    let mut pos: usize = 0;

    while len - pos >= 32
        invariant
            pos <= len,
            len == key@.len(),
            pos % 32 == 0,
            h == lanes_after_stripes(seed, key@.subrange(0, pos as int)),
        decreases len - pos,
    {
        h = process_stripe(h, slice_subrange(key, pos, pos + 32));
        proof {
            lemma_lanes_after_stripes_snoc(
                seed,
                key@.subrange(0, pos as int),
                key@.subrange(pos as int, pos + 32),
            );
            assert(key@.subrange(0, pos as int) + key@.subrange(pos as int, pos + 32)
                =~= key@.subrange(0, pos + 32));
        }
        pos = pos + 32;
    }

    proof {
        assert(pos as int == 32 * (key@.len() as int / 32)) by {
            vstd::arithmetic::div_mod::lemma_fundamental_div_mod(len as int, 32);
            vstd::arithmetic::div_mod::lemma_fundamental_div_mod(pos as int, 32);
            vstd::arithmetic::div_mod::lemma_fundamental_div_mod_converse_div(
                len as int,
                32,
                pos as int / 32,
                len - pos,
            );
        }
    }
    hash_tail(h, slice_subrange(key, pos, len), len as u64, seed)
}

/// A seeded one-shot hasher: holds a seed and a buffer of bytes written so
/// far, and hashes a complete input (or the buffer) in a single call.
#[derive(Debug, Clone, Default, PartialEq, Eq, Hash)]
pub struct ChibiHasher {
    seed: u64,
    buffer: Vec<u8>,
}

impl ChibiHasher {
    /// The seed this hasher was built with.
    pub closed spec fn spec_seed(&self) -> u64 {
        self.seed
    }

    /// The bytes written to this hasher so far.
    pub closed spec fn spec_buffer(&self) -> Seq<u8> {
        self.buffer@
    }

    /// A hasher with the given seed and an empty buffer.
    pub fn new(seed: u64) -> (r: Self)
        ensures
            r.spec_seed() == seed,
            r.spec_buffer() == Seq::<u8>::empty(),
    {
        ChibiHasher { seed, buffer: Vec::new() }
    }

    /// The version-1 digest of `input` under this hasher's seed.
    pub fn hash(&self, input: &[u8]) -> (r: u64)
        ensures
            r == spec_chibi_hash64(input@, self.spec_seed()),
    {
        chibi_hash64(input, self.seed)
    }

    /// Appends `bytes` to the buffer of accumulated input.
    pub fn write(&mut self, bytes: &[u8])
        ensures
            final(self).spec_buffer() == old(self).spec_buffer() + bytes@,
            final(self).spec_seed() == old(self).spec_seed(),
    {
        let ghost b0: Seq<u8> = self.buffer@;
        let len: usize = bytes.len();
        let mut i: usize = 0;
        while i < len
            invariant
                i <= len,
                len == bytes@.len(),
                self.seed == old(self).seed,
                self.buffer@ == b0 + bytes@.subrange(0, i as int),
            decreases len - i,
        {
            self.buffer.push(*slice_index_get(bytes, i));
            i = i + 1;
            proof {
                assert(b0 + bytes@.subrange(0, i - 1) + seq![bytes@[i - 1]] =~= b0
                    + bytes@.subrange(0, i as int));
            }
        }
        proof {
            assert(b0 + bytes@.subrange(0, len as int) =~= b0 + bytes@);
        }
    }

    /// The version-1 digest of the accumulated buffer under this hasher's
    /// seed.
    pub fn finish(&self) -> (r: u64)
        ensures
            r == spec_chibi_hash64(self.spec_buffer(), self.spec_seed()),
    {
        chibi_hash64(self.buffer.as_slice(), self.seed)
    }
}

/// The version-1 streaming evaluator: absorbs bytes incrementally and, on
/// demand, produces the digest the one-shot evaluator would produce over the
/// concatenation of all bytes absorbed so far.
///
/// Whole 32-byte stripes are folded into the lane vector as they arrive; a
/// final partial stripe (0 to 31 bytes) is carried in a fixed scratch buffer
/// until further bytes complete it or `finalize` consumes it read-only.
#[derive(Clone)]
pub struct StreamingChibiHasher {
    h: Lanes,
    total_len: u64,
    seed: u64,
    buf: [u8; 32],
    buf_len: usize,
    absorbed: Ghost<Seq<u8>>,
}

impl StreamingChibiHasher {
    /// The concatenation of all bytes absorbed by `update` calls so far.
    pub closed spec fn bytes_absorbed(&self) -> Seq<u8> {
        self.absorbed@
    }

    /// The seed this hasher was built with.
    pub closed spec fn spec_seed(&self) -> u64 {
        self.seed
    }

    /// Internal consistency: the scratch buffer holds exactly the bytes of
    /// the final partial stripe of the absorbed input, the byte count equals
    /// the total absorbed length, and the lane vector is the fold of every
    /// whole stripe absorbed so far.
    pub closed spec fn wf(&self) -> bool {
        &&& self.buf_len < 32
        &&& self.total_len == self.absorbed@.len()
        &&& self.buf_len as int == self.absorbed@.len() as int % 32
        &&& self.buf@.subrange(0, self.buf_len as int) == self.absorbed@.subrange(
            self.absorbed@.len() - self.buf_len,
            self.absorbed@.len() as int,
        )
        &&& self.h == lanes_after_stripes(
            self.seed,
            self.absorbed@.subrange(0, self.absorbed@.len() - self.buf_len),
        )
    }

    /// A fresh streaming hasher for the given seed, with nothing absorbed.
    pub fn new(seed: u64) -> (r: Self)
        ensures
            r.wf(),
            r.bytes_absorbed() == Seq::<u8>::empty(),
            r.spec_seed() == seed,
    {
        let r = StreamingChibiHasher {
            h: Lanes { h0: P1, h1: P2, h2: P3, h3: seed },
            total_len: 0,
            seed,
            buf: [0u8; 32],
            buf_len: 0,
            absorbed: Ghost(Seq::empty()),
        };
        proof {
            assert(r.absorbed@.subrange(0, 0) =~= Seq::<u8>::empty());
            assert(r.buf@.subrange(0, 0) =~= Seq::<u8>::empty());
        }
        r
    }

    /// Absorbs `input`: the bytes are appended (logically) to the absorbed
    /// sequence, while whole stripes are folded into the lane vector and the
    /// remainder is buffered.
    #[verifier::rlimit(60)]
    pub fn update(&mut self, input: &[u8])
        requires
            old(self).wf(),
            old(self).bytes_absorbed().len() + input@.len() <= u64::MAX,
        ensures
            final(self).wf(),
            final(self).bytes_absorbed() == old(self).bytes_absorbed() + input@,
            final(self).spec_seed() == old(self).spec_seed(),
    {
        let ghost a: Seq<u8> = self.absorbed@;
        let ghost n: Seq<u8> = a + input@;
        let ghost seed0: u64 = self.seed;
        let len: usize = input.len();
        let mut j: usize = 0;

        proof {
            assert(a.subrange(a.len() - self.buf_len, a.len() as int) =~= n.subrange(
                a.len() - self.buf_len,
                a.len() as int,
            ));
            assert(a.subrange(0, a.len() - self.buf_len) =~= n.subrange(
                0,
                a.len() - self.buf_len,
            ));
        }

        // Top up a partially filled scratch buffer, flushing it as a stripe
        // if it reaches 32 bytes.
        if self.buf_len > 0 {
            while j < len && self.buf_len < 32
                invariant
                    j <= len,
                    len == input@.len(),
                    n == a + input@,
                    n.len() <= u64::MAX,
                    self.seed == seed0,
                    self.total_len == a.len(),
                    self.absorbed@ == a,
                    self.buf_len <= 32,
                    self.buf_len as int == a.len() % 32 + j,
                    self.h == lanes_after_stripes(seed0, n.subrange(0, a.len() - a.len() % 32)),
                    self.buf@.subrange(0, self.buf_len as int) == n.subrange(
                        a.len() - a.len() % 32,
                        a.len() + j,
                    ),
                decreases len - j,
            {
                let b: u8 = *slice_index_get(input, j);
                self.buf.set(self.buf_len, b);
                self.buf_len = self.buf_len + 1;
                j = j + 1;
                proof {
                    assert(self.buf@.subrange(0, self.buf_len as int) =~= n.subrange(
                        a.len() - a.len() % 32,
                        a.len() + j,
                    ));
                }
            }
            if self.buf_len == 32 {
                let ghost base: int = a.len() - a.len() % 32;
                proof {
                    assert(self.buf@.subrange(0, 32) =~= self.buf@);
                }
                self.h = process_stripe(self.h, self.buf.as_slice());
                self.buf_len = 0;
                proof {
                    lemma_lanes_after_stripes_snoc(
                        seed0,
                        n.subrange(0, base),
                        n.subrange(base, base + 32),
                    );
                    assert(n.subrange(0, base) + n.subrange(base, base + 32) =~= n.subrange(
                        0,
                        base + 32,
                    ));
                }
            }
        }

        proof {
            assert((a.len() + j - self.buf_len) % 32 == 0);
            assert(self.h == lanes_after_stripes(
                seed0,
                n.subrange(0, a.len() + j - self.buf_len),
            ));
            assert(self.buf@.subrange(0, self.buf_len as int) == n.subrange(
                a.len() + j - self.buf_len,
                a.len() + j,
            ));
        }

        // Fold whole stripes straight from the input, without copying.
        while len - j >= 32
            invariant
                j <= len,
                len == input@.len(),
                n == a + input@,
                n.len() <= u64::MAX,
                self.seed == seed0,
                self.total_len == a.len(),
                self.absorbed@ == a,
                self.buf_len < 32,
                self.buf_len == 0 || j == len,
                (a.len() + j - self.buf_len) % 32 == 0,
                self.h == lanes_after_stripes(seed0, n.subrange(0, a.len() + j - self.buf_len)),
                self.buf@.subrange(0, self.buf_len as int) == n.subrange(
                    a.len() + j - self.buf_len,
                    a.len() + j,
                ),
            decreases len - j,
        {
            self.h = process_stripe(self.h, slice_subrange(input, j, j + 32));
            proof {
                lemma_lanes_after_stripes_snoc(
                    seed0,
                    n.subrange(0, a.len() + j),
                    input@.subrange(j as int, j + 32),
                );
                assert(input@.subrange(j as int, j + 32) =~= n.subrange(
                    a.len() + j,
                    a.len() + j + 32,
                ));
                assert(n.subrange(0, a.len() + j) + n.subrange(a.len() + j, a.len() + j + 32)
                    =~= n.subrange(0, a.len() + j + 32));
            }
            j = j + 32;
        }

        // Carry the remaining partial stripe in the scratch buffer.
        while j < len
            invariant
                j <= len,
                len == input@.len(),
                n == a + input@,
                n.len() <= u64::MAX,
                self.seed == seed0,
                self.total_len == a.len(),
                self.absorbed@ == a,
                self.buf_len as int + (len - j) < 32,
                (a.len() + j - self.buf_len) % 32 == 0,
                self.h == lanes_after_stripes(seed0, n.subrange(0, a.len() + j - self.buf_len)),
                self.buf@.subrange(0, self.buf_len as int) == n.subrange(
                    a.len() + j - self.buf_len,
                    a.len() + j,
                ),
            decreases len - j,
        {
            let b: u8 = *slice_index_get(input, j);
            self.buf.set(self.buf_len, b);
            self.buf_len = self.buf_len + 1;
            j = j + 1;
            proof {
                assert(self.buf@.subrange(0, self.buf_len as int) =~= n.subrange(
                    a.len() + j - self.buf_len,
                    a.len() + j,
                ));
            }
        }

        self.total_len = self.total_len + (len as u64);
        proof {
            self.absorbed@ = n;
        }
        proof {
            let k: int = n.len() - self.buf_len;
            vstd::arithmetic::div_mod::lemma_fundamental_div_mod(k, 32);
            vstd::arithmetic::div_mod::lemma_fundamental_div_mod_converse_mod(
                n.len() as int,
                32,
                k / 32,
                self.buf_len as int,
            );
        }
    }

    /// The digest of everything absorbed so far: exactly the one-shot
    /// version-1 digest of the absorbed byte sequence under this hasher's
    /// seed. Read-only, so it may be called repeatedly and interleaved with
    /// further `update` calls.
    pub fn finalize(&self) -> (r: u64)
        requires
            self.wf(),
        ensures
            r == spec_chibi_hash64(self.bytes_absorbed(), self.spec_seed()),
    {
        proof {
            vstd::arithmetic::div_mod::lemma_fundamental_div_mod(self.absorbed@.len() as int, 32);
        }
        hash_tail(
            self.h,
            slice_subrange(self.buf.as_slice(), 0, self.buf_len),
            self.total_len,
            self.seed,
        )
    }
}

/// Determinism law: the digest is a function of the byte sequence and the
/// seed alone, so any two results of hashing the same input under the same
/// seed are equal.
pub proof fn lemma_hash64_deterministic(key: Seq<u8>, seed: u64, r1: u64, r2: u64)
    requires
        r1 == spec_chibi_hash64(key, seed),
        r2 == spec_chibi_hash64(key, seed),
    ensures
        r1 == r2,
{
}

/// Idempotent-finalize law: finalizing is read-only, so any two digests
/// produced from the same streaming state are equal.
pub proof fn lemma_finalize_idempotent(s: &StreamingChibiHasher, r1: u64, r2: u64)
    requires
        r1 == spec_chibi_hash64(s.bytes_absorbed(), s.spec_seed()),
        r2 == spec_chibi_hash64(s.bytes_absorbed(), s.spec_seed()),
    ensures
        r1 == r2,
{
}

/// Folding one further whole stripe commutes with the recursion in
/// [`lanes_after_stripes`]: processing `s + t` stripe by stripe is
/// processing `s`, then folding in the stripe `t`. This is the step that
/// lets the streaming evaluator process stripes as they arrive.
pub proof fn lemma_lanes_after_stripes_snoc(seed: u64, s: Seq<u8>, t: Seq<u8>)
    requires
        s.len() % 32 == 0,
        t.len() == 32,
    ensures
        lanes_after_stripes(seed, s + t) == stripe(lanes_after_stripes(seed, s), t),
{
    let st = s + t;
    assert(st.subrange(0, st.len() - 32) =~= s);
    assert(st.subrange(st.len() - 32, st.len() as int) =~= t);
}

} // verus!
