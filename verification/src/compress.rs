//! The SHA-1 compression core: message schedule, round functions, and the
//! block transform that advances five 32-bit state words by one 64-byte block.
//!
//! Everything here is branch-free on data: rounds branch on the round index
//! only, and all additions wrap modulo 2^32 by design.

use vstd::prelude::*;
use vstd::wrapping::u32_specs;

verus! {

/// Five 32-bit accumulators, the whole state advanced by the block transform.
pub type State = (u32, u32, u32, u32, u32);

/// Round constant for rounds 0-19.
pub const K0: u32 = 0x5A827999;

/// Round constant for rounds 20-39.
pub const K1: u32 = 0x6ED9EBA1;

/// Round constant for rounds 40-59.
pub const K2: u32 = 0x8F1BBCDC;

/// Round constant for rounds 60-79.
pub const K3: u32 = 0xCA62C1D6;

/// Rotates a 32-bit word left by `n` bits.
pub open spec fn spec_rotl(x: u32, n: u32) -> u32
    recommends
        0 < n < 32,
{
    (x << n) | (x >> ((32 - n) as u32))
}

/// Rotates a 32-bit word left by `n` bits.
pub fn rotl(x: u32, n: u32) -> (r: u32)
    requires
        0 < n < 32,
    ensures
        r == spec_rotl(x, n),
{
    (x << n) | (x >> (32 - n))
}

/// Big-endian 32-bit word assembled from four bytes.
pub open spec fn spec_word(b0: u8, b1: u8, b2: u8, b3: u8) -> u32 {
    ((b0 as u32) << 24) | ((b1 as u32) << 16) | ((b2 as u32) << 8) | (b3 as u32)
}

/// The round function: choice in rounds 0-19, parity in rounds 20-39 and
/// 60-79, majority in rounds 40-59.
pub open spec fn spec_f(t: int, b: u32, c: u32, d: u32) -> u32 {
    if t < 20 {
        (b & c) | ((!b) & d)
    } else if t < 40 {
        b ^ c ^ d
    } else if t < 60 {
        (b & c) | (b & d) | (c & d)
    } else {
        b ^ c ^ d
    }
}

/// The round constant for round `t`.
pub open spec fn spec_k(t: int) -> u32 {
    if t < 20 {
        K0
    } else if t < 40 {
        K1
    } else if t < 60 {
        K2
    } else {
        K3
    }
}

/// Word `t` of the 80-entry message schedule of a 64-byte block: the first 16
/// words read the block big-endian, the rest follow the rotate-XOR recurrence.
pub open spec fn spec_w(block: Seq<u8>, t: int) -> u32
    recommends
        block.len() == 64,
        0 <= t < 80,
    decreases t,
{
    if t < 16 {
        spec_word(block[4 * t], block[4 * t + 1], block[4 * t + 2], block[4 * t + 3])
    } else {
        spec_rotl(
            spec_w(block, t - 3) ^ spec_w(block, t - 8) ^ spec_w(block, t - 14) ^ spec_w(
                block,
                t - 16,
            ),
            1,
        )
    }
}

/// One SHA-1 round applied to the rotating five-word state.
pub open spec fn spec_round(s: State, block: Seq<u8>, t: int) -> State {
    let (a, b, c, d, e) = s;
    let tmp = u32_specs::wrapping_add(
        u32_specs::wrapping_add(
            u32_specs::wrapping_add(u32_specs::wrapping_add(spec_rotl(a, 5), spec_f(t, b, c, d)), e),
            spec_k(t),
        ),
        spec_w(block, t),
    );
    (tmp, a, spec_rotl(b, 30), c, d)
}

/// The state after the first `t` rounds on a block.
pub open spec fn spec_rounds(h: State, block: Seq<u8>, t: int) -> State
    decreases t,
{
    if t <= 0 {
        h
    } else {
        spec_round(spec_rounds(h, block, t - 1), block, t - 1)
    }
}

/// The block transform: 80 rounds, then a wrapping add of the input state.
pub open spec fn spec_compress(h: State, block: Seq<u8>) -> State {
    let (a, b, c, d, e) = spec_rounds(h, block, 80);
    (
        u32_specs::wrapping_add(h.0, a),
        u32_specs::wrapping_add(h.1, b),
        u32_specs::wrapping_add(h.2, c),
        u32_specs::wrapping_add(h.3, d),
        u32_specs::wrapping_add(h.4, e),
    )
}

/// Applies the block transform to the 64 bytes of `buf` starting at `off`.
pub fn compress_block(h: State, buf: &Vec<u8>, off: usize) -> (r: State)
    requires
        off + 64 <= buf@.len(),
    ensures
        r == spec_compress(h, buf@.subrange(off as int, off as int + 64)),
{
    let ghost block = buf@.subrange(off as int, off as int + 64);
    let n: usize = buf.len();
    let mut w: Vec<u32> = Vec::with_capacity(80);
    let mut t: usize = 0;
    while t < 16
        invariant
            t <= 16,
            off + 64 <= n,
            n == buf@.len(),
            w@.len() == t,
            block == buf@.subrange(off as int, off as int + 64),
            forall|j: int| 0 <= j < t ==> w@[j] == spec_w(block, j),
        decreases 16 - t,
    {
        let b0 = buf[off + 4 * t];
        let b1 = buf[off + 4 * t + 1];
        let b2 = buf[off + 4 * t + 2];
        let b3 = buf[off + 4 * t + 3];
        proof {
            assert(block[4 * t as int] == b0);
            assert(block[4 * t as int + 1] == b1);
            assert(block[4 * t as int + 2] == b2);
            assert(block[4 * t as int + 3] == b3);
        }
        let word = ((b0 as u32) << 24) | ((b1 as u32) << 16) | ((b2 as u32) << 8) | (b3 as u32);
        w.push(word);
        t += 1;
    }
    while t < 80
        invariant
            16 <= t <= 80,
            w@.len() == t,
            forall|j: int| 0 <= j < t ==> w@[j] == spec_w(block, j),
        decreases 80 - t,
    {
        let x = w[t - 3] ^ w[t - 8] ^ w[t - 14] ^ w[t - 16];
        let word = rotl(x, 1);
        proof {
            assert(spec_w(block, t as int) == spec_rotl(
                spec_w(block, t as int - 3) ^ spec_w(block, t as int - 8) ^ spec_w(
                    block,
                    t as int - 14,
                ) ^ spec_w(block, t as int - 16),
                1,
            ));
            assert(word == spec_w(block, t as int));
        }
        w.push(word);
        t += 1;
    }
    let mut a = h.0;
    let mut b = h.1;
    let mut c = h.2;
    let mut d = h.3;
    let mut e = h.4;
    t = 0;
    while t < 80
        invariant
            t <= 80,
            w@.len() == 80,
            forall|j: int| 0 <= j < 80 ==> w@[j] == spec_w(block, j),
            (a, b, c, d, e) == spec_rounds(h, block, t as int),
        decreases 80 - t,
    {
        let fval: u32 = if t < 20 {
            (b & c) | ((!b) & d)
        } else if t < 40 {
            b ^ c ^ d
        } else if t < 60 {
            (b & c) | (b & d) | (c & d)
        } else {
            b ^ c ^ d
        };
        let kval: u32 = if t < 20 {
            K0
        } else if t < 40 {
            K1
        } else if t < 60 {
            K2
        } else {
            K3
        };
        let tmp = rotl(a, 5).wrapping_add(fval).wrapping_add(e).wrapping_add(kval).wrapping_add(
            w[t],
        );
        proof {
            assert((tmp, a, spec_rotl(b, 30), c, d) == spec_round(
                (a, b, c, d, e),
                block,
                t as int,
            ));
            assert(spec_rounds(h, block, t as int + 1) == spec_round(
                spec_rounds(h, block, t as int),
                block,
                t as int,
            ));
        }
        e = d;
        d = c;
        c = rotl(b, 30);
        b = a;
        a = tmp;
        t += 1;
    }
    (
        h.0.wrapping_add(a),
        h.1.wrapping_add(b),
        h.2.wrapping_add(c),
        h.3.wrapping_add(d),
        h.4.wrapping_add(e),
    )
}

} // verus!
