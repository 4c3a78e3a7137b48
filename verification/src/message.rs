//! The mathematical SHA-1 function over whole byte sequences: initial state,
//! block-wise chaining of the compression function, the 0x80 / zero / length
//! padding, and big-endian serialization of state words.

use vstd::prelude::*;
use vstd::arithmetic::div_mod::lemma_fundamental_div_mod;
use crate::compress::{spec_compress, State};

verus! {

/// First initial state word.
pub const H0: u32 = 0x67452301;

/// Second initial state word.
pub const H1: u32 = 0xEFCDAB89;

/// Third initial state word.
pub const H2: u32 = 0x98BADCFE;

/// Fourth initial state word.
pub const H3: u32 = 0x10325476;

/// Fifth initial state word.
pub const H4: u32 = 0xC3D2E1F0;

/// The documented initial state of a fresh hasher.
pub open spec fn init_state() -> State {
    (H0, H1, H2, H3, H4)
}

/// Folds the block transform over a whole number of 64-byte blocks.
pub open spec fn spec_chain(h: State, msg: Seq<u8>) -> State
    recommends
        msg.len() % 64 == 0,
    decreases msg.len(),
{
    if msg.len() < 64 {
        h
    } else {
        spec_chain(spec_compress(h, msg.take(64)), msg.skip(64))
    }
}

/// Chaining distributes over concatenation of block-aligned prefixes.
pub proof fn lemma_chain_append(h: State, a: Seq<u8>, b: Seq<u8>)
    requires
        a.len() % 64 == 0,
    ensures
        spec_chain(h, a + b) == spec_chain(spec_chain(h, a), b),
    decreases a.len(),
{
    if a.len() < 64 {
        assert(a.len() % 64 == a.len()) by (nonlinear_arith)
            requires
                0 <= a.len() < 64,
        ;
        assert(a + b =~= b);
        assert(spec_chain(h, a) == h);
    } else {
        assert((a + b).take(64) =~= a.take(64));
        assert((a + b).skip(64) =~= a.skip(64) + b);
        assert(a.len() % 64 == 0 && a.len() >= 64 ==> (a.len() - 64) % 64 == 0) by (nonlinear_arith);
        lemma_chain_append(spec_compress(h, a.take(64)), a.skip(64), b);
        assert(spec_chain(h, a + b) == spec_chain(spec_compress(h, (a + b).take(64)), (a + b).skip(64)));
        assert(spec_chain(h, a) == spec_chain(spec_compress(h, a.take(64)), a.skip(64)));
    }
}

/// On a single block, chaining is one application of the block transform.
pub proof fn lemma_chain_block(h: State, block: Seq<u8>)
    requires
        block.len() == 64,
    ensures
        spec_chain(h, block) == spec_compress(h, block),
{
    assert(block.take(64) =~= block);
    assert(block.skip(64) =~= Seq::<u8>::empty());
    assert(spec_chain(h, block) == spec_chain(spec_compress(h, block.take(64)), block.skip(64)));
    assert(spec_chain(spec_compress(h, block), Seq::<u8>::empty()) == spec_compress(h, block));
}

/// The four bytes of a 32-bit word, most significant first.
pub open spec fn spec_be4(x: u32) -> Seq<u8> {
    seq![
        ((x >> 24) & 0xff) as u8,
        ((x >> 16) & 0xff) as u8,
        ((x >> 8) & 0xff) as u8,
        (x & 0xff) as u8,
    ]
}

/// The eight bytes of a 64-bit word, most significant first.
pub open spec fn spec_be8(x: u64) -> Seq<u8> {
    seq![
        ((x >> 56) & 0xff) as u8,
        ((x >> 48) & 0xff) as u8,
        ((x >> 40) & 0xff) as u8,
        ((x >> 32) & 0xff) as u8,
        ((x >> 24) & 0xff) as u8,
        ((x >> 16) & 0xff) as u8,
        ((x >> 8) & 0xff) as u8,
        (x & 0xff) as u8,
    ]
}

/// Every byte extracted from a 32-bit word fits in eight bits.
pub proof fn lemma_u32_bytes_bound(x: u32)
    by (bit_vector)
    ensures
        (x >> 24) & 0xff < 256,
        (x >> 16) & 0xff < 256,
        (x >> 8) & 0xff < 256,
        x & 0xff < 256,
{
}

/// Every byte extracted from a 64-bit word fits in eight bits.
pub proof fn lemma_u64_bytes_bound(x: u64)
    by (bit_vector)
    ensures
        (x >> 56) & 0xff < 256,
        (x >> 48) & 0xff < 256,
        (x >> 40) & 0xff < 256,
        (x >> 32) & 0xff < 256,
        (x >> 24) & 0xff < 256,
        (x >> 16) & 0xff < 256,
        (x >> 8) & 0xff < 256,
        x & 0xff < 256,
{
}

/// The 20 digest bytes: the five state words serialized big-endian.
pub open spec fn spec_state_bytes(h: State) -> Seq<u8> {
    spec_be4(h.0) + spec_be4(h.1) + spec_be4(h.2) + spec_be4(h.3) + spec_be4(h.4)
}

/// Number of zero bytes between the 0x80 marker and the length field.
pub open spec fn spec_pad_zeros(len: nat) -> nat {
    if len % 64 < 56 {
        (55 - len % 64) as nat
    } else {
        (119 - len % 64) as nat
    }
}

/// The length field: the bit count of the message, low 64 bits, big-endian.
pub open spec fn spec_len_bytes(len: nat) -> Seq<u8> {
    spec_be8(((len * 8) % 0x1_0000_0000_0000_0000) as u64)
}

/// The padding appended to a message of `len` bytes: a 0x80 marker, zeros up
/// to 56 mod 64, then the length field.
pub open spec fn spec_padding(len: nat) -> Seq<u8> {
    seq![0x80u8] + Seq::new(spec_pad_zeros(len), |i: int| 0u8) + spec_len_bytes(len)
}

/// A message followed by its padding.
pub open spec fn spec_padded(msg: Seq<u8>) -> Seq<u8> {
    msg + spec_padding(msg.len())
}

/// A padded message is a whole number of blocks.
pub proof fn lemma_padded_len(msg: Seq<u8>)
    ensures
        spec_padded(msg).len() == msg.len() + 9 + spec_pad_zeros(msg.len()),
        spec_padded(msg).len() % 64 == 0,
{
    let len = msg.len() as int;
    lemma_fundamental_div_mod(len, 64);
    let q = len / 64;
    let r = len % 64;
    let total = spec_padded(msg).len() as int;
    if r < 56 {
        assert(total == 64 * q + 64);
        assert((64 * q + 64) % 64 == 0) by (nonlinear_arith);
    } else {
        assert(total == 64 * q + 128);
        assert((64 * q + 128) % 64 == 0) by (nonlinear_arith);
    }
}

/// The SHA-1 digest of a byte sequence: pad, chain from the initial state,
/// serialize.
pub open spec fn sha1_of(msg: Seq<u8>) -> Seq<u8> {
    spec_state_bytes(spec_chain(init_state(), spec_padded(msg)))
}

/// The block-aligned prefix of a message, every byte of it already compressed.
pub open spec fn spec_processed(m: Seq<u8>) -> Seq<u8> {
    m.take(m.len() as int - (m.len() % 64) as int)
}

/// The unprocessed tail of a message, shorter than one block.
pub open spec fn spec_pending(m: Seq<u8>) -> Seq<u8> {
    m.skip(m.len() as int - (m.len() % 64) as int)
}

/// Appending one byte inside a block leaves the processed prefix alone and
/// grows the pending tail.
pub proof fn lemma_push_within_block(m: Seq<u8>, b: u8)
    requires
        m.len() % 64 < 63,
    ensures
        spec_processed(m.push(b)) == spec_processed(m),
        spec_pending(m.push(b)) == spec_pending(m).push(b),
        m.push(b).len() % 64 == m.len() % 64 + 1,
{
    let len = m.len() as int;
    lemma_fundamental_div_mod(len, 64);
    assert((len + 1) % 64 == len % 64 + 1) by (nonlinear_arith)
        requires
            len >= 0 && len % 64 < 63,
    ;
    assert(spec_processed(m.push(b)) =~= spec_processed(m));
    assert(spec_pending(m.push(b)) =~= spec_pending(m).push(b));
}

/// Appending the 64th byte of a block completes it: the whole message becomes
/// processed and the pending tail empties.
pub proof fn lemma_push_completes_block(m: Seq<u8>, b: u8)
    requires
        m.len() % 64 == 63,
    ensures
        m.push(b).len() % 64 == 0,
        spec_processed(m.push(b)) == m.push(b),
        spec_pending(m.push(b)) == Seq::<u8>::empty(),
        m.push(b) == spec_processed(m) + spec_pending(m).push(b),
        (spec_pending(m).push(b)).len() == 64,
    {
    let len = m.len() as int;
    lemma_fundamental_div_mod(len, 64);
    assert((len + 1) % 64 == 0) by (nonlinear_arith)
        requires
            len >= 0 && len % 64 == 63,
    ;
    assert(spec_processed(m.push(b)) =~= m.push(b));
    assert(spec_pending(m.push(b)) =~= Seq::<u8>::empty());
    assert(m.push(b) =~= spec_processed(m) + spec_pending(m).push(b));
}

/// A message splits into its processed prefix and pending tail.
pub proof fn lemma_split_message(m: Seq<u8>)
    ensures
        m == spec_processed(m) + spec_pending(m),
        spec_processed(m).len() % 64 == 0,
        spec_pending(m).len() == m.len() % 64,
{
    let len = m.len() as int;
    lemma_fundamental_div_mod(len, 64);
    assert((len - len % 64) % 64 == 0) by (nonlinear_arith)
        requires
            len >= 0,
    ;
    assert(m =~= spec_processed(m) + spec_pending(m));
}

} // verus!
