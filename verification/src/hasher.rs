//! The incremental SHA-1 hasher: a block-buffering state machine over the
//! compression core.
//!
//! The abstract value of a hasher (its view) is the exact sequence of bytes
//! fed in so far.  The concrete state — five words, the buffered tail, the
//! byte counter — is tied to that view by [`SHA1::wf`]: the words summarize
//! every completed block and the buffer holds the remainder.

use vstd::prelude::*;
use crate::compress::{compress_block, State};
use crate::digest::Digest;
use crate::message::{
    init_state, lemma_chain_append, lemma_chain_block, lemma_padded_len, lemma_push_completes_block,
    lemma_push_within_block, lemma_split_message, lemma_u32_bytes_bound, lemma_u64_bytes_bound,
    sha1_of, spec_chain, spec_len_bytes, spec_pad_zeros, spec_padded, spec_padding, spec_pending,
    spec_processed, H0, H1, H2, H3, H4,
};

verus! {

/// The SHA-1 hash instance.
#[derive(Clone)]
pub struct SHA1 {
    h0: u32,
    h1: u32,
    h2: u32,
    h3: u32,
    h4: u32,
    buffer: Vec<u8>,
    total: u64,
    fed: Ghost<Seq<u8>>,
}

impl View for SHA1 {
    type V = Seq<u8>;

    /// The bytes fed in since construction or the last reset.
    closed spec fn view(&self) -> Seq<u8> {
        self.fed@
    }
}

impl SHA1 {
    /// The five 32-bit accumulators.
    pub closed spec fn state(&self) -> State {
        (self.h0, self.h1, self.h2, self.h3, self.h4)
    }

    /// Internal soundness: the counter counts every byte fed, the state words
    /// summarize the block-aligned prefix, and the buffer holds the rest.
    pub closed spec fn wf(&self) -> bool {
        &&& self.total == self@.len()
        &&& self.buffer@ == spec_pending(self@)
        &&& self.buffer@.len() == self@.len() % 64
        &&& self.state() == spec_chain(init_state(), spec_processed(self@))
    }

    /// Calculates the hash digest of an input in one pass.
    pub fn hash(data: &[u8]) -> (digest: Digest)
        ensures
            digest@ == sha1_of(data@),
    {
        proof {
            broadcast use vstd::slice::axiom_spec_len;
            assert(vstd::slice::spec_slice_len(data) <= u64::MAX);
        }
        let mut hash = Self::new();
        hash.update(data);
        hash.digest()
    }

    /// Creates a new hash in the documented initial state.
    pub fn new() -> (r: Self)
        ensures
            r.wf(),
            r@ == Seq::<u8>::empty(),
    {
        let r = SHA1 {
            h0: H0,
            h1: H1,
            h2: H2,
            h3: H3,
            h4: H4,
            buffer: Vec::new(),
            total: 0,
            fed: Ghost(Seq::empty()),
        };
        proof {
            lemma_split_message(r@);
        }
        r
    }

    /// Feeds bytes into the hash state; every completed 64-byte block is
    /// compressed at once and the tail stays buffered.  The byte counter is
    /// 64-bit, so the total input may not exceed `u64::MAX` bytes.
    pub fn update(&mut self, data: &[u8])
        requires
            old(self).wf(),
            old(self)@.len() + data@.len() <= u64::MAX,
        ensures
            final(self).wf(),
            final(self)@ == old(self)@ + data@,
    {
        let ghost start = self.fed@;
        let len: usize = data.len();
        let mut i: usize = 0;
        while i < len
            invariant
                self.wf(),
                i <= len,
                len == data@.len(),
                start.len() + data@.len() <= u64::MAX,
                self@ == start + data@.take(i as int),
            decreases len - i,
        {
            let b = data[i];
            let ghost before = self.fed@;
            proof {
                assert(before.push(b) =~= start + data@.take(i as int + 1));
            }
            self.fed = Ghost(self.fed@.push(b));
            self.buffer.push(b);
            self.total = self.total + 1;
            if self.buffer.len() == 64 {
                proof {
                    lemma_split_message(before);
                    lemma_push_completes_block(before, b);
                }
                let next = compress_block((self.h0, self.h1, self.h2, self.h3, self.h4), &self.buffer, 0);
                proof {
                    assert(self.buffer@.subrange(0, 64) =~= self.buffer@);
                    lemma_chain_append(init_state(), spec_processed(before), self.buffer@);
                    lemma_chain_block(spec_chain(init_state(), spec_processed(before)), self.buffer@);
                }
                self.h0 = next.0;
                self.h1 = next.1;
                self.h2 = next.2;
                self.h3 = next.3;
                self.h4 = next.4;
                self.buffer.clear();
            } else {
                proof {
                    lemma_push_within_block(before, b);
                }
            }
            i += 1;
        }
        proof {
            assert(data@.take(len as int) =~= data@);
        }
    }

    /// Resets the hash state to its initial state, erasing the buffer and the
    /// byte counter.
    pub fn reset(&mut self)
        ensures
            final(self).wf(),
            final(self)@ == Seq::<u8>::empty(),
    {
        self.h0 = H0;
        self.h1 = H1;
        self.h2 = H2;
        self.h3 = H3;
        self.h4 = H4;
        self.buffer.clear();
        self.total = 0;
        self.fed = Ghost(Seq::empty());
        proof {
            lemma_split_message(self.fed@);
        }
    }

    /// Produces the hash digest of the bytes fed so far, without mutating the
    /// live hasher: padding and the final compressions run on a scratch copy,
    /// so further updates keep accumulating.
    pub fn digest(&self) -> (digest: Digest)
        requires
            self.wf(),
        ensures
            digest@ == sha1_of(self@),
    {
        let ghost m = self.fed@;
        // Scratch copy of the pending tail, then the padding.
        let mut tail: Vec<u8> = Vec::new();
        let blen: usize = self.buffer.len();
        let mut i: usize = 0;
        while i < blen
            invariant
                i <= blen,
                blen == self.buffer@.len(),
                tail@ == self.buffer@.take(i as int),
            decreases blen - i,
        {
            let b = self.buffer[i];
            tail.push(b);
            proof {
                assert(self.buffer@.take(i as int).push(b) =~= self.buffer@.take(i as int + 1));
            }
            i += 1;
        }
        proof {
            assert(self.buffer@.take(blen as int) =~= self.buffer@);
        }
        tail.push(0x80);
        let zeros: usize = if blen < 56 {
            55 - blen
        } else {
            119 - blen
        };
        let mut z: usize = 0;
        while z < zeros
            invariant
                z <= zeros,
                tail@ == self.buffer@ + seq![0x80u8] + Seq::new(z as nat, |j: int| 0u8),
            decreases zeros - z,
        {
            tail.push(0);
            proof {
                assert((self.buffer@ + seq![0x80u8] + Seq::new(z as nat, |j: int| 0u8)).push(0u8)
                    =~= self.buffer@ + seq![0x80u8] + Seq::new(z as nat + 1, |j: int| 0u8));
            }
            z += 1;
        }
        let bits: u64 = self.total.wrapping_mul(8);
        proof {
            lemma_u64_bytes_bound(bits);
        }
        tail.push(((bits >> 56) & 0xff) as u8);
        tail.push(((bits >> 48) & 0xff) as u8);
        tail.push(((bits >> 40) & 0xff) as u8);
        tail.push(((bits >> 32) & 0xff) as u8);
        tail.push(((bits >> 24) & 0xff) as u8);
        tail.push(((bits >> 16) & 0xff) as u8);
        tail.push(((bits >> 8) & 0xff) as u8);
        tail.push((bits & 0xff) as u8);
        proof {
            lemma_split_message(m);
            lemma_padded_len(m);
            let base = self.buffer@ + seq![0x80u8] + Seq::new(zeros as nat, |j: int| 0u8);
            assert(tail@ =~= base + crate::message::spec_be8(bits));
            assert(zeros as nat == spec_pad_zeros(m.len()));
            assert(((m.len() * 8) % 0x1_0000_0000_0000_0000) as u64 == bits);
            assert(spec_len_bytes(m.len()) == crate::message::spec_be8(bits));
            assert(tail@ =~= spec_pending(m) + spec_padding(m.len()));
            assert(spec_padded(m) =~= spec_processed(m) + tail@);
            lemma_chain_append(init_state(), spec_processed(m), tail@);
            assert(tail@.len() % 64 == 0) by {
                let a = spec_processed(m).len() as int;
                let b = tail@.len() as int;
                let c = spec_padded(m).len() as int;
                assert(c == a + b);
                assert(a % 64 == 0 && c % 64 == 0 && c == a + b ==> b % 64 == 0)
                    by (nonlinear_arith);
            }
        }
        // Compress the padded tail, one block at a time.
        let mut st: State = (self.h0, self.h1, self.h2, self.h3, self.h4);
        let tlen: usize = tail.len();
        let mut off: usize = 0;
        while off < tlen
            invariant
                off <= tlen,
                off % 64 == 0,
                tlen == tail@.len(),
                tlen % 64 == 0,
                tlen <= 128,
                st == spec_chain(self.state(), tail@.take(off as int)),
            decreases tlen - off,
        {
            proof {
                assert(off + 64 <= tlen) by (nonlinear_arith)
                    requires
                        off < tlen && off % 64 == 0 && tlen % 64 == 0,
                ;
            }
            let next = compress_block(st, &tail, off);
            proof {
                let prefix = tail@.take(off as int);
                let block = tail@.subrange(off as int, off as int + 64);
                assert(tail@.take(off as int + 64) =~= prefix + block);
                lemma_chain_append(self.state(), prefix, block);
                lemma_chain_block(spec_chain(self.state(), prefix), block);
            }
            st = next;
            off += 64;
        }
        proof {
            assert(tail@.take(tlen as int) =~= tail@);
            assert(st == spec_chain(init_state(), spec_padded(m)));
            lemma_u32_bytes_bound(st.0);
            lemma_u32_bytes_bound(st.1);
            lemma_u32_bytes_bound(st.2);
            lemma_u32_bytes_bound(st.3);
            lemma_u32_bytes_bound(st.4);
        }
        let mut out: [u8; 20] = [0u8; 20];
        out[0] = ((st.0 >> 24) & 0xff) as u8;
        out[1] = ((st.0 >> 16) & 0xff) as u8;
        out[2] = ((st.0 >> 8) & 0xff) as u8;
        out[3] = (st.0 & 0xff) as u8;
        out[4] = ((st.1 >> 24) & 0xff) as u8;
        out[5] = ((st.1 >> 16) & 0xff) as u8;
        out[6] = ((st.1 >> 8) & 0xff) as u8;
        out[7] = (st.1 & 0xff) as u8;
        out[8] = ((st.2 >> 24) & 0xff) as u8;
        out[9] = ((st.2 >> 16) & 0xff) as u8;
        out[10] = ((st.2 >> 8) & 0xff) as u8;
        out[11] = (st.2 & 0xff) as u8;
        out[12] = ((st.3 >> 24) & 0xff) as u8;
        out[13] = ((st.3 >> 16) & 0xff) as u8;
        out[14] = ((st.3 >> 8) & 0xff) as u8;
        out[15] = (st.3 & 0xff) as u8;
        out[16] = ((st.4 >> 24) & 0xff) as u8;
        out[17] = ((st.4 >> 16) & 0xff) as u8;
        out[18] = ((st.4 >> 8) & 0xff) as u8;
        out[19] = (st.4 & 0xff) as u8;
        proof {
            assert(out@ =~= crate::message::spec_state_bytes(st));
        }
        Digest::new(out)
    }
}

/// Chunking invariance: two updates in a row build the view `(s + a) + b`,
/// the same sequence an update with the concatenation `a + b` builds, so with
/// [`SHA1::digest`] pinned to `sha1_of` of the view, the digests agree no
/// matter how the input was split.
pub proof fn lemma_update_chunking(s: Seq<u8>, a: Seq<u8>, b: Seq<u8>)
    ensures
        sha1_of((s + a) + b) == sha1_of(s + (a + b)),
{
    assert((s + a) + b =~= s + (a + b));
}

/// The concatenation of a sequence of chunks, in order.
pub open spec fn spec_concat(chunks: Seq<Seq<u8>>) -> Seq<u8>
    decreases chunks.len(),
{
    if chunks.len() == 0 {
        Seq::empty()
    } else {
        spec_concat(chunks.drop_last()) + chunks.last()
    }
}

/// Streaming invariance: a hasher fed chunk after chunk holds the
/// concatenation of the chunks as its view, so however a byte stream is cut
/// up — by a reader, a writer, or explicit updates — the digest is the
/// one-shot digest of the whole stream.
pub proof fn lemma_streaming_chunks(chunks: Seq<Seq<u8>>, whole: Seq<u8>)
    requires
        spec_concat(chunks) == whole,
    ensures
        sha1_of(spec_concat(chunks)) == sha1_of(whole),
{
}

/// A reset hasher digests like a freshly constructed one: both views are the
/// empty sequence, so their digests agree.
pub proof fn lemma_reset_matches_new(r: SHA1, f: SHA1)
    requires
        r@ == Seq::<u8>::empty(),
        f@ == Seq::<u8>::empty(),
    ensures
        sha1_of(r@) == sha1_of(f@),
{
}

/// Querying the digest never mutates the hasher — it takes the receiver by
/// shared reference — and its result is a pure function of the view, so any
/// two queries of the same hasher return the same bytes.
pub proof fn lemma_digest_repeatable(h: SHA1, d1: Seq<u8>, d2: Seq<u8>)
    requires
        d1 == sha1_of(h@),
        d2 == sha1_of(h@),
    ensures
        d1 == d2,
{
}

impl PartialEq for SHA1 {
    /// Value semantics: two hashers are equal exactly when their state words,
    /// buffered tail and byte counter agree.
    fn eq(&self, other: &Self) -> (r: bool) {
        let buffers_eq = self.buffer == other.buffer;
        proof {
            if buffers_eq {
                assert(self.buffer@ =~= other.buffer@);
            }
        }
        self.h0 == other.h0 && self.h1 == other.h1 && self.h2 == other.h2 && self.h3 == other.h3
            && self.h4 == other.h4 && self.total == other.total && buffers_eq
    }
}

impl vstd::std_specs::cmp::PartialEqSpecImpl for SHA1 {
    open spec fn obeys_eq_spec() -> bool {
        true
    }

    closed spec fn eq_spec(&self, other: &Self) -> bool {
        &&& self.state() == other.state()
        &&& self.total == other.total
        &&& self.buffer@ == other.buffer@
    }
}

impl Default for SHA1 {
    /// A default hash is a freshly constructed one.
    fn default() -> (r: Self)
        ensures
            r.wf(),
            r@ == Seq::<u8>::empty(),
    {
        Self::new()
    }
}

} // verus!
