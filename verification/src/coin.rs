//! Canonical byte encoding and the Fiat-Shamir public coin.
//!
//! The transcript state is a 32-byte hash.  Reseeding absorbs bytes by
//! hashing the old state with them; drawing hashes the state with a
//! counter and reduces the first eight bytes into the field.  Every
//! operation is specified over `sha256_of`, the name this crate gives to
//! the digest.

use vstd::prelude::*;
use sha2::Digest;
use crate::field::{P, in_field};

verus! {

/// The digest of a byte string.  The result depends on the bytes alone.
pub uninterp spec fn sha256_of(bytes: Seq<u8>) -> Seq<u8>;

/// Relies on sha2::Sha256 for the digest of a byte string; a SHA-256
/// digest is 32 bytes long and a function of the input bytes alone.
#[verifier::external_body]
pub(crate) fn hash_bytes(bytes: &Vec<u8>) -> (r: Vec<u8>)
    ensures
        r@ == sha256_of(bytes@),
        r@.len() == 32,
{
    let mut h = sha2::Sha256::new();
    h.update(bytes.as_slice());
    h.finalize().to_vec()
}

/// The little-endian eight-byte encoding of a machine word.
#[verifier::opaque]
pub open spec fn le_bytes8(x: u64) -> Seq<u8> {
    seq![
        (x % 256) as u8,
        ((x / 256) % 256) as u8,
        ((x / 0x1_0000) % 256) as u8,
        ((x / 0x100_0000) % 256) as u8,
        ((x / 0x1_0000_0000) % 256) as u8,
        ((x / 0x100_0000_0000) % 256) as u8,
        ((x / 0x1_0000_0000_0000) % 256) as u8,
        ((x / 0x100_0000_0000_0000) % 256) as u8,
    ]
}

/// Appends the canonical encoding of a machine word.
pub fn push_u64_le(out: &mut Vec<u8>, x: u64)
    ensures
        final(out)@ == old(out)@ + le_bytes8(x),
{
    proof {
        reveal(le_bytes8);
    }
    let ghost pre = out@;
    out.push((x % 256) as u8);
    out.push(((x / 256) % 256) as u8);
    out.push(((x / 0x1_0000) % 256) as u8);
    out.push(((x / 0x100_0000) % 256) as u8);
    out.push(((x / 0x1_0000_0000) % 256) as u8);
    out.push(((x / 0x100_0000_0000) % 256) as u8);
    out.push(((x / 0x1_0000_0000_0000) % 256) as u8);
    out.push(((x / 0x100_0000_0000_0000) % 256) as u8);
    proof {
        assert(out@ =~= pre + le_bytes8(x));
    }
}

/// The canonical encoding of a word sequence: each element little endian.
pub open spec fn words_bytes(s: Seq<u64>) -> Seq<u8>
    decreases s.len(),
{
    if s.len() == 0 {
        Seq::empty()
    } else {
        words_bytes(s.drop_last()) + le_bytes8(s.last())
    }
}

/// Appends the canonical encoding of a word sequence.
pub fn push_words_le(out: &mut Vec<u8>, words: &Vec<u64>)
    ensures
        final(out)@ == old(out)@ + words_bytes(words@),
{
    let ghost pre = out@;
    let mut i: usize = 0;
    while i < words.len()
        invariant
            0 <= i <= words@.len(),
            out@ == pre + words_bytes(words@.subrange(0, i as int)),
        decreases words@.len() - i,
    {
        let ghost before = out@;
        push_u64_le(out, words[i]);
        i = i + 1;
        proof {
            assert(words@.subrange(0, i as int).drop_last() =~= words@.subrange(0, i - 1));
            assert(out@ =~= pre + words_bytes(words@.subrange(0, i as int)));
        }
    }
    proof {
        assert(words@.subrange(0, words@.len() as int) =~= words@);
    }
}

/// The first eight digest bytes read as a little-endian word.
pub open spec fn le_u64_of(s: Seq<u8>) -> int {
    s[0] + s[1] * 256 + s[2] * 0x1_0000 + s[3] * 0x100_0000 + s[4] * 0x1_0000_0000 + s[5]
        * 0x100_0000_0000 + s[6] * 0x1_0000_0000_0000 + s[7] * 0x100_0000_0000_0000
}

/// Reads the first eight bytes of a digest as a little-endian word.
fn le_u64_read(s: &Vec<u8>) -> (r: u64)
    requires
        s@.len() >= 8,
    ensures
        r == le_u64_of(s@),
{
    let r: u64 = s[0] as u64 + (s[1] as u64) * 256 + (s[2] as u64) * 0x1_0000 + (s[3] as u64)
        * 0x100_0000 + (s[4] as u64) * 0x1_0000_0000 + (s[5] as u64) * 0x100_0000_0000 + (
    s[6] as u64) * 0x1_0000_0000_0000 + (s[7] as u64) * 0x100_0000_0000_0000;
    r
}

/// The transcript state after absorbing bytes into an old state.
pub open spec fn reseed_state(state: Seq<u8>, data: Seq<u8>) -> Seq<u8> {
    sha256_of(state + data)
}

/// The field element drawn from a state at a counter value.
pub open spec fn draw_of(state: Seq<u8>, counter: int) -> int {
    le_u64_of(sha256_of(state + le_bytes8(counter as u64))) % (P as int)
}

/// The query index drawn from a state at a counter value, below a bound.
pub open spec fn draw_index_of(state: Seq<u8>, counter: int, bound: int) -> int {
    le_u64_of(sha256_of(state + le_bytes8(counter as u64))) % bound
}

/// The deterministic Fiat-Shamir transcript.
pub struct PublicCoin {
    pub state: Vec<u8>,
    pub counter: u64,
}

impl PublicCoin {
    /// Seeds a transcript from the canonical public-input bytes.
    pub fn new(seed: &Vec<u8>) -> (r: PublicCoin)
        ensures
            r.state@ == sha256_of(seed@),
            r.state@.len() == 32,
            r.counter == 0,
    {
        PublicCoin { state: hash_bytes(seed), counter: 0 }
    }

    /// Absorbs bytes: the new state hashes the old state with the data.
    pub fn reseed(&mut self, data: &Vec<u8>)
        ensures
            final(self).state@ == reseed_state(old(self).state@, data@),
            final(self).state@.len() == 32,
            final(self).counter == 0,
    {
        let mut buf: Vec<u8> = Vec::new();
        let mut i: usize = 0;
        while i < self.state.len()
            invariant
                0 <= i <= self.state@.len(),
                buf@ == self.state@.subrange(0, i as int),
                self.state@ == old(self).state@,
                self.counter == old(self).counter,
            decreases self.state@.len() - i,
        {
            buf.push(self.state[i]);
            i = i + 1;
            proof {
                assert(buf@ =~= self.state@.subrange(0, i as int));
            }
        }
        let mut j: usize = 0;
        while j < data.len()
            invariant
                0 <= j <= data@.len(),
                buf@ == self.state@.subrange(0, self.state@.len() as int) + data@.subrange(
                    0,
                    j as int,
                ),
                self.state@ == old(self).state@,
                self.counter == old(self).counter,
            decreases data@.len() - j,
        {
            buf.push(data[j]);
            j = j + 1;
            proof {
                assert(buf@ =~= self.state@.subrange(0, self.state@.len() as int)
                    + data@.subrange(0, j as int));
            }
        }
        proof {
            assert(self.state@.subrange(0, self.state@.len() as int) =~= self.state@);
            assert(data@.subrange(0, data@.len() as int) =~= data@);
            assert(buf@ =~= self.state@ + data@);
        }
        self.state = hash_bytes(&buf);
        self.counter = 0;
    }

    /// Draws one field element: hash the state with the next counter value
    /// and reduce the first eight bytes.
    pub fn draw(&mut self) -> (r: u64)
        requires
            old(self).state@.len() == 32,
            old(self).counter < 0xffff_ffff_ffff_ffff,
        ensures
            r == draw_of(old(self).state@, old(self).counter + 1),
            in_field(r as int),
            final(self).state@ == old(self).state@,
            final(self).counter == old(self).counter + 1,
    {
        self.counter = self.counter + 1;
        let mut buf: Vec<u8> = Vec::new();
        let mut i: usize = 0;
        while i < self.state.len()
            invariant
                0 <= i <= self.state@.len(),
                buf@ == self.state@.subrange(0, i as int),
                self.state@ == old(self).state@,
                self.counter == old(self).counter + 1,
            decreases self.state@.len() - i,
        {
            buf.push(self.state[i]);
            i = i + 1;
            proof {
                assert(buf@ =~= self.state@.subrange(0, i as int));
            }
        }
        proof {
            assert(self.state@.subrange(0, self.state@.len() as int) =~= self.state@);
        }
        push_u64_le(&mut buf, self.counter);
        let h = hash_bytes(&buf);
        let w = le_u64_read(&h);
        let r = w % P;
        r
    }

    /// Draws one query index below a bound.
    pub fn draw_index(&mut self, bound: u64) -> (r: u64)
        requires
            old(self).state@.len() == 32,
            old(self).counter < 0xffff_ffff_ffff_ffff,
            bound > 0,
        ensures
            r == draw_index_of(old(self).state@, old(self).counter + 1, bound as int),
            r < bound,
            final(self).state@ == old(self).state@,
            final(self).counter == old(self).counter + 1,
    {
        self.counter = self.counter + 1;
        let mut buf: Vec<u8> = Vec::new();
        let mut i: usize = 0;
        while i < self.state.len()
            invariant
                0 <= i <= self.state@.len(),
                buf@ == self.state@.subrange(0, i as int),
                self.state@ == old(self).state@,
                self.counter == old(self).counter + 1,
            decreases self.state@.len() - i,
        {
            buf.push(self.state[i]);
            i = i + 1;
            proof {
                assert(buf@ =~= self.state@.subrange(0, i as int));
            }
        }
        proof {
            assert(self.state@.subrange(0, self.state@.len() as int) =~= self.state@);
        }
        push_u64_le(&mut buf, self.counter);
        let h = hash_bytes(&buf);
        let w = le_u64_read(&h);
        let r = w % bound;
        r
    }

    /// The number of leading zero bits of the transcript state.
    pub fn seed_leading_zeros(&self) -> (r: u32)
        requires
            self.state@.len() == 32,
        ensures
            r == leading_zeros_of(self.state@),
    {
        let mut count: u32 = 0;
        let mut i: usize = 0;
        while i < self.state.len()
            invariant
                0 <= i <= self.state@.len(),
                self.state@.len() == 32,
                count == prefix_zero_bits(self.state@, i as int),
                count == 8 * i || count < 8 * i,
                i < self.state@.len() ==> (count == 8 * i <==> (forall|j: int|
                    0 <= j < i ==> (#[trigger] self.state@[j]) == 0)),
            decreases self.state@.len() - i,
        {
            if count == (8 * i) as u32 {
                let b = self.state[i];
                count = count + byte_leading_zeros(b);
                i = i + 1;
                proof {
                    assert(prefix_zero_bits(self.state@, i as int) == count);
                }
            } else {
                i = i + 1;
                proof {
                    assert(prefix_zero_bits(self.state@, i as int) == count);
                }
            }
        }
        count
    }
}

/// The number of leading zero bits of one byte.
pub open spec fn byte_lz(b: u8) -> int {
    if b >= 128 {
        0
    } else if b >= 64 {
        1
    } else if b >= 32 {
        2
    } else if b >= 16 {
        3
    } else if b >= 8 {
        4
    } else if b >= 4 {
        5
    } else if b >= 2 {
        6
    } else if b >= 1 {
        7
    } else {
        8
    }
}

/// Counts the leading zero bits of one byte.
pub fn byte_leading_zeros(b: u8) -> (r: u32)
    ensures
        r == byte_lz(b),
        r <= 8,
{
    if b >= 128 {
        0
    } else if b >= 64 {
        1
    } else if b >= 32 {
        2
    } else if b >= 16 {
        3
    } else if b >= 8 {
        4
    } else if b >= 4 {
        5
    } else if b >= 2 {
        6
    } else if b >= 1 {
        7
    } else {
        8
    }
}

/// The leading zero bits among the first `k` bytes, stopping at the first
/// set bit.
pub open spec fn prefix_zero_bits(s: Seq<u8>, k: int) -> int
    decreases k,
{
    if k <= 0 {
        0
    } else if forall|j: int| 0 <= j < k - 1 ==> (#[trigger] s[j]) == 0 {
        prefix_zero_bits(s, k - 1) + byte_lz(s[k - 1])
    } else {
        prefix_zero_bits(s, k - 1)
    }
}

/// The number of leading zero bits of a digest.
pub open spec fn leading_zeros_of(s: Seq<u8>) -> int {
    prefix_zero_bits(s, s.len() as int)
}

} // verus!
