//! A simple XOR stream cipher over an entropy source.

use vstd::prelude::*;

verus! {

use crate::bits::{bits_of, count_true, count_set_bits};
use crate::entropy::EntropySource;

/// XOR of a byte with the one that masked it gives the mask back.
proof fn lemma_xor_invert(a: u8, b: u8)
    ensures
        (a ^ b) ^ a == b,
{
    assert((a ^ b) ^ a == b) by (bit_vector);
}

/// Simple XOR stream cipher.
///
/// The cipher draws a fresh keystream from its entropy source and XORs it
/// with the input. Since XOR is symmetric, the same operation encrypts and
/// decrypts. This is an educational construction, not a production cipher.
pub struct StreamCipher<E: EntropySource> {
    entropy: E,
    state: Vec<u8>,
    bytes_processed: usize,
}

impl<E: EntropySource> StreamCipher<E> {
    /// The keystream bytes kept for display: the first bytes (at most 64)
    /// of the keystream drawn by the latest call to `process`.
    pub closed spec fn spec_state(&self) -> Seq<u8> {
        self.state@
    }

    /// How many input bytes the cipher has processed since creation or the
    /// latest reset.
    pub closed spec fn spec_bytes_processed(&self) -> usize {
        self.bytes_processed
    }

    /// Create a new cipher with the given entropy source.
    pub fn new(entropy: E) -> (r: Self)
        ensures
            r.spec_state().len() == 0,
            r.spec_bytes_processed() == 0,
    {
        Self { entropy, state: Vec::new(), bytes_processed: 0 }
    }

    /// Process data (encrypt or decrypt; XOR is symmetric).
    ///
    /// Draws one fresh keystream of the input's length, XORs it with the
    /// input, and keeps the first bytes (at most 64) of the keystream for
    /// display. The keystream is whatever the source delivered, so the
    /// contract pins the output through it: output XOR input recovers the
    /// kept keystream prefix.
    pub fn process(&mut self, data: &[u8]) -> (out: Vec<u8>)
        requires
            old(self).spec_bytes_processed() + data@.len() <= usize::MAX,
        ensures
            out@.len() == data@.len(),
            final(self).spec_bytes_processed() == old(self).spec_bytes_processed() + data@.len(),
            final(self).spec_state().len() == vstd::math::min(64, data@.len() as int),
            forall|i: int|
                0 <= i < final(self).spec_state().len() ==> final(self).spec_state()[i] == (out@[i]
                    ^ data@[i]),
    {
        let n = data.len();
        let mut keystream: Vec<u8> = vec![0u8; n];
        self.entropy.fill_bytes(&mut keystream);

        let mut out: Vec<u8> = Vec::new();
        let mut i: usize = 0;
        while i < n
            invariant
                0 <= i <= n,
                n == data@.len(),
                keystream@.len() == n,
                out@.len() == i,
                forall|j: int| 0 <= j < i ==> out@[j] == (data@[j] ^ keystream@[j]),
            decreases n - i,
        {
            out.push(data[i] ^ keystream[i]);
            i = i + 1;
        }

        let kept = if n < 64 {
            n
        } else {
            64
        };
        let mut state: Vec<u8> = Vec::new();
        let mut j: usize = 0;
        while j < kept
            invariant
                0 <= j <= kept,
                kept <= n,
                keystream@.len() == n,
                state@.len() == j,
                forall|k: int| 0 <= k < j ==> state@[k] == keystream@[k],
            decreases kept - j,
        {
            state.push(keystream[j]);
            j = j + 1;
        }
        self.state = state;

        self.bytes_processed = self.bytes_processed + n;

        proof {
            assert forall|i: int| 0 <= i < self.spec_state().len() implies self.spec_state()[i] == (
            out@[i] ^ data@[i]) by {
                lemma_xor_invert(data@[i], keystream@[i]);
            }
        }
        out
    }

    /// The keystream bytes kept for display by the latest `process` call.
    pub fn state(&self) -> (r: &[u8])
        ensures
            r@ == self.spec_state(),
    {
        self.state.as_slice()
    }

    /// Total bytes processed since creation or the latest reset.
    pub fn bytes_processed(&self) -> (r: usize)
        ensures
            r == self.spec_bytes_processed(),
    {
        self.bytes_processed
    }

    /// Reset the cipher: clear the kept keystream, restart the byte
    /// counter, and reset the entropy source.
    pub fn reset(&mut self)
        ensures
            final(self).spec_state().len() == 0,
            final(self).spec_bytes_processed() == 0,
    {
        self.state.clear();
        self.bytes_processed = 0;
        self.entropy.reset();
    }
}

/// How many bit positions of two equal-length buffers disagree: the set
/// bits of their bytewise XOR. The avalanche measurement is this count over
/// the total bit count.
pub fn differing_bits(a: &[u8], b: &[u8]) -> (r: usize)
    requires
        a@.len() == b@.len(),
    ensures
        r == count_true(bits_of(Seq::new(a@.len(), |i: int| a@[i] ^ b@[i]))),
        r <= 8 * a@.len(),
{
    let n = a.len();
    let mut x: Vec<u8> = Vec::new();
    let mut i: usize = 0;
    while i < n
        invariant
            0 <= i <= n,
            n == a@.len(),
            n == b@.len(),
            x@.len() == i,
            forall|j: int| 0 <= j < i ==> x@[j] == (a@[j] ^ b@[j]),
        decreases n - i,
    {
        x.push(a[i] ^ b[i]);
        i = i + 1;
    }
    assert(x@ =~= Seq::new(a@.len(), |i: int| a@[i] ^ b@[i]));
    count_set_bits(x.as_slice())
}

} // verus!
