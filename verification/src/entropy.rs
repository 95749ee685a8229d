//! Entropy sources: the `EntropySource` trait, a deterministic mock source
//! for tests, and the operating system's random number generator.

use vstd::prelude::*;

verus! {

/// Core trait for entropy sources.
///
/// Any random number generator can implement this trait to be used with the
/// framework. `fill_bytes` is the one required method; the others have
/// default implementations built on it. A source promises nothing about the
/// values it delivers, only that it fills the whole buffer.
pub trait EntropySource {
    /// Fill the destination buffer with random bytes, keeping its length.
    fn fill_bytes(&mut self, dest: &mut Vec<u8>)
        ensures
            final(dest)@.len() == old(dest)@.len(),
    ;

    /// Get a single random byte.
    fn next_byte(&mut self) -> u8 {
        let mut buf: Vec<u8> = vec![0u8; 1];
        self.fill_bytes(&mut buf);
        buf[0]
    }

    /// Get a random u32 assembled from four bytes, little-endian.
    fn next_u32(&mut self) -> u32 {
        let mut buf: Vec<u8> = vec![0u8; 4];
        self.fill_bytes(&mut buf);
        (buf[0] as u32) | ((buf[1] as u32) << 8u32) | ((buf[2] as u32) << 16u32) | ((
        buf[3] as u32) << 24u32)
    }

    /// Get a random u64 assembled from eight bytes, little-endian.
    fn next_u64(&mut self) -> u64 {
        let mut buf: Vec<u8> = vec![0u8; 8];
        self.fill_bytes(&mut buf);
        (buf[0] as u64) | ((buf[1] as u64) << 8u64) | ((buf[2] as u64) << 16u64) | ((
        buf[3] as u64) << 24u64) | ((buf[4] as u64) << 32u64) | ((buf[5] as u64) << 40u64) | ((
        buf[6] as u64) << 48u64) | ((buf[7] as u64) << 56u64)
    }

    /// Get the source name for display purposes.
    fn name(&self) -> &str {
        "Unknown Source"
    }

    /// Optional: reset the source to its initial state. Default: no-op.
    fn reset(&mut self) {
    }
}

/// The state that follows `s` in the linear congruential generator used by
/// the mock source (the constants of glibc's generator), with wrap-around.
pub open spec fn lcg_next(s: u64) -> u64 {
    vstd::wrapping::u64_specs::wrapping_add(vstd::wrapping::u64_specs::wrapping_mul(s, 1103515245), 12345)
}

/// The generator state after `n` steps from `s`.
pub open spec fn lcg_state(s: u64, n: nat) -> u64
    decreases n,
{
    if n == 0 {
        s
    } else {
        lcg_next(lcg_state(s, (n - 1) as nat))
    }
}

/// The byte the mock source emits on its `i`-th draw (counting from 0) when
/// started from state `s`: bits 24..32 of the state after `i + 1` steps.
pub open spec fn lcg_byte(s: u64, i: nat) -> u8 {
    (lcg_state(s, i + 1) >> 24) as u8
}

/// Mock entropy source for testing.
///
/// This source produces predictable output from a seed, which is useful for
/// testing and debugging. Do not use it where real randomness is needed.
#[derive(Debug, Clone)]
pub struct MockEntropy {
    state: u64,
    initial_state: u64,
}

impl MockEntropy {
    /// The current generator state.
    pub closed spec fn state_val(&self) -> u64 {
        self.state
    }

    /// The seed the source was created with.
    pub closed spec fn seed_val(&self) -> u64 {
        self.initial_state
    }

    /// Create a new mock entropy source with the given seed.
    pub fn new(seed: u64) -> (r: Self)
        ensures
            r.state_val() == seed,
            r.seed_val() == seed,
    {
        Self { state: seed, initial_state: seed }
    }

    /// Create with the default seed.
    pub fn default() -> (r: Self)
        ensures
            r.state_val() == 42,
            r.seed_val() == 42,
    {
        Self::new(42)
    }

    /// Advance the generator one step and emit one byte.
    fn next(&mut self) -> (r: u8)
        ensures
            final(self).state_val() == lcg_next(old(self).state_val()),
            final(self).seed_val() == old(self).seed_val(),
            r == (final(self).state_val() >> 24) as u8,
    {
        self.state = self.state.wrapping_mul(1103515245).wrapping_add(12345);
        (self.state >> 24u64) as u8
    }
}

impl EntropySource for MockEntropy {
    fn fill_bytes(&mut self, dest: &mut Vec<u8>)
        ensures
            final(self).state_val() == lcg_state(old(self).state_val(), old(dest)@.len()),
            final(self).seed_val() == old(self).seed_val(),
            forall|i: int|
                0 <= i < final(dest)@.len() ==> final(dest)@[i] == lcg_byte(
                    old(self).state_val(),
                    i as nat,
                ),
    {
        let n = dest.len();
        let ghost s0 = self.state_val();
        let mut i: usize = 0;
        while i < n
            invariant
                n == dest@.len(),
                0 <= i <= n,
                self.state_val() == lcg_state(s0, i as nat),
                self.seed_val() == old(self).seed_val(),
                forall|j: int| 0 <= j < i ==> dest@[j] == lcg_byte(s0, j as nat),
            decreases n - i,
        {
            let b = self.next();
            dest.set(i, b);
            i = i + 1;
        }
    }

    fn name(&self) -> (r: &str)
        ensures
            r@ == "Mock RNG (for testing only)"@,
    {
        "Mock RNG (for testing only)"
    }

    fn reset(&mut self)
        ensures
            final(self).state_val() == old(self).seed_val(),
            final(self).seed_val() == old(self).seed_val(),
    {
        self.state = self.initial_state;
    }
}

/// System entropy source backed by the operating system's
/// cryptographically secure random number generator.
#[derive(Debug, Clone)]
pub struct SystemEntropy;

impl SystemEntropy {
    /// Create a new system entropy source.
    pub fn new() -> Self {
        Self
    }
}

/// Relies on getrandom::getrandom: on success the whole slice is filled, so
/// the buffer keeps its length. A failure of the operating system generator
/// leaves no valid sample and is treated as fatal.
#[verifier::external_body]
fn os_fill_bytes(dest: &mut Vec<u8>)
    ensures
        final(dest)@.len() == old(dest)@.len(),
{
    getrandom::getrandom(dest.as_mut_slice()).expect("system entropy source failed");
}

impl EntropySource for SystemEntropy {
    fn fill_bytes(&mut self, dest: &mut Vec<u8>) {
        os_fill_bytes(dest);
    }

    fn name(&self) -> (r: &str)
        ensures
            r@ == "System RNG"@,
    {
        "System RNG"
    }
}

impl EntropySource for Box<dyn EntropySource> {
    fn fill_bytes(&mut self, dest: &mut Vec<u8>) {
        (**self).fill_bytes(dest)
    }

    fn name(&self) -> &str {
        (**self).name()
    }
}

/// The sampling harness: request one bulk sample of exactly `sample_size`
/// bytes from the source. This is the one operation that touches the
/// external source; everything downstream is a pure function of the
/// returned sample.
pub fn draw_sample<E: EntropySource>(source: &mut E, sample_size: usize) -> (r: Vec<u8>)
    ensures
        r@.len() == sample_size,
{
    let mut data: Vec<u8> = vec![0u8; sample_size];
    source.fill_bytes(&mut data);
    data
}

} // verus!
