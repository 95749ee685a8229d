//! Step-by-step teaching material: one byte of the XOR cipher broken into
//! bit operations, and the step kinds of the entropy and frequency-test
//! walkthroughs.

use vstd::prelude::*;

verus! {

use vstd::string::StringExecFns;
use crate::bits::byte_bit;

/// The stages of the Shannon entropy walkthrough.
#[derive(Debug, Clone, PartialEq)]
pub enum EntropyStepType {
    CountBytes,
    CalculateProbabilities,
    CalculateContributions,
    SumEntropy,
    Interpret,
}

/// The stages of the frequency (monobit) test walkthrough.
#[derive(Debug, Clone, PartialEq)]
pub enum NistStepType {
    ConvertToBits,
    CountOnesZeros,
    CalculateStatistic,
    CalculatePValue,
    Interpret,
}

/// A single bit XOR operation.
#[derive(Debug, Clone, Copy, PartialEq)]
pub struct BitOperation {
    pub input_bit: bool,
    pub key_bit: bool,
    pub result_bit: bool,
    /// Bit position within the byte, 7 for the most significant bit.
    pub position: usize,
}

/// One byte being encrypted: the input character, the keystream byte, their
/// XOR, and the eight bit operations from most to least significant bit.
#[derive(Debug, Clone)]
pub struct EncryptionStep {
    pub character: char,
    pub input_byte: u8,
    pub keystream_byte: u8,
    pub result_byte: u8,
    pub bit_ops: Vec<BitOperation>,
}

/// The `'0'`/`'1'` rendering of one byte, most significant bit first.
pub open spec fn binary_char_of(b: u8, i: int) -> char {
    if byte_bit(b, i) {
        '1'
    } else {
        '0'
    }
}

/// Render a byte as its eight binary digits, most significant bit first.
fn byte_binary(b: u8) -> (r: String)
    ensures
        r@.len() == 8,
        forall|j: int| 0 <= j < 8 ==> r@[j] == binary_char_of(b, j),
{
    proof {
        reveal_strlit("0");
        reveal_strlit("1");
    }
    let mut s = String::new();
    let mut k: usize = 0;
    while k < 8
        invariant
            0 <= k <= 8,
            s@.len() == k,
            forall|j: int| 0 <= j < k ==> s@[j] == binary_char_of(b, j),
        decreases 8 - k,
    {
        proof {
            reveal_strlit("0");
            reveal_strlit("1");
        }
        let shift: u8 = 7 - (k as u8);
        if ((b >> shift) & 1) == 1 {
            s.append("1");
        } else {
            s.append("0");
        }
        k = k + 1;
    }
    s
}

impl EncryptionStep {
    /// Break one byte of the cipher into its eight bit operations.
    ///
    /// The character is taken as its byte value, XORed with the keystream
    /// byte; `bit_ops` lists the bits from most significant (position 7)
    /// down to least significant (position 0).
    pub fn new(input_char: char, keystream_byte: u8) -> (r: Self)
        ensures
            r.character == input_char,
            r.input_byte == input_char as u8,
            r.keystream_byte == keystream_byte,
            r.result_byte == (input_char as u8) ^ keystream_byte,
            r.bit_ops@.len() == 8,
            forall|j: int|
                0 <= j < 8 ==> (#[trigger] r.bit_ops@[j]).position == 7 - j
                    && r.bit_ops@[j].input_bit == byte_bit(r.input_byte, j)
                    && r.bit_ops@[j].key_bit == byte_bit(keystream_byte, j)
                    && r.bit_ops@[j].result_bit == byte_bit(r.result_byte, j),
            // Each step's result bit really is the XOR of its input and
            // key bits: the bit operations shown are sound.
            forall|j: int|
                0 <= j < 8 ==> (#[trigger] r.bit_ops@[j]).result_bit == (r.bit_ops@[j].input_bit
                    != r.bit_ops@[j].key_bit),
    {
        let input_byte = input_char as u8;
        let result_byte = input_byte ^ keystream_byte;

        let mut bit_ops: Vec<BitOperation> = Vec::new();
        let mut k: usize = 0;
        while k < 8
            invariant
                0 <= k <= 8,
                bit_ops@.len() == k,
                forall|j: int|
                    0 <= j < k ==> (#[trigger] bit_ops@[j]).position == 7 - j
                        && bit_ops@[j].input_bit == byte_bit(input_byte, j)
                        && bit_ops@[j].key_bit == byte_bit(keystream_byte, j)
                        && bit_ops@[j].result_bit == byte_bit(result_byte, j),
            decreases 8 - k,
        {
            let shift: u8 = 7 - (k as u8);
            let input_bit = ((input_byte >> shift) & 1) == 1;
            let key_bit = ((keystream_byte >> shift) & 1) == 1;
            let result_bit = ((result_byte >> shift) & 1) == 1;
            bit_ops.push(BitOperation { input_bit, key_bit, result_bit, position: shift as usize });
            k = k + 1;
        }

        proof {
            assert forall|j: int|
                0 <= j < 8 implies (#[trigger] bit_ops@[j]).result_bit == (bit_ops@[j].input_bit
                != bit_ops@[j].key_bit) by {
                lemma_xor_bitwise(input_byte, keystream_byte, j);
            }
        }
        Self { character: input_char, input_byte, keystream_byte, result_byte, bit_ops }
    }

    /// The binary rendering of the input byte.
    pub fn input_binary(&self) -> (r: String)
        ensures
            r@.len() == 8,
            forall|j: int| 0 <= j < 8 ==> r@[j] == binary_char_of(self.input_byte, j),
    {
        byte_binary(self.input_byte)
    }

    /// The binary rendering of the keystream byte.
    pub fn keystream_binary(&self) -> (r: String)
        ensures
            r@.len() == 8,
            forall|j: int| 0 <= j < 8 ==> r@[j] == binary_char_of(self.keystream_byte, j),
    {
        byte_binary(self.keystream_byte)
    }

    /// The binary rendering of the result byte.
    pub fn result_binary(&self) -> (r: String)
        ensures
            r@.len() == 8,
            forall|j: int| 0 <= j < 8 ==> r@[j] == binary_char_of(self.result_byte, j),
    {
        byte_binary(self.result_byte)
    }
}

/// Each bit of an XOR is the XOR of the bits: the result bit differs from
/// the input bit exactly where the key bit is set.
pub proof fn lemma_xor_bitwise(x: u8, y: u8, i: int)
    requires
        0 <= i < 8,
    ensures
        byte_bit(x ^ y, i) == (byte_bit(x, i) != byte_bit(y, i)),
{
    let s: u8 = (7 - i) as u8;
    assert((((x ^ y) >> s) & 1 == 1) == ((x >> s) & 1 == 1 != ((y >> s) & 1 == 1)))
        by (bit_vector);
}

} // verus!
