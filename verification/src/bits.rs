//! The bit stream derived from a byte sample (most significant bit first,
//! continuous across byte boundaries), and the counting functions over it
//! that the metrics and the test battery share.

use vstd::prelude::*;

verus! {

use vstd::arithmetic::div_mod::lemma_fundamental_div_mod_converse;

/// Bit `i` of byte `b`, counting from the most significant bit (`i` in 0..8).
pub open spec fn byte_bit(b: u8, i: int) -> bool {
    (b >> ((7 - i) as u8)) & 1 == 1
}

/// The bit expansion of a byte sequence: 8 bits per byte, most significant
/// bit first, one continuous stream.
pub open spec fn bits_of(s: Seq<u8>) -> Seq<bool> {
    Seq::new(s.len() * 8, |i: int| byte_bit(s[i / 8], i % 8))
}

/// How many bits of the sequence are set.
pub open spec fn count_true(bs: Seq<bool>) -> nat
    decreases bs.len(),
{
    if bs.len() == 0 {
        0
    } else {
        (count_true(bs.drop_last()) + if bs.last() {
            1int
        } else {
            0int
        }) as nat
    }
}

/// How many positions `i >= 1` hold a bit different from its predecessor.
/// The number of maximal runs in a non-empty sequence is one more than this.
pub open spec fn count_transitions(bs: Seq<bool>) -> nat
    decreases bs.len(),
{
    if bs.len() <= 1 {
        0
    } else {
        (count_transitions(bs.drop_last()) + if bs.last() != bs[bs.len() - 2] {
            1int
        } else {
            0int
        }) as nat
    }
}

/// How many positions `i` start an overlapping two-bit window holding
/// exactly the bits `(b0, b1)`.
pub open spec fn count_pairs(bs: Seq<bool>, b0: bool, b1: bool) -> nat
    decreases bs.len(),
{
    if bs.len() < 2 {
        0
    } else {
        (count_pairs(bs.drop_last(), b0, b1) + if bs[bs.len() - 2] == b0 && bs.last() == b1 {
            1int
        } else {
            0int
        }) as nat
    }
}

/// The length of the run of identical bits that ends the sequence.
pub open spec fn eq_suffix_len(bs: Seq<bool>) -> nat
    decreases bs.len(),
{
    if bs.len() == 0 {
        0
    } else if bs.len() == 1 {
        1
    } else if bs.last() == bs[bs.len() - 2] {
        (eq_suffix_len(bs.drop_last()) + 1) as nat
    } else {
        1
    }
}

/// The length of the longest run of identical consecutive bits.
pub open spec fn max_eq_run(bs: Seq<bool>) -> nat
    decreases bs.len(),
{
    if bs.len() == 0 {
        0
    } else {
        vstd::math::max(max_eq_run(bs.drop_last()) as int, eq_suffix_len(bs) as int) as nat
    }
}

/// The length of the run of set bits that ends the sequence (0 when the
/// sequence is empty or ends in a clear bit).
pub open spec fn ones_suffix_len(bs: Seq<bool>) -> nat
    decreases bs.len(),
{
    if bs.len() == 0 || !bs.last() {
        0
    } else {
        (ones_suffix_len(bs.drop_last()) + 1) as nat
    }
}

/// The length of the longest run of set bits.
pub open spec fn max_ones_run(bs: Seq<bool>) -> nat
    decreases bs.len(),
{
    if bs.len() == 0 {
        0
    } else {
        vstd::math::max(max_ones_run(bs.drop_last()) as int, ones_suffix_len(bs) as int) as nat
    }
}

/// Extending a prefix by one bit adds that bit to the count.
pub proof fn lemma_count_true_take(bs: Seq<bool>, k: int)
    requires
        0 <= k < bs.len(),
    ensures
        count_true(bs.take(k + 1)) == count_true(bs.take(k)) + if bs[k] {
            1int
        } else {
            0int
        },
{
    assert(bs.take(k + 1).drop_last() =~= bs.take(k));
    assert(bs.take(k + 1).last() == bs[k]);
}

/// A count of set bits never exceeds the length counted over.
pub proof fn lemma_count_true_le_len(bs: Seq<bool>)
    ensures
        count_true(bs) <= bs.len(),
    decreases bs.len(),
{
    if bs.len() > 0 {
        lemma_count_true_le_len(bs.drop_last());
    }
}

/// The ending run is part of the sequence, so it is no longer than it.
pub proof fn lemma_eq_suffix_le_len(bs: Seq<bool>)
    ensures
        eq_suffix_len(bs) <= bs.len(),
    decreases bs.len(),
{
    if bs.len() > 1 {
        lemma_eq_suffix_le_len(bs.drop_last());
    }
}

/// No run is longer than the sequence it lies in, and a non-empty
/// sequence has a run of at least one bit.
pub proof fn lemma_max_eq_run_bounds(bs: Seq<bool>)
    ensures
        max_eq_run(bs) <= bs.len(),
        bs.len() > 0 ==> max_eq_run(bs) >= 1,
    decreases bs.len(),
{
    if bs.len() > 0 {
        lemma_max_eq_run_bounds(bs.drop_last());
        lemma_eq_suffix_le_len(bs);
    }
}

/// The four overlapping two-bit window counts cover every window once:
/// together they count each of the `len - 1` window positions.
pub proof fn lemma_pairs_total(bs: Seq<bool>)
    requires
        bs.len() >= 1,
    ensures
        count_pairs(bs, false, false) + count_pairs(bs, false, true) + count_pairs(bs, true, false)
            + count_pairs(bs, true, true) == bs.len() - 1,
    decreases bs.len(),
{
    if bs.len() > 1 {
        lemma_pairs_total(bs.drop_last());
    }
}

/// The bit expansion of a byte sample, as the tests consume it: 8 bits per
/// byte, most significant bit first.
pub fn bit_stream(data: &[u8]) -> (r: Vec<bool>)
    ensures
        r@ == bits_of(data@),
{
    let n = data.len();
    let mut r: Vec<bool> = Vec::new();
    let mut i: usize = 0;
    while i < n
        invariant
            0 <= i <= n,
            n == data@.len(),
            r@.len() == 8 * i,
            forall|j: int| 0 <= j < r@.len() ==> r@[j] == bits_of(data@)[j],
        decreases n - i,
    {
        let b = data[i];
        let mut k: usize = 0;
        while k < 8
            invariant
                0 <= k <= 8,
                0 <= i < n,
                n == data@.len(),
                b == data@[i as int],
                r@.len() == 8 * i + k,
                forall|j: int| 0 <= j < r@.len() ==> r@[j] == bits_of(data@)[j],
            decreases 8 - k,
        {
            let shift: u8 = 7 - (k as u8);
            let bit = ((b >> shift) & 1) == 1;
            proof {
                assert(bit == byte_bit(b, k as int));
                lemma_fundamental_div_mod_converse((8 * i + k) as int, 8, i as int, k as int);
                assert(bits_of(data@)[8 * i + k] == byte_bit(data@[i as int], k as int));
            }
            r.push(bit);
            k = k + 1;
        }
        i = i + 1;
    }
    assert(r@ =~= bits_of(data@));
    r
}

/// How many bits of the sample's bit expansion are set.
pub fn count_set_bits(data: &[u8]) -> (r: usize)
    ensures
        r == count_true(bits_of(data@)),
        r <= 8 * data@.len(),
{
    let bs = bit_stream(data);
    let n = bs.len();
    let mut c: usize = 0;
    let mut i: usize = 0;
    while i < n
        invariant
            0 <= i <= n,
            n == bs@.len(),
            bs@ == bits_of(data@),
            c == count_true(bs@.take(i as int)),
            c <= i,
        decreases n - i,
    {
        proof {
            lemma_count_true_take(bs@, i as int);
        }
        if bs[i] {
            c = c + 1;
        }
        i = i + 1;
    }
    assert(bs@.take(n as int) =~= bs@);
    c
}

} // verus!
