//! Descriptive statistics of a byte sample: the frequency table, the byte
//! sum behind the mean, and the longest run of identical bits. These are
//! the exact integer quantities that the entropy metrics are computed from.

use vstd::prelude::*;

verus! {

use crate::bits::{bits_of, max_eq_run, eq_suffix_len, bit_stream};

/// How many bytes of the sequence equal `b`.
pub open spec fn count_of(s: Seq<u8>, b: u8) -> nat
    decreases s.len(),
{
    if s.len() == 0 {
        0
    } else {
        (count_of(s.drop_last(), b) + if s.last() == b {
            1int
        } else {
            0int
        }) as nat
    }
}

/// The sum of the byte values of the sequence.
pub open spec fn sum_bytes(s: Seq<u8>) -> nat
    decreases s.len(),
{
    if s.len() == 0 {
        0
    } else {
        (sum_bytes(s.drop_last()) + s.last()) as nat
    }
}

/// The occurrence counts of all byte values from `b` upward, summed.
pub open spec fn sum_counts(s: Seq<u8>, b: int) -> nat
    decreases 256 - b,
{
    if b < 0 || b >= 256 {
        0
    } else {
        count_of(s, b as u8) + sum_counts(s, b + 1)
    }
}

/// A byte value cannot occur more often than the sample is long.
pub proof fn lemma_count_of_le_len(s: Seq<u8>, b: u8)
    ensures
        count_of(s, b) <= s.len(),
    decreases s.len(),
{
    if s.len() > 0 {
        lemma_count_of_le_len(s.drop_last(), b);
    }
}

/// Extending a prefix by one byte adds one to that byte's count.
proof fn lemma_count_of_take(s: Seq<u8>, b: u8, k: int)
    requires
        0 <= k < s.len(),
    ensures
        count_of(s.take(k + 1), b) == count_of(s.take(k), b) + if s[k] == b {
            1int
        } else {
            0int
        },
{
    assert(s.take(k + 1).drop_last() =~= s.take(k));
    assert(s.take(k + 1).last() == s[k]);
}

/// Extending a prefix by one byte adds that byte to the sum.
proof fn lemma_sum_bytes_take(s: Seq<u8>, k: int)
    requires
        0 <= k < s.len(),
    ensures
        sum_bytes(s.take(k + 1)) == sum_bytes(s.take(k)) + s[k],
{
    assert(s.take(k + 1).drop_last() =~= s.take(k));
    assert(s.take(k + 1).last() == s[k]);
}

/// The byte sum is at most 255 per byte.
pub proof fn lemma_sum_bytes_le(s: Seq<u8>)
    ensures
        sum_bytes(s) <= 255 * s.len(),
    decreases s.len(),
{
    if s.len() > 0 {
        lemma_sum_bytes_le(s.drop_last());
    }
}

/// The empty sample has no occurrences of anything.
proof fn lemma_sum_counts_empty(b: int)
    ensures
        sum_counts(Seq::<u8>::empty(), b) == 0,
    decreases 256 - b,
{
    if 0 <= b < 256 {
        lemma_sum_counts_empty(b + 1);
    }
}

/// Appending one byte raises exactly one count: the partial sums from `b`
/// upward grow by one exactly when the new byte is counted there.
proof fn lemma_sum_counts_push(s: Seq<u8>, x: u8, b: int)
    requires
        0 <= b <= 256,
    ensures
        sum_counts(s.push(x), b) == sum_counts(s, b) + if b <= x {
            1int
        } else {
            0int
        },
    decreases 256 - b,
{
    if b < 256 {
        lemma_sum_counts_push(s, x, b + 1);
        assert(s.push(x).drop_last() =~= s);
        assert(s.push(x).last() == x);
    }
}

/// The frequency table accounts for every byte of the sample: the counts
/// of all 256 byte values sum to the sample's length.
pub proof fn lemma_counts_total(s: Seq<u8>)
    ensures
        sum_counts(s, 0) == s.len(),
    decreases s.len(),
{
    if s.len() == 0 {
        assert(s =~= Seq::<u8>::empty());
        lemma_sum_counts_empty(0);
    } else {
        let s0 = s.drop_last();
        lemma_counts_total(s0);
        lemma_sum_counts_push(s0, s.last(), 0);
        assert(s0.push(s.last()) =~= s);
    }
}

/// A constant sample concentrates its whole count on the one value: that
/// value occurs as often as the sample is long and every other value not
/// at all. This is why a constant sample has Shannon entropy zero and why
/// its most frequent value has probability one.
pub proof fn lemma_constant_counts(s: Seq<u8>, c: u8)
    requires
        forall|i: int| 0 <= i < s.len() ==> s[i] == c,
    ensures
        count_of(s, c) == s.len(),
        forall|b: u8| b != c ==> count_of(s, b) == 0,
    decreases s.len(),
{
    if s.len() > 0 {
        lemma_constant_counts(s.drop_last(), c);
        assert(s.last() == c);
        assert forall|b: u8| b != c implies count_of(s, b) == 0 by {
            assert(count_of(s, b) == count_of(s.drop_last(), b) + if s.last() == b {
                1int
            } else {
                0int
            });
        }
    }
}

/// With only 256 byte values, no bound on every count can be smaller than
/// a 256th of the sample: whatever bounds all counts bounds the length
/// over 256. This is the integer core of the min-entropy ceiling of 8
/// bits per byte (the most frequent value has probability at least 1/256).
pub proof fn lemma_pigeonhole(s: Seq<u8>, m: nat)
    requires
        forall|c: u8| count_of(s, c) <= m,
    ensures
        s.len() <= 256 * m,
{
    lemma_counts_total(s);
    lemma_sum_counts_bound(s, m, 0);
}

/// The partial count sums from `b` upward cover at most `256 - b` values,
/// each bounded by `m`.
proof fn lemma_sum_counts_bound(s: Seq<u8>, m: nat, b: int)
    requires
        forall|c: u8| count_of(s, c) <= m,
        0 <= b <= 256,
    ensures
        sum_counts(s, b) <= (256 - b) * m,
    decreases 256 - b,
{
    if b < 256 {
        lemma_sum_counts_bound(s, m, b + 1);
        assert(count_of(s, b as u8) <= m);
        assert((256 - b) * m == (256 - (b + 1)) * m + m) by (nonlinear_arith);
    }
}

/// Occurrence counts of every byte value in a sample, with the sample's
/// length. All 256 values are present; absent values count zero. The table
/// is the source of the entropy metrics and the uniformity statistic.
#[derive(Debug, Clone)]
pub struct FrequencyTable {
    counts: Vec<usize>,
    total: usize,
}

impl FrequencyTable {
    /// The table has one slot per byte value.
    pub closed spec fn wf(&self) -> bool {
        self.counts@.len() == 256
    }

    /// The count recorded for byte value `b`.
    pub closed spec fn count_spec(&self, b: u8) -> nat {
        self.counts@[b as int] as nat
    }

    /// The sample length recorded.
    pub closed spec fn total_spec(&self) -> nat {
        self.total as nat
    }

    /// Build the frequency table of a sample in one pass.
    pub fn new(data: &[u8]) -> (r: Self)
        ensures
            r.wf(),
            r.total_spec() == data@.len(),
            forall|b: u8| r.count_spec(b) == count_of(data@, b),
    {
        let n = data.len();
        let mut counts: Vec<usize> = vec![0usize; 256];
        let mut i: usize = 0;
        while i < n
            invariant
                0 <= i <= n,
                n == data@.len(),
                counts@.len() == 256,
                forall|b: u8| #[trigger] counts@[b as int] == count_of(data@.take(i as int), b),
            decreases n - i,
        {
            let x = data[i];
            proof {
                lemma_count_of_le_len(data@.take(i as int), x);
                assert forall|b: u8| #[trigger]
                    count_of(data@.take(i + 1), b) == count_of(data@.take(i as int), b) + (if data@[
                    i as int] == b {
                        1int
                    } else {
                        0int
                    }) by {
                    lemma_count_of_take(data@, b, i as int);
                }
            }
            let c = counts[x as usize];
            counts.set(x as usize, c + 1);
            i = i + 1;
        }
        assert(data@.take(n as int) =~= data@);
        Self { counts, total: n }
    }

    /// The occurrence count of byte value `b`.
    pub fn count(&self, b: u8) -> (r: usize)
        requires
            self.wf(),
        ensures
            r == self.count_spec(b),
    {
        self.counts[b as usize]
    }

    /// The sample length the table was built over.
    pub fn total(&self) -> (r: usize)
        ensures
            r == self.total_spec(),
    {
        self.total
    }

    /// The count of the most frequent byte value (0 for an empty sample).
    /// The min-entropy metric is the negated logarithm of this count over
    /// the sample length.
    pub fn max_count(&self) -> (r: usize)
        requires
            self.wf(),
        ensures
            forall|b: u8| self.count_spec(b) <= r,
            exists|b: u8| self.count_spec(b) == r,
    {
        let mut mx: usize = self.counts[0];
        let ghost mut wit: u8 = 0;
        let mut i: usize = 1;
        while i < 256
            invariant
                1 <= i <= 256,
                self.wf(),
                forall|b: u8| b < i ==> self.count_spec(b) <= mx,
                0 <= wit < i,
                self.count_spec(wit) == mx,
            decreases 256 - i,
        {
            if self.counts[i] > mx {
                mx = self.counts[i];
                proof {
                    wit = i as u8;
                }
            }
            i = i + 1;
        }
        mx
    }
}

/// The sum of all byte values of the sample; the mean is this sum over the
/// sample's length.
pub fn byte_sum(data: &[u8]) -> (r: u128)
    ensures
        r == sum_bytes(data@),
{
    let n = data.len();
    let mut s: u128 = 0;
    let mut i: usize = 0;
    while i < n
        invariant
            0 <= i <= n,
            n == data@.len(),
            s == sum_bytes(data@.take(i as int)),
            s <= 255 * i,
        decreases n - i,
    {
        proof {
            lemma_sum_bytes_take(data@, i as int);
        }
        s = s + (data[i] as u128);
        i = i + 1;
    }
    assert(data@.take(n as int) =~= data@);
    s
}

/// The longest run of identical consecutive bits across the sample's full
/// bit expansion, continuous across byte boundaries; 0 for an empty sample.
pub fn longest_run(data: &[u8]) -> (r: usize)
    ensures
        r == max_eq_run(bits_of(data@)),
{
    let bs = bit_stream(data);
    let n = bs.len();
    let mut mx: usize = 0;
    let mut cur: usize = 0;
    let mut i: usize = 0;
    while i < n
        invariant
            0 <= i <= n,
            n == bs@.len(),
            bs@ == bits_of(data@),
            cur == eq_suffix_len(bs@.take(i as int)),
            mx == max_eq_run(bs@.take(i as int)),
            cur <= i,
            mx <= i,
        decreases n - i,
    {
        if i == 0 {
            cur = 1;
        } else if bs[i] == bs[i - 1] {
            cur = cur + 1;
        } else {
            cur = 1;
        }
        if cur > mx {
            mx = cur;
        }
        proof {
            let t1 = bs@.take(i + 1);
            assert(t1.drop_last() =~= bs@.take(i as int));
            assert(t1.last() == bs@[i as int]);
            if i > 0 {
                assert(t1[i - 1] == bs@[i - 1]);
            }
        }
        i = i + 1;
    }
    assert(bs@.take(n as int) =~= bs@);
    mx
}

} // verus!
