//! The exact bit statistics behind the five-test battery: the one-bit
//! count of the frequency test, the run count and applicability bound of
//! the runs test, the overlapping two-bit window counts of the serial
//! test, and the per-block tallies of the longest-run-of-ones test. Each
//! test's p-value is a fixed smooth function of the quantities computed
//! here.

use vstd::prelude::*;

verus! {

use crate::bits::{
    bits_of,
    count_true,
    count_transitions,
    count_pairs,
    max_ones_run,
    ones_suffix_len,
    bit_stream,
    count_set_bits,
};

use vstd::arithmetic::div_mod::lemma_fundamental_div_mod;
use vstd::arithmetic::mul::lemma_mul_inequality;

/// The statistical test battery's exact counting layer.
///
/// Each function consumes a byte sample and produces the integer statistic
/// of one test, pinned to the sample's bit expansion.
pub struct NistTests;

/// The block size of the longest-run-of-ones test, by total bit count:
/// the three regimes of the reference tables.
pub open spec fn lr_block_size(nbits: nat) -> nat {
    if nbits < 6272 {
        8
    } else if nbits < 75000 {
        128
    } else {
        10000
    }
}

/// How many run-length categories the longest-run-of-ones test tallies,
/// by total bit count.
pub open spec fn lr_num_categories(nbits: nat) -> nat {
    if nbits < 6272 {
        4
    } else if nbits < 75000 {
        6
    } else {
        7
    }
}

/// The category a block's longest run of ones falls into, by total bit
/// count: runs are bucketed against the regime's thresholds, and runs
/// beyond the last threshold collapse into the last category.
pub open spec fn lr_category(nbits: nat, run: nat) -> int {
    if nbits < 6272 {
        if run <= 1 {
            0
        } else if run <= 2 {
            1
        } else if run <= 3 {
            2
        } else {
            3
        }
    } else if nbits < 75000 {
        if run <= 4 {
            0
        } else if run <= 5 {
            1
        } else if run <= 6 {
            2
        } else if run <= 7 {
            3
        } else if run <= 8 {
            4
        } else {
            5
        }
    } else {
        if run <= 10 {
            0
        } else if run <= 11 {
            1
        } else if run <= 12 {
            2
        } else if run <= 13 {
            3
        } else if run <= 14 {
            4
        } else if run <= 15 {
            5
        } else {
            6
        }
    }
}

/// The category of block `b` of the stream, under block size `m`.
pub open spec fn lr_block_cat(bs: Seq<bool>, m: nat, b: int) -> int {
    lr_category(bs.len(), max_ones_run(bs.subrange(b * m, b * m + m)))
}

/// How many of the first `nb` blocks fall into category `c`.
pub open spec fn lr_cat_count(bs: Seq<bool>, m: nat, c: int, nb: int) -> nat
    decreases nb,
{
    if nb <= 0 {
        0
    } else {
        (lr_cat_count(bs, m, c, nb - 1) + if lr_block_cat(bs, m, nb - 1) == c {
            1int
        } else {
            0int
        }) as nat
    }
}

/// The tallies of the categories from `c` upward, summed.
pub open spec fn lr_cat_sum(bs: Seq<bool>, m: nat, c: int, k: int, nb: int) -> nat
    decreases k - c,
{
    if c >= k {
        0
    } else {
        lr_cat_count(bs, m, c, nb) + lr_cat_sum(bs, m, c + 1, k, nb)
    }
}

/// With no blocks there is nothing tallied.
proof fn lemma_lr_sum_zero(bs: Seq<bool>, m: nat, c: int, k: int)
    ensures
        lr_cat_sum(bs, m, c, k, 0) == 0,
    decreases k - c,
{
    if c < k {
        lemma_lr_sum_zero(bs, m, c + 1, k);
    }
}

/// One more block raises exactly its own category's tally.
proof fn lemma_lr_sum_step(bs: Seq<bool>, m: nat, c: int, k: int, nb: int)
    requires
        nb >= 1,
    ensures
        lr_cat_sum(bs, m, c, k, nb) == lr_cat_sum(bs, m, c, k, nb - 1) + if c <= lr_block_cat(
            bs,
            m,
            nb - 1,
        ) < k {
            1int
        } else {
            0int
        },
    decreases k - c,
{
    if c < k {
        lemma_lr_sum_step(bs, m, c + 1, k, nb);
    }
}

/// Every block lands in exactly one category, so the category tallies of
/// the longest-run-of-ones test sum to the number of blocks.
pub proof fn lemma_lr_tallies_total(bs: Seq<bool>, m: nat, k: int, nb: int)
    requires
        nb >= 0,
        forall|b: int| 0 <= b < nb ==> 0 <= #[trigger] lr_block_cat(bs, m, b) < k,
    ensures
        lr_cat_sum(bs, m, 0, k, nb) == nb,
    decreases nb,
{
    if nb == 0 {
        lemma_lr_sum_zero(bs, m, 0, k);
    } else {
        lemma_lr_tallies_total(bs, m, k, nb - 1);
        lemma_lr_sum_step(bs, m, 0, k, nb);
    }
}

/// The longest run of ones within one stretch of the stream.
fn max_ones_in_range(bs: &Vec<bool>, start: usize, m: usize) -> (r: usize)
    requires
        start + m <= bs@.len(),
    ensures
        r == max_ones_run(bs@.subrange(start as int, start + m)),
{
    let ghost block = bs@.subrange(start as int, start + m);
    let total = bs.len();
    let mut mx: usize = 0;
    let mut cur: usize = 0;
    let mut j: usize = 0;
    while j < m
        invariant
            0 <= j <= m,
            start + m <= total,
            total == bs@.len(),
            block == bs@.subrange(start as int, start + m),
            cur == ones_suffix_len(block.take(j as int)),
            mx == max_ones_run(block.take(j as int)),
            cur <= j,
            mx <= j,
        decreases m - j,
    {
        proof {
            let t1 = block.take(j + 1);
            assert(t1.drop_last() =~= block.take(j as int));
            assert(t1.last() == bs@[start + j]);
        }
        if bs[start + j] {
            cur = cur + 1;
        } else {
            cur = 0;
        }
        if cur > mx {
            mx = cur;
        }
        j = j + 1;
    }
    assert(block.take(m as int) =~= block);
    mx
}

/// Extending a prefix by one bit adds one transition when the bit differs
/// from its predecessor.
proof fn lemma_transitions_take(bs: Seq<bool>, k: int)
    requires
        1 <= k < bs.len(),
    ensures
        count_transitions(bs.take(k + 1)) == count_transitions(bs.take(k)) + if bs[k] != bs[k - 1] {
            1int
        } else {
            0int
        },
{
    assert(bs.take(k + 1).drop_last() =~= bs.take(k));
    assert(bs.take(k + 1).last() == bs[k]);
    assert(bs.take(k + 1)[k - 1] == bs[k - 1]);
}

/// Extending a prefix by one bit completes one more two-bit window.
proof fn lemma_pairs_take(bs: Seq<bool>, b0: bool, b1: bool, k: int)
    requires
        1 <= k < bs.len(),
    ensures
        count_pairs(bs.take(k + 1), b0, b1) == count_pairs(bs.take(k), b0, b1) + if bs[k - 1] == b0
            && bs[k] == b1 {
            1int
        } else {
            0int
        },
{
    assert(bs.take(k + 1).drop_last() =~= bs.take(k));
    assert(bs.take(k + 1).last() == bs[k]);
    assert(bs.take(k + 1)[k - 1] == bs[k - 1]);
}

impl NistTests {
    /// How many bits of the sample's bit expansion are set. The frequency
    /// (monobit) statistic is this count against half the bit count.
    pub fn ones_count(data: &[u8]) -> (r: usize)
        ensures
            r == count_true(bits_of(data@)),
            r <= 8 * data@.len(),
    {
        count_set_bits(data)
    }

    /// How many maximal runs (blocks of identical adjacent bits) the
    /// sample's bit expansion holds: zero for an empty sample, otherwise
    /// one more than the number of adjacent unequal pairs.
    pub fn runs_count(data: &[u8]) -> (r: usize)
        ensures
            data@.len() == 0 ==> r == 0,
            data@.len() > 0 ==> r == 1 + count_transitions(bits_of(data@)),
            r <= 8 * data@.len(),
    {
        let bs = bit_stream(data);
        let n = bs.len();
        if n == 0 {
            return 0;
        }
        let mut r: usize = 1;
        let mut i: usize = 1;
        while i < n
            invariant
                1 <= i <= n,
                n == bs@.len(),
                bs@ == bits_of(data@),
                r == 1 + count_transitions(bs@.take(i as int)),
                r <= i,
            decreases n - i,
        {
            proof {
                lemma_transitions_take(bs@, i as int);
            }
            if bs[i] != bs[i - 1] {
                r = r + 1;
            }
            i = i + 1;
        }
        assert(bs@.take(n as int) =~= bs@);
        r
    }

    /// The runs test's pre-condition: the fraction of ones must lie within
    /// `2 / sqrt(n)` of one half, where `n` is the bit count. In exact
    /// integer terms that is `(2 * ones - n)^2 < 16 * n`; an empty sample
    /// is never applicable.
    pub fn runs_applicable(data: &[u8]) -> (r: bool)
        ensures
            r == {
                let n = 8 * data@.len();
                let ones = count_true(bits_of(data@)) as int;
                (2 * ones - n) * (2 * ones - n) < 16 * n
            },
    {
        let ones = Self::ones_count(data) as u128;
        let n: u128 = 8 * (data.len() as u128);
        let two_ones: u128 = 2 * ones;
        let diff: u128 = if two_ones >= n {
            two_ones - n
        } else {
            n - two_ones
        };
        proof {
            let o = count_true(bits_of(data@)) as int;
            let ni = 8 * data@.len() as int;
            assert((2 * o - ni) * (2 * o - ni) == diff * diff) by (nonlinear_arith)
                requires
                    diff == if 2 * o >= ni {
                        2 * o - ni
                    } else {
                        ni - 2 * o
                    },
            ;
        }
        if diff >= 0x10_0000_0000 {
            proof {
                assert(diff * diff >= 0x10_0000_0000 * 0x10_0000_0000) by (nonlinear_arith)
                    requires
                        diff >= 0x10_0000_0000,
                ;
            }
            false
        } else {
            proof {
                assert(diff * diff < 0x10_0000_0000 * 0x10_0000_0000) by (nonlinear_arith)
                    requires
                        diff < 0x10_0000_0000,
                ;
            }
            (diff * diff) < 16 * n
        }
    }

    /// The four overlapping two-bit window counts of the serial test, in
    /// pattern order 00, 01, 10, 11: entry `p` counts the windows whose
    /// two bits read as the two-bit number `p`.
    pub fn serial_counts(data: &[u8]) -> (r: Vec<usize>)
        ensures
            r@.len() == 4,
            r@[0] == count_pairs(bits_of(data@), false, false),
            r@[1] == count_pairs(bits_of(data@), false, true),
            r@[2] == count_pairs(bits_of(data@), true, false),
            r@[3] == count_pairs(bits_of(data@), true, true),
    {
        let bs = bit_stream(data);
        let n = bs.len();
        let mut counts: Vec<usize> = vec![0usize; 4];
        if n == 0 {
            return counts;
        }
        let mut k: usize = 1;
        while k < n
            invariant
                1 <= k <= n,
                n == bs@.len(),
                bs@ == bits_of(data@),
                counts@.len() == 4,
                counts@[0] == count_pairs(bs@.take(k as int), false, false),
                counts@[1] == count_pairs(bs@.take(k as int), false, true),
                counts@[2] == count_pairs(bs@.take(k as int), true, false),
                counts@[3] == count_pairs(bs@.take(k as int), true, true),
                counts@[0] <= k && counts@[1] <= k && counts@[2] <= k && counts@[3] <= k,
            decreases n - k,
        {
            proof {
                lemma_pairs_take(bs@, false, false, k as int);
                lemma_pairs_take(bs@, false, true, k as int);
                lemma_pairs_take(bs@, true, false, k as int);
                lemma_pairs_take(bs@, true, true, k as int);
            }
            let b0 = bs[k - 1];
            let b1 = bs[k];
            let p: usize = (if b0 {
                2
            } else {
                0
            }) + (if b1 {
                1
            } else {
                0
            });
            let c = counts[p];
            counts.set(p, c + 1);
            k = k + 1;
        }
        assert(bs@.take(n as int) =~= bs@);
        counts
    }

    /// The names of the five tests of the battery, in the fixed order the
    /// report lists them: frequency, runs, longest run, chi-square,
    /// serial. The order is significant for downstream consumers.
    pub fn test_names() -> (r: Vec<&'static str>)
        ensures
            r@.len() == 5,
            r@[0]@ == "Frequency Test"@,
            r@[1]@ == "Runs Test"@,
            r@[2]@ == "Longest Run Test"@,
            r@[3]@ == "Chi-Square Test"@,
            r@[4]@ == "Serial Test"@,
    {
        let mut names: Vec<&'static str> = Vec::new();
        names.push("Frequency Test");
        names.push("Runs Test");
        names.push("Longest Run Test");
        names.push("Chi-Square Test");
        names.push("Serial Test");
        names
    }

    /// The per-block category tallies of the longest-run-of-ones test.
    ///
    /// The test needs at least 128 bytes; on shorter samples there is no
    /// tally and the test reports the conservative fail value. Otherwise
    /// the bit count picks the regime (block size and category count),
    /// the stream is cut into full blocks, and entry `c` counts the
    /// blocks whose longest run of ones falls into category `c`.
    pub fn longest_run_tallies(data: &[u8]) -> (r: Option<Vec<usize>>)
        ensures
            r is Some <==> data@.len() >= 128,
            r is Some ==> ({
                let bs = bits_of(data@);
                let m = lr_block_size(bs.len());
                let k = lr_num_categories(bs.len());
                let nb = bs.len() / m;
                &&& r->Some_0@.len() == k
                &&& forall|c: int|
                    0 <= c < k ==> r->Some_0@[c] == lr_cat_count(bs, m, c, nb as int)
            }),
    {
        if data.len() < 128 {
            return None;
        }
        let bs = bit_stream(data);
        let n = bs.len();
        let (m, k): (usize, usize) = if n < 6272 {
            (8, 4)
        } else if n < 75000 {
            (128, 6)
        } else {
            (10000, 7)
        };
        let nb = n / m;
        let mut tallies: Vec<usize> = vec![0usize; k];
        let mut b: usize = 0;
        while b < nb
            invariant
                0 <= b <= nb,
                n == bs@.len(),
                bs@ == bits_of(data@),
                m == lr_block_size(n as nat),
                k == lr_num_categories(n as nat),
                m >= 1,
                nb == n as int / m as int,
                tallies@.len() == k,
                forall|c: int|
                    0 <= c < k ==> tallies@[c] == lr_cat_count(bs@, m as nat, c, b as int),
                forall|c: int| 0 <= c < k ==> tallies@[c] <= b,
            decreases nb - b,
        {
            proof {
                lemma_fundamental_div_mod(n as int, m as int);
                lemma_mul_inequality(b + 1, n as int / m as int, m as int);
            }
            let start = b * m;
            let run = max_ones_in_range(&bs, start, m);
            let cat: usize = if n < 6272 {
                if run <= 1 {
                    0
                } else if run <= 2 {
                    1
                } else if run <= 3 {
                    2
                } else {
                    3
                }
            } else if n < 75000 {
                if run <= 4 {
                    0
                } else if run <= 5 {
                    1
                } else if run <= 6 {
                    2
                } else if run <= 7 {
                    3
                } else if run <= 8 {
                    4
                } else {
                    5
                }
            } else {
                if run <= 10 {
                    0
                } else if run <= 11 {
                    1
                } else if run <= 12 {
                    2
                } else if run <= 13 {
                    3
                } else if run <= 14 {
                    4
                } else if run <= 15 {
                    5
                } else {
                    6
                }
            };
            proof {
                assert(bs@.subrange(start as int, start + m) == bs@.subrange(
                    (b as int) * (m as nat),
                    (b as int) * (m as nat) + (m as nat),
                ));
                assert(cat == lr_block_cat(bs@, m as nat, b as int));
            }
            let t = tallies[cat];
            tallies.set(cat, t + 1);
            b = b + 1;
        }
        Some(tallies)
    }
}

} // verus!
