use vstd::prelude::*;

use crate::types::{BenchmarkResult, COMBINED_CAPACITY};

verus! {

/// The sum of a sequence of salaries.
pub open spec fn seq_sum(s: Seq<u32>) -> int
    decreases s.len(),
{
    if s.len() == 0 {
        0
    } else {
        seq_sum(s.drop_last()) + s.last() as int
    }
}

/// The statistics of the meaningful values `sorted` (expected in
/// non-decreasing order) and their experience sum. Averages use truncating
/// division; the median and quartiles are nearest-rank reads at `n / 2`,
/// `n / 4` and `n * 3 / 4`; the mean experience keeps the low eight bits of
/// the quotient. With no values every field is 0.
pub open spec fn statistics_of(sorted: Seq<u32>, total_experience: u32) -> BenchmarkResult {
    let n = sorted.len() as int;
    if n == 0 {
        BenchmarkResult {
            average_salary: 0,
            median_salary: 0,
            percentile_25: 0,
            percentile_75: 0,
            total_entries: 0,
            average_experience: 0,
        }
    } else {
        BenchmarkResult {
            average_salary: (seq_sum(sorted) / n) as u32,
            median_salary: sorted[n / 2],
            percentile_25: sorted[n / 4],
            percentile_75: sorted[n * 3 / 4],
            total_entries: n as u8,
            average_experience: ((total_experience as int / n) % 256) as u8,
        }
    }
}

spec fn add_salary(acc: int, x: u32) -> int {
    acc + x
}

proof fn lemma_seq_sum_is_fold(s: Seq<u32>)
    ensures
        seq_sum(s) == s.fold_left(0int, |acc: int, x: u32| add_salary(acc, x)),
    decreases s.len(),
{
    if s.len() > 0 {
        lemma_seq_sum_is_fold(s.drop_last());
    }
}

/// Reordering salaries does not change their sum.
pub proof fn lemma_seq_sum_permutation(a: Seq<u32>, b: Seq<u32>)
    requires
        a.to_multiset() == b.to_multiset(),
    ensures
        seq_sum(a) == seq_sum(b),
{
    let f = |acc: int, x: u32| add_salary(acc, x);
    assert(vstd::seq_lib::commutative_foldl(f));
    vstd::seq_lib::lemma_fold_left_permutation(a, b, f, 0int);
    lemma_seq_sum_is_fold(a);
    lemma_seq_sum_is_fold(b);
}

/// A sum of salaries is at most the count times the largest salary.
pub proof fn lemma_seq_sum_bound(s: Seq<u32>)
    ensures
        0 <= seq_sum(s) <= s.len() * u32::MAX,
    decreases s.len(),
{
    if s.len() > 0 {
        lemma_seq_sum_bound(s.drop_last());
    }
}

/// Derives the statistics from the first `count` slots of `sorted`, with
/// fixed-offset reads. Every slot is visited by the sum whatever the count;
/// slots past the count add nothing.
pub fn compute_statistics(
    sorted: &[u32; COMBINED_CAPACITY],
    count: u8,
    total_experience: u32,
) -> (r: BenchmarkResult)
    requires
        count <= COMBINED_CAPACITY,
    ensures
        r == statistics_of(sorted@.take(count as int), total_experience),
{
    let n = count as usize;
    let ghost vals = sorted@.take(n as int);
    let mut total_salary: u64 = 0;
    let mut i: usize = 0;
    while i < COMBINED_CAPACITY
        invariant
            0 <= i <= COMBINED_CAPACITY,
            n == count as usize,
            n <= COMBINED_CAPACITY,
            vals == sorted@.take(n as int),
            total_salary as int == seq_sum(sorted@.take(if i <= n { i as int } else { n as int })),
            total_salary as int <= i * u32::MAX,
        decreases COMBINED_CAPACITY - i,
    {
        let add: u32 = if i < n { sorted[i] } else { 0 };
        proof {
            if i < n {
                assert(sorted@.take(i + 1).drop_last() =~= sorted@.take(i as int));
            }
        }
        total_salary = total_salary + add as u64;
        i = i + 1;
    }
    proof {
        assert(sorted@.take(n as int) =~= vals);
    }
    let median = sorted[n / 2];
    let p25 = sorted[n / 4];
    let p75 = sorted[n * 3 / 4];
    if n > 0 {
        proof {
            lemma_seq_sum_bound(vals);
            let s = seq_sum(vals);
            assert(s / (n as int) <= u32::MAX) by (nonlinear_arith)
                requires
                    0 <= s <= n * u32::MAX,
                    n > 0,
            ;
            assert(n * 3 / 4 < n);
        }
        let average_salary = (total_salary / (n as u64)) as u32;
        assert(average_salary as int == seq_sum(vals) / (n as int));
        // Keeps the low eight bits of the quotient, as a narrowing cast would.
        let average_experience = ((total_experience / (n as u32)) % 256) as u8;
        BenchmarkResult {
            average_salary,
            median_salary: median,
            percentile_25: p25,
            percentile_75: p75,
            total_entries: count,
            average_experience,
        }
    } else {
        BenchmarkResult {
            average_salary: 0,
            median_salary: 0,
            percentile_25: 0,
            percentile_75: 0,
            total_entries: 0,
            average_experience: 0,
        }
    }
}

} // verus!
