use vstd::prelude::*;

use crate::merge::merge_submissions;
use crate::sort::{oblivious_sort, sorted_prefix};
use crate::stats::{compute_statistics, seq_sum, statistics_of};
use crate::types::{
    clamped_count, combined_entries, experience_sum, lemma_experience_sum_append,
    lemma_experience_sum_bound, salaries_of, valid_entries, BenchmarkResult, SalaryEntry,
    SalarySubmission,
};

verus! {

/// The order of salaries: `a` comes no later than `b`.
pub open spec fn salary_leq(a: u32, b: u32) -> bool {
    a <= b
}

/// The values of `s` in non-decreasing order.
pub open spec fn sorted_values(s: Seq<u32>) -> Seq<u32> {
    s.sort_by(|a: u32, b: u32| salary_leq(a, b))
}

/// The benchmark of three submissions: the statistics of their meaningful
/// salaries in sorted order and of the experience those records carry.
pub open spec fn benchmark_of(
    s1: SalarySubmission,
    s2: SalarySubmission,
    s3: SalarySubmission,
) -> BenchmarkResult {
    let all = combined_entries(s1, s2, s3);
    statistics_of(sorted_values(salaries_of(all)), experience_sum(all) as u32)
}

/// `salary_leq` is a total order.
pub proof fn lemma_salary_leq_total()
    ensures
        vstd::relations::total_ordering(|a: u32, b: u32| salary_leq(a, b)),
{
}

/// A sequence in non-decreasing order with the values of `s` is
/// `sorted_values(s)`, and the sorted values keep the sum of `s`.
pub proof fn lemma_sorted_values_unique(s: Seq<u32>, t: Seq<u32>)
    requires
        t.to_multiset() == s.to_multiset(),
        sorted_prefix(t, t.len() as int),
    ensures
        t == sorted_values(s),
        seq_sum(sorted_values(s)) == seq_sum(s),
        sorted_values(s).len() == s.len(),
{
    let leq = |a: u32, b: u32| salary_leq(a, b);
    lemma_salary_leq_total();
    s.lemma_sort_by_ensures(leq);
    assert(vstd::relations::sorted_by(t, leq));
    vstd::seq_lib::lemma_sorted_unique(t, sorted_values(s), leq);
    crate::stats::lemma_seq_sum_permutation(sorted_values(s), s);
    vstd::seq_lib::to_multiset_len(s);
    vstd::seq_lib::to_multiset_len(t);
}

/// Computes the benchmark of three parties' submissions: merges their
/// meaningful records, sorts the salaries with the oblivious network and
/// derives the statistics. The result depends on the submissions alone.
pub fn compute_salary_benchmark(
    submission1: SalarySubmission,
    submission2: SalarySubmission,
    submission3: SalarySubmission,
) -> (r: BenchmarkResult)
    ensures
        r == benchmark_of(submission1, submission2, submission3),
        r.total_entries == clamped_count(submission1) + clamped_count(submission2)
            + clamped_count(submission3),
        r.total_entries > 0 ==> r.average_experience == experience_sum(
            combined_entries(submission1, submission2, submission3),
        ) as int / (r.total_entries as int),
        r.total_entries > 0 ==> r.average_salary == seq_sum(
            salaries_of(combined_entries(submission1, submission2, submission3)),
        ) / (r.total_entries as int),
{
    let buffer = merge_submissions(&submission1, &submission2, &submission3);
    let mut all_salaries = buffer.salaries;
    oblivious_sort(&mut all_salaries, buffer.valid_count);
    let r = compute_statistics(&all_salaries, buffer.valid_count, buffer.total_experience);
    proof {
        let all = combined_entries(submission1, submission2, submission3);
        let n = buffer.valid_count as int;
        let merged = salaries_of(all);
        assert(buffer.salaries@.take(n) == merged);
        lemma_sorted_values_unique(merged, all_salaries@.take(n));
        assert(r == benchmark_of(submission1, submission2, submission3));
        if n > 0 {
            lemma_experience_sum_bound(all);
            let e = experience_sum(all) as int;
            assert(e / n <= 255) by (nonlinear_arith)
                requires
                    0 <= e <= 255 * n,
                    n > 0,
            ;
            crate::stats::lemma_seq_sum_bound(merged);
            let t = seq_sum(merged);
            assert(t / n <= u32::MAX) by (nonlinear_arith)
                requires
                    0 <= t <= n * u32::MAX,
                    n > 0,
            ;
        }
    }
    r
}

/// A submission whose `entry_count` is within the slots.
pub open spec fn with_clamped_count(s: SalarySubmission) -> SalarySubmission {
    SalarySubmission { entry_count: clamped_count(s) as u8, ..s }
}

/// Salaries with the same values, in any order, sort to the same sequence.
pub proof fn lemma_sorted_values_of_permutation(a: Seq<u32>, b: Seq<u32>)
    requires
        a.to_multiset() == b.to_multiset(),
    ensures
        sorted_values(a) == sorted_values(b),
{
    let leq = |x: u32, y: u32| salary_leq(x, y);
    lemma_salary_leq_total();
    a.lemma_sort_by_ensures(leq);
    b.lemma_sort_by_ensures(leq);
    vstd::seq_lib::lemma_sorted_unique(sorted_values(a), sorted_values(b), leq);
}

proof fn lemma_combined_parts(a: Seq<SalaryEntry>, b: Seq<SalaryEntry>, c: Seq<SalaryEntry>)
    ensures
        salaries_of(a + b + c).to_multiset() == salaries_of(a).to_multiset().add(
            salaries_of(b).to_multiset(),
        ).add(salaries_of(c).to_multiset()),
        experience_sum(a + b + c) == experience_sum(a) + experience_sum(b) + experience_sum(c),
{
    assert(salaries_of(a + b + c) =~= salaries_of(a) + salaries_of(b) + salaries_of(c));
    vstd::seq_lib::lemma_multiset_commutative(salaries_of(a) + salaries_of(b), salaries_of(c));
    vstd::seq_lib::lemma_multiset_commutative(salaries_of(a), salaries_of(b));
    lemma_experience_sum_append(a + b, c);
    lemma_experience_sum_append(a, b);
}

/// The benchmark does not depend on the order in which the three parties
/// are taken: records of equal salary from different parties may trade
/// places in the combined buffer, and every statistic stays the same.
pub proof fn lemma_party_order_irrelevant(
    s1: SalarySubmission,
    s2: SalarySubmission,
    s3: SalarySubmission,
)
    ensures
        benchmark_of(s1, s3, s2) == benchmark_of(s1, s2, s3),
        benchmark_of(s2, s1, s3) == benchmark_of(s1, s2, s3),
        benchmark_of(s2, s3, s1) == benchmark_of(s1, s2, s3),
        benchmark_of(s3, s1, s2) == benchmark_of(s1, s2, s3),
        benchmark_of(s3, s2, s1) == benchmark_of(s1, s2, s3),
{
    broadcast use vstd::multiset::group_multiset_axioms;

    let (v1, v2, v3) = (valid_entries(s1), valid_entries(s2), valid_entries(s3));
    let (m1, m2, m3) = (
        salaries_of(v1).to_multiset(),
        salaries_of(v2).to_multiset(),
        salaries_of(v3).to_multiset(),
    );
    let base = salaries_of(combined_entries(s1, s2, s3));
    lemma_combined_parts(v1, v2, v3);
    lemma_combined_parts(v1, v3, v2);
    lemma_combined_parts(v2, v1, v3);
    lemma_combined_parts(v2, v3, v1);
    lemma_combined_parts(v3, v1, v2);
    lemma_combined_parts(v3, v2, v1);
    assert(m1.add(m3).add(m2) =~= m1.add(m2).add(m3));
    assert(m2.add(m1).add(m3) =~= m1.add(m2).add(m3));
    assert(m2.add(m3).add(m1) =~= m1.add(m2).add(m3));
    assert(m3.add(m1).add(m2) =~= m1.add(m2).add(m3));
    assert(m3.add(m2).add(m1) =~= m1.add(m2).add(m3));
    lemma_sorted_values_of_permutation(salaries_of(combined_entries(s1, s3, s2)), base);
    lemma_sorted_values_of_permutation(salaries_of(combined_entries(s2, s1, s3)), base);
    lemma_sorted_values_of_permutation(salaries_of(combined_entries(s2, s3, s1)), base);
    lemma_sorted_values_of_permutation(salaries_of(combined_entries(s3, s1, s2)), base);
    lemma_sorted_values_of_permutation(salaries_of(combined_entries(s3, s2, s1)), base);
}

/// When no party declares a record, every field of the benchmark is 0.
pub proof fn lemma_all_empty_gives_zero(
    s1: SalarySubmission,
    s2: SalarySubmission,
    s3: SalarySubmission,
)
    requires
        s1.entry_count == 0,
        s2.entry_count == 0,
        s3.entry_count == 0,
    ensures
        benchmark_of(s1, s2, s3) == (BenchmarkResult {
            average_salary: 0,
            median_salary: 0,
            percentile_25: 0,
            percentile_75: 0,
            total_entries: 0,
            average_experience: 0,
        }),
{
    let s = salaries_of(combined_entries(s1, s2, s3));
    lemma_salary_leq_total();
    s.lemma_sort_by_ensures(|a: u32, b: u32| salary_leq(a, b));
    vstd::seq_lib::to_multiset_len(s);
    vstd::seq_lib::to_multiset_len(sorted_values(s));
}

/// A declared count beyond the slots counts as all the slots: the benchmark
/// equals that of the same submissions with their counts clamped.
pub proof fn lemma_count_clamped(s1: SalarySubmission, s2: SalarySubmission, s3: SalarySubmission)
    ensures
        benchmark_of(s1, s2, s3) == benchmark_of(
            with_clamped_count(s1),
            with_clamped_count(s2),
            with_clamped_count(s3),
        ),
{
    assert(valid_entries(with_clamped_count(s1)) == valid_entries(s1));
    assert(valid_entries(with_clamped_count(s2)) == valid_entries(s2));
    assert(valid_entries(with_clamped_count(s3)) == valid_entries(s3));
}

/// Padding slots never influence the result: submissions that agree on
/// their counts and on their meaningful slots have the same benchmark,
/// whatever their other slots hold.
pub proof fn lemma_padding_irrelevant(
    s1: SalarySubmission,
    s2: SalarySubmission,
    s3: SalarySubmission,
    t1: SalarySubmission,
    t2: SalarySubmission,
    t3: SalarySubmission,
)
    requires
        s1.entry_count == t1.entry_count,
        s2.entry_count == t2.entry_count,
        s3.entry_count == t3.entry_count,
        forall|i: int| 0 <= i < clamped_count(s1) ==> s1.entries[i] == t1.entries[i],
        forall|i: int| 0 <= i < clamped_count(s2) ==> s2.entries[i] == t2.entries[i],
        forall|i: int| 0 <= i < clamped_count(s3) ==> s3.entries[i] == t3.entries[i],
    ensures
        benchmark_of(s1, s2, s3) == benchmark_of(t1, t2, t3),
{
    assert(valid_entries(s1) =~= valid_entries(t1));
    assert(valid_entries(s2) =~= valid_entries(t2));
    assert(valid_entries(s3) =~= valid_entries(t3));
}

/// The benchmark is a function of the submissions: equal submissions give
/// equal results, call after call.
pub proof fn lemma_benchmark_deterministic(
    s1: SalarySubmission,
    s2: SalarySubmission,
    s3: SalarySubmission,
    t1: SalarySubmission,
    t2: SalarySubmission,
    t3: SalarySubmission,
)
    requires
        s1 == t1,
        s2 == t2,
        s3 == t3,
    ensures
        benchmark_of(s1, s2, s3) == benchmark_of(t1, t2, t3),
{
}

} // verus!
