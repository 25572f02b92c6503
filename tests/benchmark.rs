use confidential_bench::benchmark::compute_salary_benchmark;
use confidential_bench::merge::{merge_submissions, process_company_data};
use confidential_bench::sort::oblivious_sort;
use confidential_bench::stats::compute_statistics;
use confidential_bench::types::{BenchmarkResult, SalaryEntry, SalarySubmission};

fn entry(salary: u32, experience_years: u8) -> SalaryEntry {
    SalaryEntry { salary, experience_years, role_level: 2, location_code: 7 }
}

fn submission(records: &[(u32, u8)], entry_count: u8) -> SalarySubmission {
    let mut entries = [entry(0, 0); 5];
    for (slot, (salary, years)) in records.iter().enumerate() {
        entries[slot] = entry(*salary, *years);
    }
    SalarySubmission { entries, entry_count, company_size: 1 }
}

fn empty() -> SalarySubmission {
    submission(&[], 0)
}

const ZERO: BenchmarkResult = BenchmarkResult {
    average_salary: 0,
    median_salary: 0,
    percentile_25: 0,
    percentile_75: 0,
    total_entries: 0,
    average_experience: 0,
};

#[test]
fn three_single_entries() {
    let r = compute_salary_benchmark(
        submission(&[(70000, 8)], 1),
        submission(&[(50000, 2)], 1),
        submission(&[(60000, 5)], 1),
    );
    assert_eq!(r.total_entries, 3);
    assert_eq!(r.average_salary, 60000);
    assert_eq!(r.median_salary, 60000);
    assert_eq!(r.percentile_25, 50000);
    assert_eq!(r.percentile_75, 70000);
    assert_eq!(r.average_experience, 5);
}

#[test]
fn one_party_with_five_entries() {
    let r = compute_salary_benchmark(
        submission(&[(10, 1), (20, 1), (30, 1), (40, 1), (50, 1)], 5),
        empty(),
        empty(),
    );
    assert_eq!(r.total_entries, 5);
    assert_eq!(r.average_salary, 30);
    assert_eq!(r.median_salary, 30);
    assert_eq!(r.percentile_25, 20);
    assert_eq!(r.percentile_75, 40);
    assert_eq!(r.average_experience, 1);
}

#[test]
fn all_empty_gives_zero() {
    assert_eq!(compute_salary_benchmark(empty(), empty(), empty()), ZERO);
}

#[test]
fn padding_is_ignored_when_count_is_zero() {
    let s = submission(&[(90000, 30), (80000, 20)], 0);
    assert_eq!(compute_salary_benchmark(s, s, s), ZERO);
}

#[test]
fn count_beyond_slots_is_clamped() {
    let records = [(500, 1), (100, 2), (400, 3), (200, 4), (300, 5)];
    let declared = submission(&records, 7);
    let exact = submission(&records, 5);
    let r = compute_salary_benchmark(declared, empty(), empty());
    assert_eq!(r, compute_salary_benchmark(exact, empty(), empty()));
    assert_eq!(r.total_entries, 5);
    assert_eq!(r.average_salary, 300);
    assert_eq!(r.median_salary, 300);
    assert_eq!(r.average_experience, 3);
}

#[test]
fn party_order_does_not_matter() {
    let a = submission(&[(40000, 3), (55000, 6)], 2);
    let b = submission(&[(55000, 9)], 1);
    let c = submission(&[(30000, 1), (55000, 2), (70000, 12)], 3);
    let base = compute_salary_benchmark(a, b, c);
    assert_eq!(compute_salary_benchmark(a, c, b), base);
    assert_eq!(compute_salary_benchmark(b, a, c), base);
    assert_eq!(compute_salary_benchmark(b, c, a), base);
    assert_eq!(compute_salary_benchmark(c, a, b), base);
    assert_eq!(compute_salary_benchmark(c, b, a), base);
    assert_eq!(base.total_entries, 6);
    assert_eq!(base.median_salary, 55000);
}

#[test]
fn repeated_calls_agree() {
    let a = submission(&[(12345, 4), (67890, 11)], 2);
    let b = submission(&[(22222, 7)], 1);
    let c = submission(&[(99999, 20), (11111, 1), (33333, 3)], 3);
    let first = compute_salary_benchmark(a, b, c);
    for _ in 0..10 {
        assert_eq!(compute_salary_benchmark(a, b, c), first);
    }
}

#[test]
fn even_count_takes_upper_middle() {
    let r = compute_salary_benchmark(submission(&[(10, 0), (20, 0), (30, 0), (40, 0)], 4), empty(), empty());
    assert_eq!(r.median_salary, 30);
    assert_eq!(r.percentile_25, 20);
    assert_eq!(r.percentile_75, 40);
    assert_eq!(r.average_salary, 25);
}

#[test]
fn averages_truncate() {
    let r = compute_salary_benchmark(submission(&[(10, 1), (11, 2)], 2), submission(&[(11, 2)], 1), empty());
    assert_eq!(r.average_salary, 10);
    assert_eq!(r.average_experience, 1);
}

#[test]
fn full_buffer_of_large_salaries() {
    let records = [(u32::MAX, 255); 5];
    let s = submission(&records, 5);
    let r = compute_salary_benchmark(s, s, s);
    assert_eq!(r.total_entries, 15);
    assert_eq!(r.average_salary, u32::MAX);
    assert_eq!(r.median_salary, u32::MAX);
    assert_eq!(r.average_experience, 255);
}

#[test]
fn merge_counts_and_packs() {
    let a = submission(&[(1, 1), (2, 2)], 2);
    let b = submission(&[(3, 3), (4, 4), (5, 5), (6, 6), (7, 7)], 9);
    let c = submission(&[(8, 8)], 1);
    let m = merge_submissions(&a, &b, &c);
    assert_eq!(m.valid_count, 8);
    assert_eq!(m.total_experience, 36);
    assert_eq!(m.salaries, [1, 2, 3, 4, 5, 6, 7, 8, 0, 0, 0, 0, 0, 0, 0]);
}

#[test]
fn process_stops_at_capacity() {
    let mut salaries = [9u32; 15];
    let mut count: u8 = 13;
    let mut experience: u32 = 100;
    let s = submission(&[(1, 1), (2, 2), (3, 3)], 3);
    process_company_data(&s, &mut salaries, &mut count, &mut experience);
    assert_eq!(count, 15);
    assert_eq!(experience, 103);
    assert_eq!(salaries[12], 9);
    assert_eq!(salaries[13], 1);
    assert_eq!(salaries[14], 2);
}

#[test]
fn sort_orders_prefix_and_keeps_padding() {
    let mut buffer = [5, 3, 9, 1, 3, 7, 2, 8, 0, 6, 4, 11, 10, 12, 13];
    oblivious_sort(&mut buffer, 7);
    assert_eq!(buffer, [1, 2, 3, 3, 5, 7, 9, 8, 0, 6, 4, 11, 10, 12, 13]);
}

#[test]
fn sort_whole_buffer() {
    let mut buffer = [15, 14, 13, 12, 11, 10, 9, 8, 7, 6, 5, 4, 3, 2, 1];
    oblivious_sort(&mut buffer, 15);
    assert_eq!(buffer, [1, 2, 3, 4, 5, 6, 7, 8, 9, 10, 11, 12, 13, 14, 15]);
}

#[test]
fn statistics_narrow_experience() {
    let mut buffer = [0u32; 15];
    buffer[0] = 42;
    let r = compute_statistics(&buffer, 1, 1000);
    assert_eq!(r.average_salary, 42);
    assert_eq!(r.average_experience, (1000 % 256) as u8);
    assert_eq!(compute_statistics(&buffer, 0, 1000), ZERO);
}
