use vstd::prelude::*;

verus! {

/// Number of record slots in one party's submission.
pub const MAX_ENTRIES_PER_PARTY: usize = 5;

/// Number of parties that take part in one computation.
pub const PARTY_COUNT: usize = 3;

/// Capacity of the combined buffer: every slot of every party.
pub const COMBINED_CAPACITY: usize = MAX_ENTRIES_PER_PARTY * PARTY_COUNT;

/// One worker's data point.
#[derive(Clone, Copy, Debug, PartialEq, Eq)]
pub struct SalaryEntry {
    pub salary: u32,
    pub experience_years: u8,
    /// 1 = Junior, 2 = Mid, 3 = Senior, 4 = Lead.
    pub role_level: u8,
    /// Opaque location encoding.
    pub location_code: u8,
}

/// One party's payload: a fixed number of slots, of which the first
/// `entry_count` (at most `MAX_ENTRIES_PER_PARTY`) are meaningful.
#[derive(Clone, Copy, Debug, PartialEq, Eq)]
pub struct SalarySubmission {
    pub entries: [SalaryEntry; MAX_ENTRIES_PER_PARTY],
    pub entry_count: u8,
    /// 1 = Startup, 2 = Mid, 3 = Enterprise.
    pub company_size: u8,
}

/// The statistics handed back to the host.
#[derive(Clone, Copy, Debug, PartialEq, Eq)]
pub struct BenchmarkResult {
    pub average_salary: u32,
    pub median_salary: u32,
    pub percentile_25: u32,
    pub percentile_75: u32,
    pub total_entries: u8,
    pub average_experience: u8,
}

/// How many leading slots of a submission count: `entry_count`, clamped to
/// the number of slots.
pub open spec fn clamped_count(s: SalarySubmission) -> nat {
    if s.entry_count as nat <= MAX_ENTRIES_PER_PARTY as nat {
        s.entry_count as nat
    } else {
        MAX_ENTRIES_PER_PARTY as nat
    }
}

/// The meaningful records of a submission, in slot order.
pub open spec fn valid_entries(s: SalarySubmission) -> Seq<SalaryEntry> {
    s.entries@.take(clamped_count(s) as int)
}

/// The salaries of a sequence of records.
pub open spec fn salaries_of(es: Seq<SalaryEntry>) -> Seq<u32> {
    es.map_values(|e: SalaryEntry| e.salary)
}

/// The sum of the experience years of a sequence of records.
pub open spec fn experience_sum(es: Seq<SalaryEntry>) -> nat
    decreases es.len(),
{
    if es.len() == 0 {
        0
    } else {
        experience_sum(es.drop_last()) + es.last().experience_years as nat
    }
}

/// The meaningful records of three submissions, party by party.
pub open spec fn combined_entries(
    s1: SalarySubmission,
    s2: SalarySubmission,
    s3: SalarySubmission,
) -> Seq<SalaryEntry> {
    valid_entries(s1) + valid_entries(s2) + valid_entries(s3)
}

/// The experience sum of `es` grows by one record's years per record.
pub proof fn lemma_experience_sum_bound(es: Seq<SalaryEntry>)
    ensures
        experience_sum(es) <= 255 * es.len(),
    decreases es.len(),
{
    if es.len() > 0 {
        lemma_experience_sum_bound(es.drop_last());
    }
}

/// The experience sum of a concatenation is the sum of the two sums.
pub proof fn lemma_experience_sum_append(a: Seq<SalaryEntry>, b: Seq<SalaryEntry>)
    ensures
        experience_sum(a + b) == experience_sum(a) + experience_sum(b),
    decreases b.len(),
{
    if b.len() > 0 {
        assert((a + b).drop_last() =~= a + b.drop_last());
        lemma_experience_sum_append(a, b.drop_last());
    } else {
        assert(a + b =~= a);
    }
}

} // verus!
