use vstd::prelude::*;

use crate::types::{
    clamped_count, combined_entries, experience_sum, lemma_experience_sum_append,
    lemma_experience_sum_bound, salaries_of, valid_entries,
    SalarySubmission, COMBINED_CAPACITY, MAX_ENTRIES_PER_PARTY,
};

verus! {

/// The fixed-capacity buffer that the merger fills: salaries packed to the
/// front, how many of them are meaningful, and the experience they carry.
#[derive(Clone, Copy, Debug, PartialEq, Eq)]
pub struct CombinedBuffer {
    pub salaries: [u32; COMBINED_CAPACITY],
    pub valid_count: u8,
    pub total_experience: u32,
}

/// How many records of `data` fit when `used` slots of the combined buffer
/// are already taken.
pub open spec fn copied_count(data: SalarySubmission, used: nat) -> nat {
    let room = if used <= COMBINED_CAPACITY as nat {
        (COMBINED_CAPACITY as nat - used) as nat
    } else {
        0
    };
    if clamped_count(data) <= room {
        clamped_count(data)
    } else {
        room
    }
}

/// The smaller of two naturals.
pub open spec fn min_nat(a: nat, b: nat) -> nat {
    if a <= b {
        a
    } else {
        b
    }
}

/// Appends the meaningful records of `data` to the combined buffer: their
/// salaries go to the next free slots, their experience to the running sum.
/// The loop makes the same number of rounds whatever the data; a round copies
/// only while the party still has records and the buffer still has room.
pub fn process_company_data(
    data: &SalarySubmission,
    all_salaries: &mut [u32; COMBINED_CAPACITY],
    total_count: &mut u8,
    total_experience: &mut u32,
)
    requires
        *old(total_count) <= COMBINED_CAPACITY,
        *old(total_experience) as int + 255 * MAX_ENTRIES_PER_PARTY <= u32::MAX,
    ensures
        *final(total_count) == *old(total_count) + copied_count(*data, *old(total_count) as nat),
        final(all_salaries)@ == old(all_salaries)@.take(*old(total_count) as int) + salaries_of(
            valid_entries(*data).take(copied_count(*data, *old(total_count) as nat) as int),
        ) + old(all_salaries)@.skip(*final(total_count) as int),
        *final(total_experience) == *old(total_experience) + experience_sum(
            valid_entries(*data).take(copied_count(*data, *old(total_count) as nat) as int),
        ),
{
    let ghost c0 = *old(total_count) as int;
    let ghost k = copied_count(*data, c0 as nat) as int;
    let ghost valid = valid_entries(*data);
    let mut i: usize = 0;
    while i < MAX_ENTRIES_PER_PARTY
        invariant
            0 <= i <= MAX_ENTRIES_PER_PARTY,
            c0 == *old(total_count) as int,
            k == copied_count(*data, c0 as nat),
            valid == valid_entries(*data),
            0 <= k <= MAX_ENTRIES_PER_PARTY,
            *old(total_experience) as int + 255 * MAX_ENTRIES_PER_PARTY <= u32::MAX,
            c0 + k <= COMBINED_CAPACITY,
            *total_count as int == c0 + min_nat(i as nat, k as nat),
            all_salaries@ == old(all_salaries)@.take(c0) + salaries_of(
                valid.take(min_nat(i as nat, k as nat) as int),
            ) + old(all_salaries)@.skip(*total_count as int),
            *total_experience == *old(total_experience) + experience_sum(
                valid.take(min_nat(i as nat, k as nat) as int),
            ),
            experience_sum(valid.take(min_nat(i as nat, k as nat) as int)) <= 255 * min_nat(
                i as nat,
                k as nat,
            ),
        decreases MAX_ENTRIES_PER_PARTY - i,
    {
        if i < data.entry_count as usize && (*total_count as usize) < COMBINED_CAPACITY {
            let idx = *total_count as usize;
            let entry = data.entries[i];
            proof {
                assert(i < k);
                assert(min_nat(i as nat, k as nat) == i);
                assert(*total_experience <= *old(total_experience) + 255 * i);
                let t = valid.take(i as int);
                assert(valid.take(i + 1) =~= t.push(entry));
                assert(valid.take(i + 1).drop_last() =~= t);
                lemma_experience_sum_bound(t);
            }
            all_salaries[idx] = entry.salary;
            *total_experience = *total_experience + entry.experience_years as u32;
            *total_count = *total_count + 1;
            proof {
                let t = valid.take(i as int);
                assert(salaries_of(valid.take(i + 1)) =~= salaries_of(t).push(entry.salary));
                assert(all_salaries@ =~= old(all_salaries)@.take(c0) + salaries_of(
                    valid.take(i + 1),
                ) + old(all_salaries)@.skip(*total_count as int));
            }
        } else {
            proof {
                assert(i >= k);
            }
        }
        i = i + 1;
    }
}

/// Merges the three submissions, party 1 first, into one combined buffer.
/// The meaningful salaries are packed to the front in party and slot order,
/// the padding slots hold 0, and the experience of every meaningful record
/// is summed.
pub fn merge_submissions(
    submission1: &SalarySubmission,
    submission2: &SalarySubmission,
    submission3: &SalarySubmission,
) -> (r: CombinedBuffer)
    ensures
        r.valid_count == clamped_count(*submission1) + clamped_count(*submission2)
            + clamped_count(*submission3),
        r.valid_count <= COMBINED_CAPACITY,
        r.salaries@.take(r.valid_count as int) == salaries_of(
            combined_entries(*submission1, *submission2, *submission3),
        ),
        forall|i: int| r.valid_count <= i < COMBINED_CAPACITY ==> r.salaries[i] == 0,
        r.total_experience == experience_sum(
            combined_entries(*submission1, *submission2, *submission3),
        ),
{
    let mut all_salaries = [0u32; COMBINED_CAPACITY];
    let mut total_count: u8 = 0;
    let mut total_experience: u32 = 0;
    let ghost zeros = all_salaries@;
    let ghost v1 = valid_entries(*submission1);
    let ghost v2 = valid_entries(*submission2);
    let ghost v3 = valid_entries(*submission3);
    proof {
        assert(v1.take(clamped_count(*submission1) as int) =~= v1);
        assert(v2.take(clamped_count(*submission2) as int) =~= v2);
        assert(v3.take(clamped_count(*submission3) as int) =~= v3);
    }
    process_company_data(submission1, &mut all_salaries, &mut total_count, &mut total_experience);
    proof {
        lemma_experience_sum_bound(v1);
    }
    process_company_data(submission2, &mut all_salaries, &mut total_count, &mut total_experience);
    proof {
        lemma_experience_sum_bound(v2);
        lemma_experience_sum_append(v1, v2);
    }
    process_company_data(submission3, &mut all_salaries, &mut total_count, &mut total_experience);
    proof {
        lemma_experience_sum_append(v1 + v2, v3);
        let all = combined_entries(*submission1, *submission2, *submission3);
        assert(salaries_of(all) =~= salaries_of(v1) + salaries_of(v2) + salaries_of(v3));
        assert(all_salaries@.take(total_count as int) =~= salaries_of(all));
        assert forall|i: int| total_count <= i < COMBINED_CAPACITY implies all_salaries[i] == 0 by {
            assert(all_salaries@[i] == zeros.skip(total_count as int)[i - total_count]);
        }
    }
    CombinedBuffer { salaries: all_salaries, valid_count: total_count, total_experience }
}

} // verus!
