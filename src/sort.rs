use vstd::prelude::*;

use crate::types::COMBINED_CAPACITY;

verus! {

/// The first `n` values of `s` are in non-decreasing order.
pub open spec fn sorted_prefix(s: Seq<u32>, n: int) -> bool {
    forall|i: int, j: int| 0 <= i < j < n ==> s[i] <= s[j]
}

/// Exchanging two positions of a sequence keeps its multiset of values.
pub proof fn lemma_swap_keeps_multiset(s: Seq<u32>, i: int, j: int)
    requires
        0 <= i < j < s.len(),
    ensures
        s.update(i, s[j]).update(j, s[i]).to_multiset() == s.to_multiset(),
{
    broadcast use vstd::seq_lib::group_to_multiset_ensures;
    broadcast use vstd::multiset::group_multiset_axioms;

    let t = s.update(i, s[j]);
    assert(t[j] == s[j]);
    assert(t.to_multiset() == s.to_multiset().insert(s[j]).remove(s[i]));
    assert(t.update(j, s[i]).to_multiset() == t.to_multiset().insert(s[i]).remove(s[j]));
    assert(t.update(j, s[i]).to_multiset() =~= s.to_multiset());
}

/// Sorts the first `count` slots of `buffer` in place and leaves the other
/// slots as they are.
///
/// The network compares every pair of slots `(i, j)` with `i < j` of the
/// whole buffer, in the same order whatever the values and the count. A
/// comparison overwrites both slots with the smaller and the larger value
/// where `j` lies inside the first `count` slots, and writes them back
/// unchanged elsewhere: the data decide the values written, never which
/// operations run.
pub fn oblivious_sort(buffer: &mut [u32; COMBINED_CAPACITY], count: u8)
    requires
        count <= COMBINED_CAPACITY,
    ensures
        sorted_prefix(final(buffer)@, count as int),
        final(buffer)@.take(count as int).to_multiset() == old(buffer)@.take(
            count as int,
        ).to_multiset(),
        final(buffer)@.skip(count as int) == old(buffer)@.skip(count as int),
{
    let n = count as usize;
    let mut i: usize = 0;
    while i < COMBINED_CAPACITY
        invariant
            0 <= i <= COMBINED_CAPACITY,
            n == count as usize,
            n <= COMBINED_CAPACITY,
            forall|p: int, q: int| 0 <= p < q < n && p < i ==> buffer[p] <= buffer[q],
            buffer@.take(n as int).to_multiset() == old(buffer)@.take(n as int).to_multiset(),
            buffer@.skip(n as int) == old(buffer)@.skip(n as int),
        decreases COMBINED_CAPACITY - i,
    {
        let mut j: usize = i + 1;
        while j < COMBINED_CAPACITY
            invariant
                0 <= i < COMBINED_CAPACITY,
                i + 1 <= j <= COMBINED_CAPACITY,
                n == count as usize,
                n <= COMBINED_CAPACITY,
                forall|p: int, q: int| 0 <= p < q < n && p < i ==> buffer[p] <= buffer[q],
                forall|q: int| i < q < j && q < n ==> buffer[i as int] <= buffer[q],
                buffer@.take(n as int).to_multiset() == old(buffer)@.take(n as int).to_multiset(),
                buffer@.skip(n as int) == old(buffer)@.skip(n as int),
            decreases COMBINED_CAPACITY - j,
        {
            let a = buffer[i];
            let b = buffer[j];
            let active = j < n;
            let lo = if a <= b { a } else { b };
            let hi = if a <= b { b } else { a };
            let ghost before = buffer@;
            buffer[i] = if active { lo } else { a };
            buffer[j] = if active { hi } else { b };
            proof {
                if active && a > b {
                    let t = before.take(n as int);
                    lemma_swap_keeps_multiset(t, i as int, j as int);
                    assert(buffer@.take(n as int) =~= t.update(i as int, t[j as int]).update(
                        j as int,
                        t[i as int],
                    ));
                } else {
                    assert(buffer@ =~= before);
                }
            }
            j = j + 1;
        }
        i = i + 1;
    }
}

} // verus!
