use vstd::prelude::*;

verus! {

/// Sum of a sequence of counters, as a mathematical integer.
pub open spec fn sum_counts(s: Seq<u64>) -> int
    decreases s.len(),
{
    if s.len() == 0 {
        0
    } else {
        sum_counts(s.drop_last()) + s.last()
    }
}

/// Maximum of a sequence of counters; 0 for the empty sequence.
pub open spec fn max_count(s: Seq<u64>) -> int
    decreases s.len(),
{
    if s.len() == 0 {
        0
    } else if s.last() >= max_count(s.drop_last()) {
        s.last() as int
    } else {
        max_count(s.drop_last())
    }
}

pub proof fn lemma_sum_nonneg(s: Seq<u64>)
    ensures
        sum_counts(s) >= 0,
    decreases s.len(),
{
    if s.len() > 0 {
        lemma_sum_nonneg(s.drop_last());
    }
}

pub proof fn lemma_sum_push(s: Seq<u64>, v: u64)
    ensures
        sum_counts(s.push(v)) == sum_counts(s) + v,
{
    assert(s.push(v).drop_last() =~= s);
}

/// Every counter is at most the sum of all counters.
pub proof fn lemma_elem_le_sum(s: Seq<u64>, i: int)
    requires
        0 <= i < s.len(),
    ensures
        s[i] <= sum_counts(s),
    decreases s.len(),
{
    if i == s.len() - 1 {
        lemma_sum_nonneg(s.drop_last());
    } else {
        lemma_elem_le_sum(s.drop_last(), i);
    }
}

/// Overwriting one counter changes the sum by exactly the difference.
pub proof fn lemma_sum_update(s: Seq<u64>, i: int, v: u64)
    requires
        0 <= i < s.len(),
    ensures
        sum_counts(s.update(i, v)) == sum_counts(s) - s[i] + v,
    decreases s.len(),
{
    let t = s.update(i, v);
    if i == s.len() - 1 {
        assert(t.drop_last() =~= s.drop_last());
    } else {
        assert(t.drop_last() =~= s.drop_last().update(i, v));
        lemma_sum_update(s.drop_last(), i, v);
        assert(t.last() == s.last());
    }
}

/// Every counter is at most the maximum.
pub proof fn lemma_max_is_bound(s: Seq<u64>, i: int)
    requires
        0 <= i < s.len(),
    ensures
        s[i] <= max_count(s),
    decreases s.len(),
{
    if i < s.len() - 1 {
        lemma_max_is_bound(s.drop_last(), i);
    }
}

/// A non-empty sequence attains its maximum at some index.
pub proof fn lemma_max_witness(s: Seq<u64>)
    requires
        s.len() > 0,
    ensures
        exists|i: int| 0 <= i < s.len() && s[i] == max_count(s),
    decreases s.len(),
{
    if s.last() >= max_count(s.drop_last()) {
        assert(s[s.len() - 1] == max_count(s));
    } else {
        lemma_max_witness(s.drop_last());
        let i = choose|i: int|
            0 <= i < s.drop_last().len() && s.drop_last()[i] == max_count(s.drop_last());
        assert(s[i] == max_count(s));
    }
}

/// A sequence whose maximum is zero holds only zero counters, and
/// conversely.
pub proof fn lemma_max_zero_iff_all_zero(s: Seq<u64>)
    ensures
        max_count(s) == 0 <==> (forall|i: int| 0 <= i < s.len() ==> s[i] == 0),
{
    if max_count(s) == 0 {
        assert forall|i: int| 0 <= i < s.len() implies s[i] == 0 by {
            lemma_max_is_bound(s, i);
        }
    } else {
        if s.len() > 0 {
            lemma_max_witness(s);
            let i = choose|i: int| 0 <= i < s.len() && s[i] == max_count(s);
            assert(s[i] != 0);
        }
    }
}

} // verus!
