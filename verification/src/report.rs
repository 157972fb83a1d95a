//! The whole-number part of the final report over all sampled nodes.
use vstd::prelude::*;

verus! {

/// The largest of the counts, or 0 for none.
pub open spec fn max_of(counts: Seq<u64>) -> u64
    decreases counts.len(),
{
    if counts.len() == 0 {
        0
    } else {
        let m = max_of(counts.drop_last());
        if counts.last() > m {
            counts.last()
        } else {
            m
        }
    }
}

proof fn lemma_max_of_bounds(counts: Seq<u64>)
    ensures
        forall|i: int| 0 <= i < counts.len() ==> counts[i] <= max_of(counts),
        counts.len() > 0 ==> exists|i: int| 0 <= i < counts.len() && counts[i] == max_of(counts),
    decreases counts.len(),
{
    if counts.len() > 0 {
        let rest = counts.drop_last();
        lemma_max_of_bounds(rest);
        assert forall|i: int| 0 <= i < counts.len() implies counts[i] <= max_of(counts) by {
            if i < counts.len() - 1 {
                assert(counts[i] == rest[i]);
            }
        }
        if counts.last() > max_of(rest) || rest.len() == 0 {
            assert(counts[counts.len() - 1] == max_of(counts));
        } else {
            let j = choose|j: int| 0 <= j < rest.len() && rest[j] == max_of(rest);
            assert(counts[j] == max_of(counts));
        }
    }
}

/// The most transactions that any node processed.
pub fn max_tx_count(counts: &[u64]) -> (max: u64)
    ensures
        max == max_of(counts@),
        forall|i: int| 0 <= i < counts@.len() ==> counts@[i] <= max,
        counts@.len() == 0 ==> max == 0,
        counts@.len() > 0 ==> exists|i: int| 0 <= i < counts@.len() && counts@[i] == max,
{
    let mut max: u64 = 0;
    let mut i: usize = 0;
    while i < counts.len()
        invariant
            i <= counts@.len(),
            max == max_of(counts@.take(i as int)),
        decreases counts@.len() - i,
    {
        assert(counts@.take(i + 1).drop_last() =~= counts@.take(i as int));
        if counts[i] > max {
            max = counts[i];
        }
        i = i + 1;
    }
    assert(counts@.take(i as int) =~= counts@);
    proof {
        lemma_max_of_bounds(counts@);
    }
    max
}

/// The mark printed beside a node that processed no transaction at all.
pub fn idle_node_flag(tx: u64) -> (flag: &'static str)
    ensures
        flag@ == (if tx == 0 {
            "!!!!!"@
        } else {
            ""@
        }),
{
    if tx == 0 {
        "!!!!!"
    } else {
        ""
    }
}

} // verus!
