use vstd::prelude::*;

use crate::model::{after_close_event, rec_for};
use crate::record::DurationRecord;

verus! {

// A close event is the pair of the closed work unit's label and its measured
// elapsed time in nanoseconds. The store serializes all close events through
// one mutual-exclusion lock, so whatever threads they come from, the events
// that reached the store form one sequence, and the store's contents is the
// fold of that sequence; the laws below hold of every such sequence, hence of
// every interleaving.
/// The mapping after a whole sequence of close events, folded in order.
pub open spec fn after_close_events(
    m: Map<Seq<char>, DurationRecord>,
    evs: Seq<(Seq<char>, u128)>,
) -> Map<Seq<char>, DurationRecord>
    decreases evs.len(),
{
    if evs.len() == 0 {
        m
    } else {
        after_close_event(after_close_events(m, evs.drop_last()), evs.last().0, evs.last().1)
    }
}

/// How many events of the sequence close a work unit with the given label.
pub open spec fn count_for(evs: Seq<(Seq<char>, u128)>, l: Seq<char>) -> nat
    decreases evs.len(),
{
    if evs.len() == 0 {
        0
    } else {
        count_for(evs.drop_last(), l) + if evs.last().0 == l {
            1nat
        } else {
            0nat
        }
    }
}

/// The total elapsed time of the sequence's events with the given label.
pub open spec fn total_for(evs: Seq<(Seq<char>, u128)>, l: Seq<char>) -> int
    decreases evs.len(),
{
    if evs.len() == 0 {
        0
    } else {
        total_for(evs.drop_last(), l) + if evs.last().0 == l {
            evs.last().1 as int
        } else {
            0
        }
    }
}

/// The total elapsed time of all events of the sequence.
pub open spec fn total_elapsed(evs: Seq<(Seq<char>, u128)>) -> int
    decreases evs.len(),
{
    if evs.len() == 0 {
        0
    } else {
        total_elapsed(evs.drop_last()) + evs.last().1 as int
    }
}

/// Accumulation law: however events for other labels are interleaved with a
/// label's own, folding a sequence of close events into a store raises that
/// label's count by exactly the number of its events and its duration by
/// exactly their summed elapsed time — as long as neither total reaches its
/// saturation cap.
pub proof fn lemma_accumulation(
    m: Map<Seq<char>, DurationRecord>,
    evs: Seq<(Seq<char>, u128)>,
    l: Seq<char>,
)
    requires
        rec_for(m, l).count + count_for(evs, l) <= usize::MAX,
        rec_for(m, l).duration + total_for(evs, l) <= u128::MAX,
    ensures
        rec_for(after_close_events(m, evs), l).count == rec_for(m, l).count + count_for(evs, l),
        rec_for(after_close_events(m, evs), l).duration == rec_for(m, l).duration + total_for(
            evs,
            l,
        ),
        after_close_events(m, evs).contains_key(l) <==> m.contains_key(l) || count_for(evs, l) > 0,
    decreases evs.len(),
{
    if evs.len() > 0 {
        let prefix = evs.drop_last();
        lemma_total_for_nonnegative(prefix, l);
        lemma_accumulation(m, prefix, l);
    }
}

/// Every label's elapsed-time total over a sequence of events is
/// non-negative.
pub proof fn lemma_total_for_nonnegative(evs: Seq<(Seq<char>, u128)>, l: Seq<char>)
    ensures
        total_for(evs, l) >= 0,
    decreases evs.len(),
{
    if evs.len() > 0 {
        lemma_total_for_nonnegative(evs.drop_last(), l);
    }
}

/// Starting from an empty store, a label's record after any sequence of
/// complete start/close pairs holds exactly the number of its pairs and the
/// exact sum of their elapsed times — never a count from one set of events
/// and a duration from another.
pub proof fn lemma_counts_from_empty(evs: Seq<(Seq<char>, u128)>, l: Seq<char>)
    requires
        count_for(evs, l) <= usize::MAX,
        total_for(evs, l) <= u128::MAX,
    ensures
        rec_for(after_close_events(Map::empty(), evs), l).count == count_for(evs, l),
        rec_for(after_close_events(Map::empty(), evs), l).duration == total_for(evs, l),
        after_close_events(Map::empty(), evs).contains_key(l) <==> count_for(evs, l) > 0,
{
    lemma_accumulation(Map::empty(), evs, l);
}

/// Independence law: a sequence of close events none of which names a label
/// leaves that label's record exactly as it was, under any interleaving — no
/// update to one label ever disturbs, or is lost to, another.
pub proof fn lemma_untouched_label(
    m: Map<Seq<char>, DurationRecord>,
    evs: Seq<(Seq<char>, u128)>,
    l: Seq<char>,
)
    requires
        count_for(evs, l) == 0,
    ensures
        after_close_events(m, evs).contains_key(l) <==> m.contains_key(l),
        rec_for(after_close_events(m, evs), l) == rec_for(m, l),
    decreases evs.len(),
{
    if evs.len() > 0 {
        lemma_untouched_label(m, evs.drop_last(), l);
    }
}

/// A label's event count over concatenated sequences is the sum of its
/// counts over the parts.
pub proof fn lemma_count_for_concat(
    first: Seq<(Seq<char>, u128)>,
    second: Seq<(Seq<char>, u128)>,
    l: Seq<char>,
)
    ensures
        count_for(first + second, l) == count_for(first, l) + count_for(second, l),
    decreases second.len(),
{
    if second.len() == 0 {
        assert(first + second =~= first);
    } else {
        lemma_count_for_concat(first, second.drop_last(), l);
        assert((first + second).drop_last() =~= first + second.drop_last());
        assert((first + second).last() == second.last());
    }
}

/// A label's elapsed total over concatenated sequences is the sum of its
/// totals over the parts.
pub proof fn lemma_total_for_concat(
    first: Seq<(Seq<char>, u128)>,
    second: Seq<(Seq<char>, u128)>,
    l: Seq<char>,
)
    ensures
        total_for(first + second, l) == total_for(first, l) + total_for(second, l),
    decreases second.len(),
{
    if second.len() == 0 {
        assert(first + second =~= first);
    } else {
        lemma_total_for_concat(first, second.drop_last(), l);
        assert((first + second).drop_last() =~= first + second.drop_last());
        assert((first + second).last() == second.last());
    }
}

/// Drain law: when a reset falls between two batches of close events, each
/// label's count and duration split exactly between the returned snapshot
/// (the fold of the first batch) and the new window (the fold of the second):
/// together they account for every event once — no event is lost to the swap
/// and none lands on both sides.
pub proof fn lemma_reset_splits_events(
    evs_before: Seq<(Seq<char>, u128)>,
    evs_after: Seq<(Seq<char>, u128)>,
    l: Seq<char>,
)
    requires
        count_for(evs_before, l) <= usize::MAX,
        total_for(evs_before, l) <= u128::MAX,
        count_for(evs_after, l) <= usize::MAX,
        total_for(evs_after, l) <= u128::MAX,
    ensures
        rec_for(after_close_events(Map::empty(), evs_before), l).count + rec_for(
            after_close_events(Map::empty(), evs_after),
            l,
        ).count == count_for(evs_before + evs_after, l),
        rec_for(after_close_events(Map::empty(), evs_before), l).duration + rec_for(
            after_close_events(Map::empty(), evs_after),
            l,
        ).duration == total_for(evs_before + evs_after, l),
{
    lemma_counts_from_empty(evs_before, l);
    lemma_counts_from_empty(evs_after, l);
    lemma_count_for_concat(evs_before, evs_after, l);
    lemma_total_for_concat(evs_before, evs_after, l);
}

/// Same-label law: when every event of the sequence closes the same label —
/// concurrent pairs serialized in whatever order the lock admitted — the
/// label's count rises by the number of events and its duration by the total
/// of all their elapsed times.
pub proof fn lemma_same_label_accumulation(
    m: Map<Seq<char>, DurationRecord>,
    evs: Seq<(Seq<char>, u128)>,
    l: Seq<char>,
)
    requires
        forall|i: int| 0 <= i < evs.len() ==> evs[i].0 == l,
        rec_for(m, l).count + evs.len() <= usize::MAX,
        rec_for(m, l).duration + total_elapsed(evs) <= u128::MAX,
    ensures
        rec_for(after_close_events(m, evs), l).count == rec_for(m, l).count + evs.len(),
        rec_for(after_close_events(m, evs), l).duration == rec_for(m, l).duration + total_elapsed(
            evs,
        ),
{
    lemma_all_same_label(evs, l);
    lemma_accumulation(m, evs, l);
}

/// When every event carries the label, the label's event count is the
/// sequence's length and its elapsed total is the whole sequence's total.
pub proof fn lemma_all_same_label(evs: Seq<(Seq<char>, u128)>, l: Seq<char>)
    requires
        forall|i: int| 0 <= i < evs.len() ==> evs[i].0 == l,
    ensures
        count_for(evs, l) == evs.len(),
        total_for(evs, l) == total_elapsed(evs),
    decreases evs.len(),
{
    if evs.len() > 0 {
        let prefix = evs.drop_last();
        assert(forall|i: int| 0 <= i < prefix.len() ==> prefix[i].0 == l) by {
            assert(forall|i: int| 0 <= i < prefix.len() ==> prefix[i] == evs[i]);
        }
        lemma_all_same_label(prefix, l);
        assert(evs[evs.len() - 1].0 == l);
    }
}

} // verus!
