use vstd::prelude::*;

use crate::record::DurationRecord;

verus! {

/// The mathematical contents of a label/record entry list: the mapping that
/// takes each entry's label to its record, later entries winning (a
/// well-formed list never repeats a label, so no entry shadows another).
pub open spec fn map_of(entries: Seq<(String, DurationRecord)>) -> Map<Seq<char>, DurationRecord>
    decreases entries.len(),
{
    if entries.len() == 0 {
        Map::empty()
    } else {
        map_of(entries.drop_last()).insert(entries.last().0@, entries.last().1)
    }
}

/// No two entries carry the same label.
pub open spec fn labels_unique(entries: Seq<(String, DurationRecord)>) -> bool {
    forall|i: int, j: int| 0 <= i < j < entries.len() ==> entries[i].0@ != entries[j].0@
}

/// The record accumulated for a label: what the mapping holds, or the zero
/// record while the label has not been observed.
pub open spec fn rec_for(m: Map<Seq<char>, DurationRecord>, l: Seq<char>) -> DurationRecord {
    if m.contains_key(l) {
        m[l]
    } else {
        DurationRecord::zero()
    }
}

/// The mapping after one close event: only the named label's record changes,
/// to its previous value with the elapsed time folded in.
pub open spec fn after_close_event(
    m: Map<Seq<char>, DurationRecord>,
    l: Seq<char>,
    elapsed_nanos: u128,
) -> Map<Seq<char>, DurationRecord> {
    m.insert(l, rec_for(m, l).after_close(elapsed_nanos))
}

/// A label is in the mapping of an entry list exactly when some entry
/// carries it.
pub proof fn lemma_map_of_contains(entries: Seq<(String, DurationRecord)>, k: Seq<char>)
    ensures
        map_of(entries).contains_key(k) <==> exists|i: int|
            0 <= i < entries.len() && entries[i].0@ == k,
    decreases entries.len(),
{
    if entries.len() > 0 {
        let prefix = entries.drop_last();
        lemma_map_of_contains(prefix, k);
        if entries.last().0@ == k {
            assert(entries[entries.len() - 1].0@ == k);
        } else if exists|i: int| 0 <= i < prefix.len() && prefix[i].0@ == k {
            let i = choose|i: int| 0 <= i < prefix.len() && prefix[i].0@ == k;
            assert(entries[i].0@ == k);
        } else if exists|i: int| 0 <= i < entries.len() && entries[i].0@ == k {
            let i = choose|i: int| 0 <= i < entries.len() && entries[i].0@ == k;
            assert(prefix[i].0@ == k);
        }
    }
}

/// In a well-formed entry list, the mapping holds each entry's record under
/// that entry's label.
pub proof fn lemma_map_of_index(entries: Seq<(String, DurationRecord)>, i: int)
    requires
        labels_unique(entries),
        0 <= i < entries.len(),
    ensures
        map_of(entries).contains_key(entries[i].0@),
        map_of(entries)[entries[i].0@] == entries[i].1,
    decreases entries.len(),
{
    let prefix = entries.drop_last();
    if i < entries.len() - 1 {
        assert(labels_unique(prefix)) by {
            assert forall|x: int, y: int| 0 <= x < y < prefix.len() implies prefix[x].0@
                != prefix[y].0@ by {
                assert(entries[x].0@ != entries[y].0@);
            }
        }
        lemma_map_of_index(prefix, i);
        assert(entries[i].0@ != entries.last().0@);
    }
}

/// Replacing the record of one entry replaces exactly that label's value in
/// the mapping.
pub proof fn lemma_map_of_update(entries: Seq<(String, DurationRecord)>, i: int, r: DurationRecord)
    requires
        labels_unique(entries),
        0 <= i < entries.len(),
    ensures
        map_of(entries.update(i, (entries[i].0, r))) == map_of(entries).insert(entries[i].0@, r),
    decreases entries.len(),
{
    let k = entries[i].0@;
    let updated = entries.update(i, (entries[i].0, r));
    let prefix = entries.drop_last();
    if i == entries.len() - 1 {
        assert(updated.drop_last() =~= prefix);
        assert(map_of(updated) =~= map_of(entries).insert(k, r));
    } else {
        assert(labels_unique(prefix)) by {
            assert forall|x: int, y: int| 0 <= x < y < prefix.len() implies prefix[x].0@
                != prefix[y].0@ by {
                assert(entries[x].0@ != entries[y].0@);
            }
        }
        assert(updated.drop_last() =~= prefix.update(i, (entries[i].0, r)));
        lemma_map_of_update(prefix, i, r);
        assert(entries[i].0@ != entries.last().0@);
        assert(map_of(updated) =~= map_of(entries).insert(k, r));
    }
}

/// Appending an entry for a fresh label adds exactly that label to the
/// mapping.
pub proof fn lemma_map_of_push(
    entries: Seq<(String, DurationRecord)>,
    label: String,
    r: DurationRecord,
)
    ensures
        map_of(entries.push((label, r))) == map_of(entries).insert(label@, r),
{
    assert(entries.push((label, r)).drop_last() =~= entries);
}

} // verus!
