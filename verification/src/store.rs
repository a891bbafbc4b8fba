use vstd::prelude::*;

use std::time::Instant;

use crate::model::{
    after_close_event, labels_unique, lemma_map_of_contains, lemma_map_of_index,
    lemma_map_of_push, lemma_map_of_update, map_of,
};
use crate::record::DurationRecord;

verus! {

/// Declares `std::time::Instant` to the verifier as an opaque timestamp. The
/// aggregator only stores and copies window-start instants; it never looks
/// inside one.
#[verifier::external_type_specification]
#[verifier::external_body]
pub struct ExInstant(Instant);

/// Relies on `std::time::Instant::now`: a reading of the monotonic clock,
/// taken when an accumulation window begins.
#[verifier::external_body]
pub(crate) fn instant_now() -> Instant {
    Instant::now()
}

/// The contents of the aggregate store during one accumulation window, and
/// equally the value snapshot a controller takes of it: the instant the
/// window began, and one accumulated record per distinct label.
pub struct DurationData {
    /// When the current accumulation window began.
    pub start: Instant,
    /// One entry per distinct label observed since `start`.
    pub duration: Vec<(String, DurationRecord)>,
}

impl View for DurationData {
    type V = Map<Seq<char>, DurationRecord>;

    /// The mapping from label to its accumulated record.
    open spec fn view(&self) -> Map<Seq<char>, DurationRecord> {
        map_of(self.duration@)
    }
}

impl DurationData {
    /// Well-formed: no label occurs in two entries, so the entry list and the
    /// mapping hold exactly the same information.
    pub open spec fn wf(&self) -> bool {
        labels_unique(self.duration@)
    }

    /// An empty store whose window begins now.
    pub fn new() -> (d: DurationData)
        ensures
            d@ == Map::<Seq<char>, DurationRecord>::empty(),
            d.wf(),
    {
        DurationData { start: instant_now(), duration: Vec::new() }
    }

    /// The index of the entry carrying `label`, if one exists.
    fn find(&self, label: &String) -> (r: Option<usize>)
        ensures
            match r {
                Some(i) => i < self.duration@.len() && self.duration@[i as int].0@ == label@,
                None => forall|i: int|
                    0 <= i < self.duration@.len() ==> self.duration@[i].0@ != label@,
            },
    {
        let n = self.duration.len();
        let mut i: usize = 0;
        while i < n
            invariant
                n == self.duration@.len(),
                i <= n,
                forall|j: int| 0 <= j < i ==> self.duration@[j].0@ != label@,
            decreases n - i,
        {
            if self.duration[i].0 == *label {
                return Some(i);
            }
            i += 1;
        }
        None
    }

    /// Looks up or creates the record for `label` and folds one close event
    /// into it; every other label's record is left untouched, and the window
    /// start does not move.
    pub fn record_close(&mut self, label: String, elapsed_nanos: u128)
        requires
            old(self).wf(),
        ensures
            final(self).wf(),
            final(self)@ == after_close_event(old(self)@, label@, elapsed_nanos),
            final(self).start == old(self).start,
    {
        proof {
            lemma_map_of_contains(self.duration@, label@);
        }
        match self.find(&label) {
            Some(i) => {
                proof {
                    lemma_map_of_index(self.duration@, i as int);
                }
                let ghost entries = self.duration@;
                let mut rec = self.duration[i].1;
                rec.add_close(elapsed_nanos);
                self.duration[i].1 = rec;
                proof {
                    lemma_map_of_update(entries, i as int, rec);
                    assert(labels_unique(self.duration@)) by {
                        assert forall|x: int, y: int|
                            0 <= x < y < self.duration@.len() implies self.duration@[x].0@
                            != self.duration@[y].0@ by {
                            assert(entries[x].0@ != entries[y].0@);
                        }
                    }
                }
            },
            None => {
                let ghost entries = self.duration@;
                let mut rec = DurationRecord::default();
                rec.add_close(elapsed_nanos);
                proof {
                    lemma_map_of_push(entries, label, rec);
                }
                self.duration.push((label, rec));
                proof {
                    assert(labels_unique(self.duration@)) by {
                        assert forall|x: int, y: int|
                            0 <= x < y < self.duration@.len() implies self.duration@[x].0@
                            != self.duration@[y].0@ by {
                            if y < entries.len() {
                                assert(entries[x].0@ != entries[y].0@);
                            } else {
                                assert(entries[x].0@ != self.duration@[y].0@);
                            }
                        }
                    }
                }
            },
        }
    }

    /// The accumulated record for `label`, if any work unit with that label
    /// has closed during the current window.
    pub fn get(&self, label: &String) -> (r: Option<&DurationRecord>)
        requires
            self.wf(),
        ensures
            match r {
                Some(rec) => self@.contains_key(label@) && *rec == self@[label@],
                None => !self@.contains_key(label@),
            },
    {
        proof {
            lemma_map_of_contains(self.duration@, label@);
        }
        match self.find(label) {
            Some(i) => {
                proof {
                    lemma_map_of_index(self.duration@, i as int);
                }
                Some(&self.duration[i].1)
            },
            None => None,
        }
    }

    /// Whether no label has been observed in the current window.
    pub fn is_empty(&self) -> (r: bool)
        ensures
            r <==> self@ == Map::<Seq<char>, DurationRecord>::empty(),
    {
        proof {
            if self.duration@.len() > 0 {
                let k = self.duration@[0].0@;
                lemma_map_of_contains(self.duration@, k);
                assert(self@.contains_key(k)) by {
                    assert(0 <= 0 < self.duration@.len() && self.duration@[0].0@ == k);
                }
            }
        }
        self.duration.is_empty()
    }
}

impl Clone for DurationData {
    /// A full value copy: the same window start and the same entries, so the
    /// copy is unaffected by whatever happens to the live store afterwards.
    fn clone(&self) -> (d: Self)
        ensures
            d.start == self.start,
            d.duration@ == self.duration@,
            d@ == self@,
            d.wf() <==> self.wf(),
    {
        let n = self.duration.len();
        let mut entries: Vec<(String, DurationRecord)> = Vec::new();
        let mut i: usize = 0;
        while i < n
            invariant
                n == self.duration@.len(),
                i <= n,
                entries@ == self.duration@.take(i as int),
            decreases n - i,
        {
            let label = self.duration[i].0.clone();
            let rec = self.duration[i].1;
            entries.push((label, rec));
            proof {
                assert(entries@ =~= self.duration@.take(i as int + 1));
            }
            i += 1;
        }
        proof {
            assert(entries@ =~= self.duration@);
        }
        DurationData { start: self.start, duration: entries }
    }
}

} // verus!
