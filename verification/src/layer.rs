use vstd::prelude::*;

use std::sync::Arc;

use vstd::rwlock::{RwLock, RwLockPredicate};

use crate::store::DurationData;

verus! {

/// The lock invariant of the live store: every value the lock ever holds is
/// a well-formed store, so no reader can see a label twice.
pub struct StorePred {}

impl RwLockPredicate<DurationData> for StorePred {
    open spec fn inv(self, v: DurationData) -> bool {
        v.wf()
    }
}

/// The lifecycle hook: one owner of the shared live store. An adapter around
/// it is registered with the external instrumentation framework, which calls
/// [`DurationLayer::record_close`] once per completed work unit; a
/// [`DurationLayerContoller`] made by [`DurationLayer::controller`] reads and
/// drains the same store for as long as it likes.
pub struct DurationLayer {
    inner: Arc<RwLock<DurationData, StorePred>>,
}

/// A cloneable handle for whoever wants visibility into the aggregator: it
/// shares the live store with the layer it came from and outlives it freely.
pub struct DurationLayerContoller {
    inner: Arc<RwLock<DurationData, StorePred>>,
}

/// Relies on `std::sync::Arc::clone`: the clone is a second handle to the
/// same allocation, so it carries the same value.
#[verifier::external_body]
fn clone_store_handle(h: &Arc<RwLock<DurationData, StorePred>>) -> (r: Arc<
    RwLock<DurationData, StorePred>,
>)
    ensures
        r == *h,
{
    Arc::clone(h)
}

impl DurationLayer {
    /// The shared store this layer writes to.
    pub closed spec fn store(&self) -> RwLock<DurationData, StorePred> {
        *self.inner
    }

    /// A connected hook/store pair: the store starts empty, with a fresh
    /// accumulation window beginning now.
    pub fn new() -> DurationLayer {
        DurationLayer {
            inner: Arc::new(RwLock::new(DurationData::new(), Ghost(StorePred {}))),
        }
    }

    /// A controller wired to the same live store as this layer, to be kept by
    /// whoever wants to read or reset the aggregate.
    pub fn controller(&self) -> (c: DurationLayerContoller)
        ensures
            c.store() == self.store(),
    {
        DurationLayerContoller { inner: clone_store_handle(&self.inner) }
    }

    /// Folds one completed work unit into the live store: the close hook of
    /// the external framework hands in the work unit's label and measured
    /// elapsed time, and the record for that label alone is updated, in one
    /// critical section.
    pub fn record_close(&self, label: String, elapsed_nanos: u128) {
        let (mut data, handle) = self.inner.acquire_write();
        data.record_close(label, elapsed_nanos);
        handle.release_write(data);
    }
}

impl DurationLayerContoller {
    /// The shared store this controller reads.
    pub closed spec fn store(&self) -> RwLock<DurationData, StorePred> {
        *self.inner
    }

    /// A consistent point-in-time value copy of the live store, read in one
    /// critical section and unaffected by later mutation.
    pub fn current(&self) -> (d: DurationData)
        ensures
            d.wf(),
    {
        let handle = self.inner.acquire_read();
        let d = handle.borrow().clone();
        handle.release_read();
        d
    }

    /// Atomically exchanges the live store for a fresh empty one whose window
    /// begins now, and returns the previous contents: an update racing with
    /// the swap lands either in the returned snapshot or in the new window,
    /// never both and never neither.
    pub fn reset(&self) -> (d: DurationData)
        ensures
            d.wf(),
    {
        let (prev, handle) = self.inner.acquire_write();
        handle.release_write(DurationData::new());
        prev
    }
}

impl Clone for DurationLayerContoller {
    /// A second controller handle to the same live store.
    fn clone(&self) -> (c: Self)
        ensures
            c.store() == self.store(),
    {
        DurationLayerContoller { inner: clone_store_handle(&self.inner) }
    }
}

} // verus!
