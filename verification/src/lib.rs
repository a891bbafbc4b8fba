//! Duration aggregation for span-based instrumentation.
//!
//! For every distinct work-unit label the library accumulates the total
//! elapsed time and the number of completed work units, behind a verified
//! reader-writer lock. A hook records close events into the shared store;
//! a cloneable controller takes consistent snapshots and drains the store.

pub mod laws;
pub mod layer;
pub mod model;
pub mod record;
pub mod store;

pub use layer::DurationLayer;
pub use layer::DurationLayerContoller;
pub use record::DurationRecord;
pub use store::DurationData;
