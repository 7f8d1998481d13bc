//! Run configuration: one immutable value, constructed at startup and
//! passed by reference to whoever needs it — no ambient global state.

use vstd::prelude::*;

verus! {

/// Everything one migration run is configured with.
pub struct AppConfig {
    /// Path of the tabular source file.
    pub csv_file: String,
    /// Base URL of the remote document store.
    pub elasticsearch_url: String,
    /// Name of the target index.
    pub elasticsearch_index: String,
    /// Records per batch.
    pub batch_size: usize,
    /// Bound on concurrently in-flight submissions.
    pub workers: usize,
    /// Timeout of one submission call, in seconds.
    pub timeout_secs: u64,
}

} // verus!
