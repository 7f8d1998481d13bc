//! Resumable batch migration engine: checkpointed progress tracking with a
//! safe-resume-point computation, fixed-size batch planning over an ordered
//! record stream, and the bookkeeping a bounded-concurrency dispatcher needs
//! to keep a checkpoint consistent while batches complete out of order.

use vstd::prelude::*;

pub mod checkpoint;
pub mod collection_config;
pub mod config;
pub mod dispatcher;
pub mod elasticsearch;
pub mod models;
pub mod planner;

pub use checkpoint::MigrationCheckpoint;
pub use collection_config::{get_collection_config, CollectionConfig, ExtractedField, FieldType};
pub use config::AppConfig;
pub use dispatcher::BatchOutcome;
pub use planner::{plan_batches, Batch};

verus! {

} // verus!
