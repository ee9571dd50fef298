//! The decisions of a task pool: ordering, scheduling, retrying, scaling and
//! dead-lettering, as plain values with verified contracts.
//!
//! The library holds no thread, no timer and no await. Each step of the pool
//! is a function from its state and an event to its next state and the action
//! to take; a runtime performs the action and hands back what came of it.

pub mod calls;
pub mod channel;
pub mod dead_letter;
pub mod flows;
pub mod identity;
pub mod laws;
pub mod life;
pub mod metrics;
pub mod pool;
pub mod queue;
pub mod scheduler;
pub mod time;
pub mod types;
pub mod values;
pub mod worker;

pub use crate::dead_letter::DeadLetterQueue;
pub use crate::metrics::{Metrics, MetricsCounters, MetricsSnapshot};
pub use crate::pool::{Pool, PoolSubmitter};
pub use crate::scheduler::Scheduler;
pub use crate::time::{Delay, Timestamp};
pub use crate::types::{
    DeadLetterEntry, JobResult, PoolConfig, Priority, RetryPolicy, ScheduleStrategy, SubmitError,
    Task, TaskReceipt,
};
