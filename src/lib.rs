//! A concurrent fetch pipeline: a dispatcher deals work items round-robin to a
//! fixed pool of worker queues, each worker fetches and decodes its items, and
//! every queue ends with exactly one shutdown message.
//!
//! The decisions of each component are verified state machines; the runtime
//! that moves messages and performs network requests drives them from outside.
pub mod message;
pub mod dispatch;
pub mod worker;
pub mod fetch;
pub mod coordinator;

pub use message::WorkOrShutdown;
pub use dispatch::{queue_for, Delivery, DispatchError, Dispatcher};
pub use worker::{Tally, Worker, WorkerAction, WorkerState};
pub use fetch::{check_target, complete_fetch, decode_payload, FetchError, CARD_LEN};
pub use coordinator::{finish, ConfigError, PipelineConfig, PipelineError, Summary};
