//! A single-worker background task scheduler: a lifecycle state machine for
//! tasks, a registry that merges externally defined tasks without duplicates,
//! priority-ordered selection with bounded progress, and the decision logic of
//! a watcher that detects changes to the task-definition source.
pub mod ident;
pub mod status;
pub mod task;
pub mod registry;
pub mod scheduler;
pub mod watcher;
