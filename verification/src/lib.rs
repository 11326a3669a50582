//! Core of an experiment coordination service: the experiment data model,
//! the status state machine with its timestamp bookkeeping, the assignment
//! scheduler, and progress accounting derived from per-crate results.
//!
//! The persistent store is modelled by [`store::Store`], an in-memory
//! relational state over which every scheduling decision is verified.

pub mod assignee;
pub mod clock;
pub mod codec;
pub mod error;
pub mod laws;
pub mod progress;
pub mod record;
pub mod scheduler;
pub mod store;
pub mod strutil;
pub mod types;
