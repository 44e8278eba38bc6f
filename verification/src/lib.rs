//! Core of a small distributed job scheduler: the coordinator's in-memory
//! queue, its dispatch and retry rules, worker liveness, recurring schedules,
//! the encoding of jobs at rest, and the decisions behind each request.

pub mod api;
pub mod durable;
pub mod instant;
pub mod invariants;
pub mod ident;
pub mod job;
pub mod message;
pub mod model;
pub mod queue;
pub mod recovery;
pub mod schedule;
pub mod store;
