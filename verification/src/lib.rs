//! A verified core for an asynchronous document-conversion pipeline.
//!
//! Uploaded documents become jobs: each job is recorded in a keyed store,
//! its identifier waits in a FIFO queue, and a background worker claims one
//! identifier at a time, drives the job through the state machine
//! Queued -> Processing -> {Completed, Failed}, dispatches a per-format
//! parsing strategy over the outcomes of external converter invocations,
//! and attaches the result atomically with the transition into Completed.

pub mod codec;
pub mod document;
pub mod errors;
pub mod job;
pub mod job_queue;
pub mod parser;
pub mod render;
pub mod text;
pub mod worker;
