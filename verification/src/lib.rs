//! Local execution agent for a remote task-scheduling server.
//!
//! The agent polls the server for due executions on a fixed interval; for
//! each due execution it reports a "Started" status, materializes the task
//! payload as a script on disk, and runs it under a shell interpreter.
//! This crate holds the verified core: configuration resolution, the wire
//! formats, the path layout for materialized scripts, the decoding of the
//! due-executions response, and the per-execution lifecycle state machine.
//! The surrounding process (HTTP, timers, the filesystem, process
//! spawning) drives these functions from outside.

pub mod api;
pub mod fetch;
pub mod lifecycle;
pub mod paths;
pub mod poller;
pub mod settings;
pub mod wire;
