//! Chunked fork-join orchestration for a two-stage read-mapping pipeline.
//!
//! The input record stream is partitioned into chunks; each chunk runs an
//! alignment stage and then a classification stage; a scheduler joins all
//! chunk workers and reports per-chunk outcomes; the per-chunk mapped
//! outputs are merged in ascending chunk-index order.

pub mod command;
pub mod config;
pub mod decimal;
pub mod descriptor;
pub mod errors;
pub mod merge;
pub mod partition;
pub mod pipeline;
pub mod schedule;
pub mod worker;
