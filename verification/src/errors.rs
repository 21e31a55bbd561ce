//! Error taxonomy: configuration errors abort before any work starts,
//! stage failures are scoped to one chunk, and a missing per-chunk output
//! at merge time is its own error, distinct from anything chunk-scoped.

use vstd::prelude::*;

verus! {

/// The stage of the pipeline at which a failure occurred.
#[derive(Clone, Copy, PartialEq, Eq, Structural, Debug)]
pub enum Stage {
    Partition,
    Align,
    Classify,
    Merge,
}

/// How a subprocess stage failed: it could not be started at all, or it
/// ran and exited with the given non-zero status.
#[derive(Clone, Copy, PartialEq, Eq, Structural, Debug)]
pub enum StageFailure {
    Spawn,
    Exit(i32),
}

/// A fatal configuration error: the pipeline aborts before any chunk file
/// is written or any subprocess is spawned.
#[derive(Clone, Copy, PartialEq, Eq, Structural, Debug)]
pub enum ConfigError {
    EmptyIndexPath,
    EmptyInputPath,
    EmptySummaryPath,
    EmptyUnmappedTemplate,
    EmptyMappedTemplate,
    ZeroThreads,
    ZeroChunks,
    ZeroLinesPerRecord,
    ZeroMemoryCeiling,
    ZeroCpuCeiling,
}

/// A failure of the merge step: the mapped output of the named chunk was
/// expected but missing when the merger ran.
#[derive(Clone, Copy, PartialEq, Eq, Structural, Debug)]
pub enum MergeError {
    MissingChunk(usize),
}

} // verus!
