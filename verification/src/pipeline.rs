//! Pipeline assembly.
//!
//! `prepare_run` is the single gate between configuration and work: it
//! validates the configuration and establishes the resource ceilings, and
//! only on success hands out a `RunPlan` with the per-chunk descriptors.
//! A configuration or resource-limiter failure therefore aborts before any
//! chunk file is written or any subprocess is spawned.
//!
//! `process_chunks` is the data path after the aligner: it classifies every
//! chunk's aligned records and merges the mapped outputs in ascending chunk
//! index. Its output is pinned to a function of the aligned record streams
//! alone, which is what makes a re-run on identical input byte-identical.

use vstd::prelude::*;

use crate::config::PipelineConfig;
use crate::config::ResourceLimits;
use crate::config::make_limits;
use crate::config::validate_config;
use crate::descriptor::ChunkDescriptor;
use crate::descriptor::derive_descriptors;
use crate::errors::ConfigError;
use crate::merge::mapped_views;
use crate::merge::merge_mapped;
use crate::worker::AlignedRecord;
use crate::worker::classify_records;
use crate::worker::is_mapped;
use crate::worker::is_unmapped;

verus! {

/// Everything a run needs before any worker is dispatched: the established
/// resource ceilings and one descriptor per chunk.
pub struct RunPlan {
    /// The resource ceilings applied to every aligner subprocess.
    pub limits: ResourceLimits,
    /// One descriptor per chunk, ascending by index.
    pub descriptors: Vec<ChunkDescriptor>,
}

/// Validates the configuration and establishes the resource ceilings, and
/// only then derives the per-chunk descriptors. Fails with the first
/// configuration error found; on failure there is no plan, so nothing is
/// partitioned and no subprocess is ever spawned under a bad configuration
/// or an unestablished resource ceiling.
pub fn prepare_run(
    config: &PipelineConfig,
    memory_ceiling_mib: u64,
    cpu_ceiling_seconds: Option<u64>,
) -> (result: Result<RunPlan, ConfigError>)
    ensures
        result is Ok <==> (config.valid() && memory_ceiling_mib >= 1 && (cpu_ceiling_seconds
            is Some ==> cpu_ceiling_seconds->Some_0 >= 1)),
        result is Ok ==> result->Ok_0.limits == (ResourceLimits {
            memory_ceiling_mib,
            cpu_ceiling_seconds,
        }) && result->Ok_0.limits.established(),
        result is Ok ==> result->Ok_0.descriptors@.len() == config.chunk_count && (forall|i: int|
            0 <= i < config.chunk_count ==> (#[trigger] result->Ok_0.descriptors@[i]).derived_from(
                *config,
                i,
            )) && (forall|i: int, j: int|
            0 <= i < j < config.chunk_count ==> (
            #[trigger] result->Ok_0.descriptors@[i]).input_path@ != (
            #[trigger] result->Ok_0.descriptors@[j]).input_path@
                && result->Ok_0.descriptors@[i].mapped_path@
                != result->Ok_0.descriptors@[j].mapped_path@
                && result->Ok_0.descriptors@[i].unmapped_path@
                != result->Ok_0.descriptors@[j].unmapped_path@),
        !config.valid() ==> result == Err::<RunPlan, ConfigError>(
            crate::config::spec_validate(*config)->Err_0,
        ),
        config.valid() && memory_ceiling_mib == 0 ==> result == Err::<RunPlan, ConfigError>(
            ConfigError::ZeroMemoryCeiling,
        ),
        config.valid() && memory_ceiling_mib >= 1 && cpu_ceiling_seconds == Some(0u64) ==> result
            == Err::<RunPlan, ConfigError>(ConfigError::ZeroCpuCeiling),
{
    match validate_config(config) {
        Err(error) => Err(error),
        Ok(()) => {
            match make_limits(memory_ceiling_mib, cpu_ceiling_seconds) {
                Err(error) => Err(error),
                Ok(limits) => {
                    let descriptors = derive_descriptors(config);
                    Ok(RunPlan { limits, descriptors })
                },
            }
        },
    }
}

/// The final mapped artifact as a function of the per-chunk aligned record
/// streams: each chunk's records classified, the mapped ones kept, and the
/// per-chunk results concatenated in ascending chunk index.
pub open spec fn pipeline_mapped_output(aligned: Seq<Seq<AlignedRecord>>) -> Seq<AlignedRecord> {
    aligned.map_values(
        |chunk: Seq<AlignedRecord>| chunk.filter(|record: AlignedRecord| is_mapped(record)),
    ).flatten()
}

/// Classifies every chunk's aligned records and merges the mapped outputs
/// in ascending chunk index. Returns the final mapped artifact and the
/// per-chunk unmapped outputs, which stay per chunk by design. The merged
/// artifact is exactly `pipeline_mapped_output` of the input.
#[verifier::loop_isolation(false)]
pub fn process_chunks(aligned_chunks: &Vec<Vec<AlignedRecord>>) -> (output: (
    Vec<AlignedRecord>,
    Vec<Vec<AlignedRecord>>,
))
    ensures
        output.0@ == pipeline_mapped_output(
            aligned_chunks@.map_values(|chunk: Vec<AlignedRecord>| chunk@),
        ),
        output.1@.len() == aligned_chunks@.len(),
        forall|i: int|
            0 <= i < aligned_chunks@.len() ==> (#[trigger] output.1@[i])@ == aligned_chunks@[i]@.filter(
                |record: AlignedRecord| is_unmapped(record),
            ),
{
    let mut mapped_outputs: Vec<Option<Vec<AlignedRecord>>> = Vec::new();
    let mut unmapped_outputs: Vec<Vec<AlignedRecord>> = Vec::new();
    let mut i: usize = 0;
    while i < aligned_chunks.len()
        invariant
            i <= aligned_chunks@.len(),
            mapped_outputs@.len() == i,
            unmapped_outputs@.len() == i,
            forall|j: int|
                0 <= j < i ==> (#[trigger] mapped_outputs@[j]) is Some
                    && mapped_outputs@[j]->Some_0@ == aligned_chunks@[j]@.filter(
                    |record: AlignedRecord| is_mapped(record),
                ),
            forall|j: int|
                0 <= j < i ==> (#[trigger] unmapped_outputs@[j])@ == aligned_chunks@[j]@.filter(
                    |record: AlignedRecord| is_unmapped(record),
                ),
        decreases aligned_chunks@.len() - i,
    {
        let (mapped, unmapped) = classify_records(&aligned_chunks[i]);
        mapped_outputs.push(Some(mapped));
        unmapped_outputs.push(unmapped);
        i = i + 1;
    }
    let merged = match merge_mapped(&mapped_outputs) {
        Ok(merged) => merged,
        Err(_) => {
            proof {
                assert(false);
            }
            // Unreachable: every per-chunk mapped output was just produced.
            Vec::new()
        },
    };
    proof {
        assert(mapped_views(mapped_outputs@) =~= aligned_chunks@.map_values(
            |chunk: Vec<AlignedRecord>| chunk@,
        ).map_values(
            |chunk: Seq<AlignedRecord>| chunk.filter(|record: AlignedRecord| is_mapped(record)),
        ));
    }
    (merged, unmapped_outputs)
}

/// Law: the orchestration is deterministic. The final mapped artifact is a
/// function of the per-chunk aligned record streams alone — never of
/// completion order, scheduling, or any other state — so re-running the
/// pipeline on identical input and configuration, with the external stages
/// behaving as functions of their inputs, produces an identical merged
/// artifact.
pub proof fn lemma_rerun_identical(first: Seq<Seq<AlignedRecord>>, second: Seq<Seq<AlignedRecord>>)
    requires
        first == second,
    ensures
        pipeline_mapped_output(first) == pipeline_mapped_output(second),
{
}

} // verus!
