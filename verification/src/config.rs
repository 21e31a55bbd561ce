//! Pipeline configuration and resource-limit setup.
//!
//! A `PipelineConfig` is supplied once at startup and is immutable for the
//! run. Validation happens before any work: an invalid configuration (or an
//! invalid resource ceiling) is a fatal `ConfigError`, so no chunk file is
//! ever written and no subprocess is ever spawned on a bad configuration.

use vstd::prelude::*;

use crate::errors::ConfigError;

verus! {

/// The immutable per-run configuration: collaborator paths, thread count,
/// output path templates, chunk count, and the record shape of the input
/// (how many consecutive lines form one record).
pub struct PipelineConfig {
    /// Path of the alignment index the aligner runs against.
    pub index_path: String,
    /// Worker thread count handed to each external tool.
    pub threads: u64,
    /// Path of the aligner's summary artifact.
    pub summary_path: String,
    /// Path of the input sequence file.
    pub input_path: String,
    /// Template for per-chunk unmapped outputs; the chunk index is appended.
    pub unmapped_template: String,
    /// Template for per-chunk mapped outputs; the chunk index is appended.
    pub mapped_template: String,
    /// Number of chunks the input is partitioned into.
    pub chunk_count: usize,
    /// Number of consecutive lines that form one input record.
    pub lines_per_record: usize,
}

impl PipelineConfig {
    /// A configuration is valid when every path or template is non-empty
    /// and every count is at least one.
    pub open spec fn valid(self) -> bool {
        &&& self.index_path@.len() > 0
        &&& self.input_path@.len() > 0
        &&& self.summary_path@.len() > 0
        &&& self.unmapped_template@.len() > 0
        &&& self.mapped_template@.len() > 0
        &&& self.threads >= 1
        &&& self.chunk_count >= 1
        &&& self.lines_per_record >= 1
    }
}

/// The outcome of validation: `Ok` on a valid configuration, else the
/// first bad field in declaration order.
pub open spec fn spec_validate(config: PipelineConfig) -> Result<(), ConfigError> {
    if config.index_path@.len() == 0 {
        Err(ConfigError::EmptyIndexPath)
    } else if config.input_path@.len() == 0 {
        Err(ConfigError::EmptyInputPath)
    } else if config.summary_path@.len() == 0 {
        Err(ConfigError::EmptySummaryPath)
    } else if config.unmapped_template@.len() == 0 {
        Err(ConfigError::EmptyUnmappedTemplate)
    } else if config.mapped_template@.len() == 0 {
        Err(ConfigError::EmptyMappedTemplate)
    } else if config.threads == 0 {
        Err(ConfigError::ZeroThreads)
    } else if config.chunk_count == 0 {
        Err(ConfigError::ZeroChunks)
    } else if config.lines_per_record == 0 {
        Err(ConfigError::ZeroLinesPerRecord)
    } else {
        Ok(())
    }
}

/// Checks a configuration field by field and names the first field that is
/// bad; returns `Ok` exactly on valid configurations.
pub fn validate_config(config: &PipelineConfig) -> (result: Result<(), ConfigError>)
    ensures
        result == spec_validate(*config),
        result is Ok <==> config.valid(),
{
    if config.index_path.as_str().unicode_len() == 0 {
        Err(ConfigError::EmptyIndexPath)
    } else if config.input_path.as_str().unicode_len() == 0 {
        Err(ConfigError::EmptyInputPath)
    } else if config.summary_path.as_str().unicode_len() == 0 {
        Err(ConfigError::EmptySummaryPath)
    } else if config.unmapped_template.as_str().unicode_len() == 0 {
        Err(ConfigError::EmptyUnmappedTemplate)
    } else if config.mapped_template.as_str().unicode_len() == 0 {
        Err(ConfigError::EmptyMappedTemplate)
    } else if config.threads == 0 {
        Err(ConfigError::ZeroThreads)
    } else if config.chunk_count == 0 {
        Err(ConfigError::ZeroChunks)
    } else if config.lines_per_record == 0 {
        Err(ConfigError::ZeroLinesPerRecord)
    } else {
        Ok(())
    }
}

/// The resource ceiling applied to every aligner subprocess before it
/// starts. A value of zero would mean "unconstrained", which the pipeline
/// refuses as a fatal configuration error.
#[derive(Clone, Copy, PartialEq, Eq, Structural, Debug)]
pub struct ResourceLimits {
    /// Memory ceiling, in mebibytes. Always at least one.
    pub memory_ceiling_mib: u64,
    /// Optional CPU-seconds ceiling. When present, always at least one.
    pub cpu_ceiling_seconds: Option<u64>,
}

impl ResourceLimits {
    /// Ceilings are established: memory is bounded, and a CPU bound, if
    /// requested, is a real bound.
    pub open spec fn established(self) -> bool {
        &&& self.memory_ceiling_mib >= 1
        &&& match self.cpu_ceiling_seconds {
            Some(s) => s >= 1,
            None => true,
        }
    }
}

/// Establishes the resource ceilings for the run, or fails with a fatal
/// `ConfigError` when a ceiling is meaningless (zero). On failure the
/// pipeline must not spawn any subprocess.
pub fn make_limits(memory_ceiling_mib: u64, cpu_ceiling_seconds: Option<u64>) -> (result: Result<
    ResourceLimits,
    ConfigError,
>)
    ensures
        result is Ok <==> (memory_ceiling_mib >= 1 && (cpu_ceiling_seconds is Some
            ==> cpu_ceiling_seconds->Some_0 >= 1)),
        result is Ok ==> result->Ok_0 == (ResourceLimits {
            memory_ceiling_mib,
            cpu_ceiling_seconds,
        }),
        result is Ok ==> result->Ok_0.established(),
        result == Err::<ResourceLimits, ConfigError>(ConfigError::ZeroMemoryCeiling)
            <==> memory_ceiling_mib == 0,
        result == Err::<ResourceLimits, ConfigError>(ConfigError::ZeroCpuCeiling) <==> (
        memory_ceiling_mib >= 1 && cpu_ceiling_seconds == Some(0u64)),
{
    if memory_ceiling_mib == 0 {
        Err(ConfigError::ZeroMemoryCeiling)
    } else {
        match cpu_ceiling_seconds {
            Some(s) => {
                if s == 0 {
                    Err(ConfigError::ZeroCpuCeiling)
                } else {
                    Ok(ResourceLimits { memory_ceiling_mib, cpu_ceiling_seconds })
                }
            },
            None => Ok(ResourceLimits { memory_ceiling_mib, cpu_ceiling_seconds }),
        }
    }
}

} // verus!
