//! Chunk descriptors.
//!
//! Each chunk's input and output paths are derived deterministically from
//! the configuration and the chunk index: a template with the decimal chunk
//! index appended. Descriptors are created before dispatch and never
//! mutated; distinct chunks get distinct paths, so no two workers ever
//! write to the same file.

use vstd::prelude::*;

use vstd::string::StringExecFns;

use crate::config::PipelineConfig;
use crate::decimal::decimal_digits;
use crate::decimal::lemma_decimal_injective;
use crate::decimal::render_decimal;

verus! {

/// The path derived for a chunk: the template with the decimal chunk index
/// appended.
pub open spec fn derived_path(template: Seq<char>, index: nat) -> Seq<char> {
    template + decimal_digits(index)
}

/// Appending distinct indices to one template yields distinct paths.
pub proof fn lemma_derived_paths_injective(template: Seq<char>, a: nat, b: nat)
    requires
        derived_path(template, a) == derived_path(template, b),
    ensures
        a == b,
{
    let da = decimal_digits(a);
    let db = decimal_digits(b);
    assert(da =~= (template + da).subrange(
        template.len() as int,
        (template + da).len() as int,
    ));
    assert(db =~= (template + db).subrange(
        template.len() as int,
        (template + db).len() as int,
    ));
    lemma_decimal_injective(a, b);
}

/// Derives one per-chunk path: the template with the index appended.
pub fn derive_path(template: &String, index: u64) -> (path: String)
    ensures
        path@ == derived_path(template@, index as nat),
{
    let digits = render_decimal(index);
    let mut path = template.clone();
    path.append(digits.as_str());
    path
}

/// What one chunk worker needs to know: its index and the three paths it
/// owns exclusively.
pub struct ChunkDescriptor {
    /// Index of the chunk, in `0..chunk_count`.
    pub index: usize,
    /// Path of the chunk's input file, written by the partitioner.
    pub input_path: String,
    /// Path of the chunk's mapped output, written by the classifier.
    pub mapped_path: String,
    /// Path of the chunk's unmapped output, written by the classifier.
    pub unmapped_path: String,
    /// Path of the chunk's alignment summary, written by the aligner.
    pub summary_path: String,
}

impl ChunkDescriptor {
    /// The descriptor of chunk `index` is derived from the configuration
    /// alone.
    pub open spec fn derived_from(self, config: PipelineConfig, index: int) -> bool {
        &&& self.index == index
        &&& self.input_path@ == derived_path(config.input_path@, index as nat)
        &&& self.mapped_path@ == derived_path(config.mapped_template@, index as nat)
        &&& self.unmapped_path@ == derived_path(config.unmapped_template@, index as nat)
        &&& self.summary_path@ == derived_path(config.summary_path@, index as nat)
    }
}

/// Creates the descriptors of all chunks, one per index in ascending order.
/// Every path is the matching template with the chunk index appended, so
/// paths of distinct chunks never collide — no two workers share an output
/// file during the fan-out phase — and with a valid configuration no
/// derived path is empty.
pub fn derive_descriptors(config: &PipelineConfig) -> (descriptors: Vec<ChunkDescriptor>)
    ensures
        descriptors@.len() == config.chunk_count,
        forall|i: int|
            0 <= i < config.chunk_count ==> (#[trigger] descriptors@[i]).derived_from(*config, i),
        forall|i: int, j: int|
            0 <= i < j < config.chunk_count ==> (#[trigger] descriptors@[i]).input_path@ != (
            #[trigger] descriptors@[j]).input_path@ && descriptors@[i].mapped_path@
                != descriptors@[j].mapped_path@ && descriptors@[i].unmapped_path@
                != descriptors@[j].unmapped_path@ && descriptors@[i].summary_path@
                != descriptors@[j].summary_path@,
        config.valid() ==> forall|i: int|
            0 <= i < config.chunk_count ==> (#[trigger] descriptors@[i]).input_path@.len() > 0
                && descriptors@[i].mapped_path@.len() > 0 && descriptors@[i].unmapped_path@.len()
                > 0 && descriptors@[i].summary_path@.len() > 0,
{
    let mut descriptors: Vec<ChunkDescriptor> = Vec::new();
    let mut i: usize = 0;
    while i < config.chunk_count
        invariant
            i <= config.chunk_count,
            descriptors@.len() == i,
            forall|j: int|
                0 <= j < i ==> (#[trigger] descriptors@[j]).derived_from(*config, j),
        decreases config.chunk_count - i,
    {
        let descriptor = ChunkDescriptor {
            index: i,
            input_path: derive_path(&config.input_path, i as u64),
            mapped_path: derive_path(&config.mapped_template, i as u64),
            unmapped_path: derive_path(&config.unmapped_template, i as u64),
            summary_path: derive_path(&config.summary_path, i as u64),
        };
        descriptors.push(descriptor);
        i = i + 1;
    }
    proof {
        assert forall|a: int, b: int| 0 <= a < b < config.chunk_count implies (
        #[trigger] descriptors@[a]).input_path@ != (#[trigger] descriptors@[b]).input_path@
            && descriptors@[a].mapped_path@ != descriptors@[b].mapped_path@
            && descriptors@[a].unmapped_path@ != descriptors@[b].unmapped_path@
            && descriptors@[a].summary_path@ != descriptors@[b].summary_path@ by {
            if descriptors@[a].input_path@ == descriptors@[b].input_path@ {
                lemma_derived_paths_injective(config.input_path@, a as nat, b as nat);
            }
            if descriptors@[a].mapped_path@ == descriptors@[b].mapped_path@ {
                lemma_derived_paths_injective(config.mapped_template@, a as nat, b as nat);
            }
            if descriptors@[a].unmapped_path@ == descriptors@[b].unmapped_path@ {
                lemma_derived_paths_injective(config.unmapped_template@, a as nat, b as nat);
            }
            if descriptors@[a].summary_path@ == descriptors@[b].summary_path@ {
                lemma_derived_paths_injective(config.summary_path@, a as nat, b as nat);
            }
        }
    }
    descriptors
}

} // verus!
