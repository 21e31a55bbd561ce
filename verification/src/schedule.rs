//! Parallel scheduler: the join barrier and the final report.
//!
//! One worker runs per chunk; their results may arrive in any order. After
//! the join barrier the scheduler holds exactly one `ChunkResult` per chunk
//! index and builds the final report: whether every chunk succeeded, and an
//! explicit enumeration, in ascending chunk index, of every failed chunk
//! with its failing stage. The report is a function of the set of results
//! alone, never of the order in which workers completed.

use vstd::prelude::*;

use vstd::seq_lib::group_to_multiset_ensures;

use crate::descriptor::ChunkDescriptor;
use crate::worker::ChunkOutcome;
use crate::worker::ChunkResult;

verus! {

/// Some result in `results` carries chunk index `i`.
pub open spec fn has_result_for(results: Seq<ChunkResult>, i: int) -> bool {
    exists|j: int| 0 <= j < results.len() && (#[trigger] results[j]).index == i
}

/// What the join barrier guarantees: one result was observed for every
/// chunk index, no index twice, and no index out of range.
pub open spec fn complete_results(results: Seq<ChunkResult>, chunk_count: int) -> bool {
    &&& results.len() == chunk_count
    &&& forall|j1: int, j2: int|
        0 <= j1 < j2 < results.len() ==> (#[trigger] results[j1]).index != (
        #[trigger] results[j2]).index
    &&& forall|i: int| 0 <= i < chunk_count ==> has_result_for(results, i)
}

/// The outcome reported for chunk `i`: the outcome of the unique result
/// that carries index `i`.
pub open spec fn outcome_of(results: Seq<ChunkResult>, i: int) -> ChunkOutcome {
    results[choose|j: int| 0 <= j < results.len() && (#[trigger] results[j]).index == i].outcome
}

/// The failed chunks among indices `0..bound`, in ascending index order,
/// each with its outcome (the failing stage and how it failed).
pub open spec fn failed_chunks(results: Seq<ChunkResult>, bound: int) -> Seq<ChunkResult>
    decreases bound,
{
    if bound <= 0 {
        Seq::empty()
    } else {
        let prefix = failed_chunks(results, bound - 1);
        if outcome_of(results, bound - 1) is Failed {
            prefix.push(ChunkResult { index: (bound - 1) as usize, outcome: outcome_of(results, bound - 1) })
        } else {
            prefix
        }
    }
}

/// The final report of a run: the chunk count, every failed chunk with its
/// failing stage in ascending index order, and whether all chunks
/// succeeded.
pub struct RunReport {
    /// How many chunks the run dispatched.
    pub chunk_count: usize,
    /// The failed chunks, ascending by index, each naming its stage.
    pub failed: Vec<ChunkResult>,
    /// True exactly when no chunk failed.
    pub all_succeeded: bool,
}

/// If no chunk in `0..bound` failed, the failed enumeration is empty; if
/// any failed, it is not.
pub proof fn lemma_failed_chunks_empty(results: Seq<ChunkResult>, bound: int)
    ensures
        failed_chunks(results, bound).len() == 0 <==> (forall|i: int|
            0 <= i < bound ==> !(#[trigger] outcome_of(results, i) is Failed)),
    decreases bound,
{
    if bound > 0 {
        lemma_failed_chunks_empty(results, bound - 1);
    }
}

/// Finds the unique result for chunk `i` after the barrier.
fn find_result(results: &Vec<ChunkResult>, i: usize, Ghost(chunk_count): Ghost<int>) -> (found:
    ChunkResult)
    requires
        complete_results(results@, chunk_count),
        0 <= i < chunk_count,
    ensures
        found.index == i,
        found.outcome == outcome_of(results@, i as int),
{
    let mut j: usize = 0;
    while j < results.len()
        invariant
            complete_results(results@, chunk_count),
            0 <= i < chunk_count,
            j <= results@.len(),
            forall|jj: int| 0 <= jj < j ==> (#[trigger] results@[jj]).index != i,
        decreases results@.len() - j,
    {
        let candidate = results[j];
        if candidate.index == i {
            proof {
                let picked = choose|jj: int|
                    0 <= jj < results@.len() && (#[trigger] results@[jj]).index == i as int;
                assert(results@[picked].index == i as int);
                assert(picked == j as int);
            }
            return candidate;
        }
        j = j + 1;
    }
    proof {
        assert(has_result_for(results@, i as int));
        assert(false);
    }
    // Unreachable: the barrier guarantees a result for every chunk index.
    ChunkResult { index: i, outcome: ChunkOutcome::Success }
}

/// Builds the final report from the results observed at the join barrier:
/// `all_succeeded` holds exactly when every chunk succeeded, and `failed`
/// enumerates every failed chunk in ascending index order with its failing
/// stage. Results may have arrived in any completion order.
#[verifier::loop_isolation(false)]
pub fn summarize(results: &Vec<ChunkResult>, chunk_count: usize) -> (report: RunReport)
    requires
        complete_results(results@, chunk_count as int),
    ensures
        report.chunk_count == chunk_count,
        report.failed@ == failed_chunks(results@, chunk_count as int),
        report.all_succeeded <==> (forall|i: int|
            0 <= i < chunk_count ==> #[trigger] outcome_of(results@, i) == ChunkOutcome::Success),
{
    let mut failed: Vec<ChunkResult> = Vec::new();
    let mut all_succeeded: bool = true;
    let mut i: usize = 0;
    while i < chunk_count
        invariant
            i <= chunk_count,
            failed@ == failed_chunks(results@, i as int),
            all_succeeded <==> (forall|ii: int|
                0 <= ii < i ==> #[trigger] outcome_of(results@, ii) == ChunkOutcome::Success),
        decreases chunk_count - i,
    {
        let found = find_result(results, i, Ghost(chunk_count as int));
        match found.outcome {
            ChunkOutcome::Success => {},
            ChunkOutcome::Failed { .. } => {
                failed.push(found);
                all_succeeded = false;
            },
        }
        i = i + 1;
    }
    RunReport { chunk_count, failed, all_succeeded }
}

/// The mapped-output paths of the chunks that succeeded, ascending by
/// chunk index.
pub open spec fn successful_mapped_views(
    descriptors: Seq<ChunkDescriptor>,
    results: Seq<ChunkResult>,
    bound: int,
) -> Seq<Seq<char>>
    decreases bound,
{
    if bound <= 0 {
        Seq::empty()
    } else {
        let prefix = successful_mapped_views(descriptors, results, bound - 1);
        if outcome_of(results, bound - 1) == ChunkOutcome::Success {
            prefix.push(descriptors[bound - 1].mapped_path@)
        } else {
            prefix
        }
    }
}

/// Run-to-completion merge policy: after the barrier, the merger consumes
/// the mapped outputs of exactly the confirmed-successful chunks, in
/// ascending chunk-index order, whatever order the chunks completed in.
#[verifier::loop_isolation(false)]
pub fn successful_mapped_paths(
    descriptors: &Vec<ChunkDescriptor>,
    results: &Vec<ChunkResult>,
    chunk_count: usize,
) -> (paths: Vec<String>)
    requires
        complete_results(results@, chunk_count as int),
        descriptors@.len() == chunk_count,
    ensures
        paths@.map_values(|path: String| path@) == successful_mapped_views(
            descriptors@,
            results@,
            chunk_count as int,
        ),
{
    let mut paths: Vec<String> = Vec::new();
    let mut i: usize = 0;
    proof {
        assert(paths@.map_values(|path: String| path@) =~= successful_mapped_views(
            descriptors@,
            results@,
            0,
        ));
    }
    while i < chunk_count
        invariant
            i <= chunk_count,
            paths@.map_values(|path: String| path@) == successful_mapped_views(
                descriptors@,
                results@,
                i as int,
            ),
        decreases chunk_count - i,
    {
        let found = find_result(results, i, Ghost(chunk_count as int));
        match found.outcome {
            ChunkOutcome::Success => {
                paths.push(descriptors[i].mapped_path.clone());
                proof {
                    assert(paths@.map_values(|path: String| path@) =~= successful_mapped_views(
                        descriptors@,
                        results@,
                        i as int + 1,
                    ));
                }
            },
            ChunkOutcome::Failed { .. } => {},
        }
        i = i + 1;
    }
    paths
}

/// Law: the report does not depend on completion order. Two observed
/// result sequences that hold the same results (as a multiset, so in any
/// order) give every chunk the same outcome and enumerate the same failed
/// chunks.
pub proof fn lemma_report_order_independent(
    first: Seq<ChunkResult>,
    second: Seq<ChunkResult>,
    chunk_count: int,
)
    requires
        complete_results(first, chunk_count),
        complete_results(second, chunk_count),
        first.to_multiset() == second.to_multiset(),
    ensures
        forall|i: int|
            0 <= i < chunk_count ==> #[trigger] outcome_of(first, i) == outcome_of(second, i),
        failed_chunks(first, chunk_count) == failed_chunks(second, chunk_count),
{
    broadcast use group_to_multiset_ensures;

    assert forall|i: int| 0 <= i < chunk_count implies #[trigger] outcome_of(first, i)
        == outcome_of(second, i) by {
        assert(has_result_for(first, i));
        assert(has_result_for(second, i));
        let j1 = choose|j: int| 0 <= j < first.len() && (#[trigger] first[j]).index == i;
        assert(first[j1].index == i);
        assert(first.contains(first[j1]));
        assert(first.to_multiset().count(first[j1]) > 0);
        assert(second.to_multiset().count(first[j1]) > 0);
        assert(second.contains(first[j1]));
        let j2 = choose|j: int| 0 <= j < second.len() && second[j] == first[j1];
        let j2p = choose|j: int| 0 <= j < second.len() && (#[trigger] second[j]).index == i;
        assert(second[j2p].index == i);
        assert(second[j2].index == i);
        assert(j2 == j2p);
    }
    lemma_failed_chunks_agree(first, second, chunk_count);
}

/// Two result sequences that give every chunk the same outcome enumerate
/// the same failed chunks.
proof fn lemma_failed_chunks_agree(first: Seq<ChunkResult>, second: Seq<ChunkResult>, bound: int)
    requires
        forall|i: int| 0 <= i < bound ==> #[trigger] outcome_of(first, i) == outcome_of(second, i),
    ensures
        failed_chunks(first, bound) == failed_chunks(second, bound),
    decreases bound,
{
    if bound > 0 {
        lemma_failed_chunks_agree(first, second, bound - 1);
    }
}

/// Law: the merge consumes the same inputs in the same order whatever
/// order the chunks completed in. Two observed result sequences that hold
/// the same results (as a multiset) select the same mapped outputs, in the
/// same ascending chunk-index order, so a late chunk 0 and an early chunk
/// 2 merge identically.
pub proof fn lemma_merge_inputs_order_independent(
    descriptors: Seq<ChunkDescriptor>,
    first: Seq<ChunkResult>,
    second: Seq<ChunkResult>,
    chunk_count: int,
)
    requires
        complete_results(first, chunk_count),
        complete_results(second, chunk_count),
        first.to_multiset() == second.to_multiset(),
    ensures
        successful_mapped_views(descriptors, first, chunk_count) == successful_mapped_views(
            descriptors,
            second,
            chunk_count,
        ),
{
    lemma_report_order_independent(first, second, chunk_count);
    lemma_successful_mapped_agree(descriptors, first, second, chunk_count);
}

/// Two result sequences that give every chunk the same outcome select the
/// same mapped outputs.
proof fn lemma_successful_mapped_agree(
    descriptors: Seq<ChunkDescriptor>,
    first: Seq<ChunkResult>,
    second: Seq<ChunkResult>,
    bound: int,
)
    requires
        forall|i: int| 0 <= i < bound ==> #[trigger] outcome_of(first, i) == outcome_of(second, i),
    ensures
        successful_mapped_views(descriptors, first, bound) == successful_mapped_views(
            descriptors,
            second,
            bound,
        ),
    decreases bound,
{
    if bound > 0 {
        lemma_successful_mapped_agree(descriptors, first, second, bound - 1);
    }
}

} // verus!
