//! Chunk worker.
//!
//! Per chunk, the worker runs the alignment stage and then the
//! classification stage. The control flow is a small state machine
//! (`worker_step`): a stage failure ends the chunk with a `ChunkOutcome`
//! naming the failing stage, and the classification stage can only be
//! entered after the alignment stage exited successfully.
//!
//! The classification itself partitions the aligned records into a mapped
//! and an unmapped output: every record lands in exactly one of the two,
//! never both, never neither.

use vstd::prelude::*;

use vstd::seq_lib::group_filter_ensures;
use vstd::seq_lib::group_to_multiset_ensures;

use crate::errors::Stage;
use crate::errors::StageFailure;

verus! {

/// One aligned record as handed from the aligner to the classifier: its
/// payload and the flag that marks it as unmapped.
pub struct AlignedRecord {
    /// The record payload, carried through unchanged.
    pub data: String,
    /// True when the aligner flagged the record as unmapped.
    pub unmapped: bool,
}

impl Clone for AlignedRecord {
    fn clone(&self) -> (cloned: Self)
        ensures
            cloned == *self,
    {
        AlignedRecord { data: self.data.clone(), unmapped: self.unmapped }
    }
}

/// How one chunk ended: full success, or a failure at a named stage.
#[derive(Clone, Copy, PartialEq, Eq, Structural, Debug)]
pub enum ChunkOutcome {
    Success,
    Failed { stage: Stage, failure: StageFailure },
}

/// The result a chunk worker reports to the scheduler: which chunk it
/// worked on and how that chunk ended.
#[derive(Clone, Copy, PartialEq, Eq, Structural, Debug)]
pub struct ChunkResult {
    /// Index of the chunk this result belongs to.
    pub index: usize,
    /// How the chunk ended.
    pub outcome: ChunkOutcome,
}

/// Where a chunk worker stands: about to run the aligner, about to run the
/// classifier, or finished with an outcome.
#[derive(Clone, Copy, PartialEq, Eq, Structural, Debug)]
pub enum WorkerState {
    BeforeAlign,
    BeforeClassify,
    Done(ChunkOutcome),
}

/// What happened to the subprocess a worker was waiting on: it could not
/// be spawned, or it exited with the given status.
#[derive(Clone, Copy, PartialEq, Eq, Structural, Debug)]
pub enum StageEvent {
    SpawnFailed,
    Exited(i32),
}

/// The stage a worker state is waiting on.
pub open spec fn stage_of(state: WorkerState) -> Stage {
    match state {
        WorkerState::BeforeAlign => Stage::Align,
        _ => Stage::Classify,
    }
}

/// The worker transition function: success of a stage advances to the next
/// stage (or to overall success after the last stage); any failure ends the
/// chunk at once with the failing stage named, so a chunk whose alignment
/// failed never reaches classification.
pub open spec fn spec_worker_step(state: WorkerState, event: StageEvent) -> WorkerState {
    match event {
        StageEvent::SpawnFailed => WorkerState::Done(
            ChunkOutcome::Failed { stage: stage_of(state), failure: StageFailure::Spawn },
        ),
        StageEvent::Exited(code) => if code != 0 {
            WorkerState::Done(
                ChunkOutcome::Failed { stage: stage_of(state), failure: StageFailure::Exit(code) },
            )
        } else {
            match state {
                WorkerState::BeforeAlign => WorkerState::BeforeClassify,
                _ => WorkerState::Done(ChunkOutcome::Success),
            }
        },
    }
}

/// Advances a chunk worker by one stage event. See `spec_worker_step` for
/// the full transition table.
pub fn worker_step(state: WorkerState, event: StageEvent) -> (next: WorkerState)
    requires
        !(state is Done),
    ensures
        next == spec_worker_step(state, event),
{
    match event {
        StageEvent::SpawnFailed => {
            let stage = if matches!(state, WorkerState::BeforeAlign) {
                Stage::Align
            } else {
                Stage::Classify
            };
            WorkerState::Done(ChunkOutcome::Failed { stage, failure: StageFailure::Spawn })
        },
        StageEvent::Exited(code) => {
            if code != 0 {
                let stage = if matches!(state, WorkerState::BeforeAlign) {
                    Stage::Align
                } else {
                    Stage::Classify
                };
                WorkerState::Done(ChunkOutcome::Failed { stage, failure: StageFailure::Exit(code) })
            } else {
                match state {
                    WorkerState::BeforeAlign => WorkerState::BeforeClassify,
                    _ => WorkerState::Done(ChunkOutcome::Success),
                }
            }
        },
    }
}

/// Law: a worker never skips a failed stage. Classification is only ever
/// entered after the aligner exited zero, and overall success is only ever
/// reached from classification exiting zero; any failing event ends the
/// chunk with the waited-on stage named in the outcome.
pub proof fn lemma_worker_stage_gate(state: WorkerState, event: StageEvent)
    ensures
        spec_worker_step(state, event) == WorkerState::BeforeClassify ==> (state
            == WorkerState::BeforeAlign && event == StageEvent::Exited(0i32)),
        spec_worker_step(state, event) == WorkerState::Done(ChunkOutcome::Success) ==> (state
            == WorkerState::BeforeClassify && event == StageEvent::Exited(0i32)) || (state is Done),
        (event == StageEvent::SpawnFailed || (event matches StageEvent::Exited(c) && c != 0))
            ==> (spec_worker_step(state, event) matches WorkerState::Done(
            ChunkOutcome::Failed { stage, .. },
        ) && stage == stage_of(state)),
{
}

/// The predicate that selects records into the mapped output: records not
/// flagged as unmapped.
pub open spec fn is_mapped(record: AlignedRecord) -> bool {
    !record.unmapped
}

/// The predicate that selects records into the unmapped output.
pub open spec fn is_unmapped(record: AlignedRecord) -> bool {
    record.unmapped
}

/// Classifies the aligned records of one chunk into the mapped output
/// (records not flagged unmapped) and the unmapped output (records flagged
/// unmapped), keeping the input order within each output.
#[verifier::loop_isolation(false)]
pub fn classify_records(records: &Vec<AlignedRecord>) -> (split: (
    Vec<AlignedRecord>,
    Vec<AlignedRecord>,
))
    ensures
        split.0@ == records@.filter(|record: AlignedRecord| is_mapped(record)),
        split.1@ == records@.filter(|record: AlignedRecord| is_unmapped(record)),
{
    let mut mapped: Vec<AlignedRecord> = Vec::new();
    let mut unmapped: Vec<AlignedRecord> = Vec::new();
    let mut i: usize = 0;
    proof {
        reveal(Seq::filter);
        assert(records@.subrange(0, 0).filter(|record: AlignedRecord| is_mapped(record)) =~= Seq::<
            AlignedRecord,
        >::empty());
        assert(records@.subrange(0, 0).filter(|record: AlignedRecord| is_unmapped(record))
            =~= Seq::<AlignedRecord>::empty());
    }
    while i < records.len()
        invariant
            i <= records@.len(),
            mapped@ == records@.subrange(0, i as int).filter(
                |record: AlignedRecord| is_mapped(record),
            ),
            unmapped@ == records@.subrange(0, i as int).filter(
                |record: AlignedRecord| is_unmapped(record),
            ),
        decreases records@.len() - i,
    {
        let record = records[i].clone();
        proof {
            reveal(Seq::filter);
            let prefix = records@.subrange(0, i as int);
            let next_prefix = records@.subrange(0, i as int + 1);
            assert(next_prefix.drop_last() =~= prefix);
            assert(next_prefix.last() == records@[i as int]);
        }
        if record.unmapped {
            unmapped.push(record);
        } else {
            mapped.push(record);
        }
        i = i + 1;
    }
    proof {
        assert(records@.subrange(0, records@.len() as int) =~= records@);
    }
    (mapped, unmapped)
}

/// Law: classification is a complete and exclusive partition. Counting
/// multiplicity, the mapped and unmapped outputs together hold exactly the
/// input records; their lengths sum to the input length; every record of
/// the mapped output is unflagged and every record of the unmapped output
/// is flagged, so no record can appear in both.
pub proof fn lemma_classify_partitions(records: Seq<AlignedRecord>)
    ensures
        records.filter(|record: AlignedRecord| is_mapped(record)).to_multiset().add(
            records.filter(|record: AlignedRecord| is_unmapped(record)).to_multiset(),
        ) == records.to_multiset(),
        records.filter(|record: AlignedRecord| is_mapped(record)).len() + records.filter(
            |record: AlignedRecord| is_unmapped(record),
        ).len() == records.len(),
        forall|x: AlignedRecord|
            records.filter(|record: AlignedRecord| is_mapped(record)).contains(x) ==> is_mapped(x),
        forall|x: AlignedRecord|
            records.filter(|record: AlignedRecord| is_unmapped(record)).contains(x) ==> is_unmapped(
                x,
            ),
    decreases records.len(),
{
    broadcast use group_filter_ensures;
    broadcast use group_to_multiset_ensures;

    reveal(Seq::filter);
    let m = records.filter(|record: AlignedRecord| is_mapped(record));
    let u = records.filter(|record: AlignedRecord| is_unmapped(record));
    if records.len() == 0 {
        assert(m.to_multiset().add(u.to_multiset()) =~= records.to_multiset());
    } else {
        let prefix = records.drop_last();
        let last = records.last();
        lemma_classify_partitions(prefix);
        let pm = prefix.filter(|record: AlignedRecord| is_mapped(record));
        let pu = prefix.filter(|record: AlignedRecord| is_unmapped(record));
        assert(records =~= prefix.push(last));
        assert(records.to_multiset() =~= prefix.to_multiset().insert(last));
        if is_mapped(last) {
            assert(m == pm.push(last));
            assert(u == pu);
            assert(m.to_multiset() =~= pm.to_multiset().insert(last));
            assert(m.to_multiset().add(u.to_multiset()) =~= records.to_multiset());
        } else {
            assert(m == pm);
            assert(u == pu.push(last));
            assert(u.to_multiset() =~= pu.to_multiset().insert(last));
            assert(m.to_multiset().add(u.to_multiset()) =~= records.to_multiset());
        }
    }
}

} // verus!
