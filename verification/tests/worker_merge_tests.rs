use chunk_pipeline::errors::MergeError;
use chunk_pipeline::errors::Stage;
use chunk_pipeline::errors::StageFailure;
use chunk_pipeline::pipeline::process_chunks;
use chunk_pipeline::worker::classify_records;
use chunk_pipeline::worker::AlignedRecord;
use chunk_pipeline::worker::ChunkOutcome;
use chunk_pipeline::worker::StageEvent;
use chunk_pipeline::worker::WorkerState;
use chunk_pipeline::worker::worker_step;
use chunk_pipeline::merge::merge_mapped;

fn record(data: &str, unmapped: bool) -> AlignedRecord {
    AlignedRecord { data: data.to_string(), unmapped }
}

fn data_of(records: &[AlignedRecord]) -> Vec<String> {
    records.iter().map(|r| r.data.clone()).collect()
}

#[test]
fn classify_partitions_records() {
    let records = vec![
        record("a", false),
        record("b", true),
        record("c", false),
        record("d", true),
        record("e", false),
    ];
    let (mapped, unmapped) = classify_records(&records);
    // Completeness: lengths sum to the input, and every record appears in
    // exactly one output, never both, never neither.
    assert_eq!(mapped.len() + unmapped.len(), records.len());
    assert_eq!(data_of(&mapped), vec!["a", "c", "e"]);
    assert_eq!(data_of(&unmapped), vec!["b", "d"]);
    for r in &records {
        let in_mapped = mapped.iter().any(|m| m.data == r.data);
        let in_unmapped = unmapped.iter().any(|u| u.data == r.data);
        assert!(in_mapped != in_unmapped);
    }
}

#[test]
fn classify_empty_input() {
    let records: Vec<AlignedRecord> = Vec::new();
    let (mapped, unmapped) = classify_records(&records);
    assert!(mapped.is_empty());
    assert!(unmapped.is_empty());
}

#[test]
fn classify_all_unmapped() {
    let records = vec![record("a", true), record("b", true)];
    let (mapped, unmapped) = classify_records(&records);
    assert!(mapped.is_empty());
    assert_eq!(data_of(&unmapped), vec!["a", "b"]);
}

#[test]
fn merge_is_index_ordered() {
    // Chunks 0, 1, 2 with mapped records {a}, {b}, {c}: the merged output
    // is a, b, c in chunk-index order. The merger takes the outputs by
    // index, so chunk 2 finishing before chunk 0 cannot change the order:
    // assembling the same slots in a different completion order merges
    // identically.
    let a = vec![record("a", false)];
    let b = vec![record("b", false)];
    let c = vec![record("c", false)];

    let mut outputs: Vec<Option<Vec<AlignedRecord>>> = vec![None, None, None];
    // Completion order 2, 0, 1.
    outputs[2] = Some(c.clone());
    outputs[0] = Some(a.clone());
    outputs[1] = Some(b.clone());
    let merged = merge_mapped(&outputs).unwrap();
    assert_eq!(data_of(&merged), vec!["a", "b", "c"]);

    // Completion order 0, 1, 2 gives the same artifact.
    let mut again: Vec<Option<Vec<AlignedRecord>>> = vec![None, None, None];
    again[0] = Some(a);
    again[1] = Some(b);
    again[2] = Some(c);
    let merged_again = merge_mapped(&again).unwrap();
    assert_eq!(data_of(&merged_again), data_of(&merged));
}

#[test]
fn merge_missing_chunk_is_named() {
    let outputs = vec![
        Some(vec![record("a", false)]),
        None,
        Some(vec![record("c", false)]),
    ];
    match merge_mapped(&outputs) {
        Err(MergeError::MissingChunk(i)) => assert_eq!(i, 1),
        _ => panic!("expected a missing-chunk error"),
    }
}

#[test]
fn merge_no_chunks() {
    let outputs: Vec<Option<Vec<AlignedRecord>>> = Vec::new();
    let merged = merge_mapped(&outputs).unwrap();
    assert!(merged.is_empty());
}

#[test]
fn worker_advances_through_both_stages() {
    let after_align = worker_step(WorkerState::BeforeAlign, StageEvent::Exited(0));
    assert_eq!(after_align, WorkerState::BeforeClassify);
    let after_classify = worker_step(after_align, StageEvent::Exited(0));
    assert_eq!(after_classify, WorkerState::Done(ChunkOutcome::Success));
}

#[test]
fn worker_stops_when_align_fails() {
    // A non-zero aligner exit ends the chunk at the align stage: the
    // classifier is never entered.
    let next = worker_step(WorkerState::BeforeAlign, StageEvent::Exited(9));
    assert_eq!(
        next,
        WorkerState::Done(ChunkOutcome::Failed {
            stage: Stage::Align,
            failure: StageFailure::Exit(9),
        })
    );
}

#[test]
fn worker_reports_spawn_failure_per_stage() {
    let align_spawn = worker_step(WorkerState::BeforeAlign, StageEvent::SpawnFailed);
    assert_eq!(
        align_spawn,
        WorkerState::Done(ChunkOutcome::Failed {
            stage: Stage::Align,
            failure: StageFailure::Spawn,
        })
    );
    let classify_spawn = worker_step(WorkerState::BeforeClassify, StageEvent::SpawnFailed);
    assert_eq!(
        classify_spawn,
        WorkerState::Done(ChunkOutcome::Failed {
            stage: Stage::Classify,
            failure: StageFailure::Spawn,
        })
    );
}

#[test]
fn rerun_produces_identical_output() {
    // Identical aligned inputs give a byte-identical merged artifact.
    let aligned = vec![
        vec![record("a", false), record("x", true)],
        vec![record("b", false)],
        vec![record("y", true), record("c", false)],
    ];
    let (merged_first, unmapped_first) = process_chunks(&aligned);
    let (merged_second, unmapped_second) = process_chunks(&aligned);
    assert_eq!(data_of(&merged_first), vec!["a", "b", "c"]);
    assert_eq!(data_of(&merged_first), data_of(&merged_second));
    assert_eq!(unmapped_first.len(), unmapped_second.len());
    for (u1, u2) in unmapped_first.iter().zip(unmapped_second.iter()) {
        assert_eq!(data_of(u1), data_of(u2));
    }
    // The per-chunk unmapped outputs stay per chunk.
    assert_eq!(data_of(&unmapped_first[0]), vec!["x"]);
    assert!(data_of(&unmapped_first[1]).is_empty());
    assert_eq!(data_of(&unmapped_first[2]), vec!["y"]);
}
