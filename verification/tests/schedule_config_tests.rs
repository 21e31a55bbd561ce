use chunk_pipeline::config::make_limits;
use chunk_pipeline::config::validate_config;
use chunk_pipeline::config::PipelineConfig;
use chunk_pipeline::errors::ConfigError;
use chunk_pipeline::errors::Stage;
use chunk_pipeline::errors::StageFailure;
use chunk_pipeline::merge::merge_mapped;
use chunk_pipeline::pipeline::prepare_run;
use chunk_pipeline::descriptor::derive_descriptors;
use chunk_pipeline::schedule::successful_mapped_paths;
use chunk_pipeline::schedule::summarize;
use chunk_pipeline::worker::AlignedRecord;
use chunk_pipeline::worker::ChunkOutcome;
use chunk_pipeline::worker::ChunkResult;
use chunk_pipeline::worker::StageEvent;
use chunk_pipeline::worker::WorkerState;
use chunk_pipeline::worker::worker_step;

fn sample_config() -> PipelineConfig {
    PipelineConfig {
        index_path: "ref/genome".to_string(),
        threads: 4,
        summary_path: "out/summary".to_string(),
        input_path: "in/reads.fq".to_string(),
        unmapped_template: "out/unmapped.bam".to_string(),
        mapped_template: "out/mapped.bam".to_string(),
        chunk_count: 4,
        lines_per_record: 4,
    }
}

fn record(data: &str) -> AlignedRecord {
    AlignedRecord { data: data.to_string(), unmapped: false }
}

#[test]
fn report_names_failed_chunk_and_stage() {
    // Chunk 1's aligner exits non-zero; chunks 0 and 2 succeed. The final
    // report names chunk 1 as failed at the align stage, and the merge
    // proceeds with chunks 0 and 2 only.
    let fail_align = match worker_step(WorkerState::BeforeAlign, StageEvent::Exited(7)) {
        WorkerState::Done(outcome) => outcome,
        _ => panic!("a failing event must finish the worker"),
    };
    // Results arrive in completion order 2, 1, 0.
    let results = vec![
        ChunkResult { index: 2, outcome: ChunkOutcome::Success },
        ChunkResult { index: 1, outcome: fail_align },
        ChunkResult { index: 0, outcome: ChunkOutcome::Success },
    ];
    let report = summarize(&results, 3);
    assert!(!report.all_succeeded);
    assert_eq!(report.chunk_count, 3);
    assert_eq!(report.failed.len(), 1);
    assert_eq!(report.failed[0].index, 1);
    assert_eq!(
        report.failed[0].outcome,
        ChunkOutcome::Failed { stage: Stage::Align, failure: StageFailure::Exit(7) }
    );

    // Run-to-completion policy: merge only the confirmed-successful chunks,
    // in ascending index order, and report chunk 1 as excluded.
    let mut successful: Vec<Option<Vec<AlignedRecord>>> = Vec::new();
    for result in [&results[2], &results[0]] {
        assert_eq!(result.outcome, ChunkOutcome::Success);
        let payload = if result.index == 0 { "a" } else { "c" };
        successful.push(Some(vec![record(payload)]));
    }
    let merged = merge_mapped(&successful).unwrap();
    let merged_data: Vec<String> = merged.iter().map(|r| r.data.clone()).collect();
    assert_eq!(merged_data, vec!["a", "c"]);
}

#[test]
fn report_all_success() {
    let results = vec![
        ChunkResult { index: 1, outcome: ChunkOutcome::Success },
        ChunkResult { index: 0, outcome: ChunkOutcome::Success },
    ];
    let report = summarize(&results, 2);
    assert!(report.all_succeeded);
    assert!(report.failed.is_empty());
}

#[test]
fn report_enumerates_all_failures_in_index_order() {
    let spawn_fail = ChunkOutcome::Failed { stage: Stage::Classify, failure: StageFailure::Spawn };
    let exit_fail = ChunkOutcome::Failed { stage: Stage::Align, failure: StageFailure::Exit(1) };
    let results = vec![
        ChunkResult { index: 3, outcome: spawn_fail },
        ChunkResult { index: 0, outcome: ChunkOutcome::Success },
        ChunkResult { index: 1, outcome: exit_fail },
        ChunkResult { index: 2, outcome: ChunkOutcome::Success },
    ];
    let report = summarize(&results, 4);
    assert!(!report.all_succeeded);
    assert_eq!(report.failed.len(), 2);
    assert_eq!(report.failed[0].index, 1);
    assert_eq!(report.failed[0].outcome, exit_fail);
    assert_eq!(report.failed[1].index, 3);
    assert_eq!(report.failed[1].outcome, spawn_fail);
}

#[test]
fn merge_inputs_are_successful_chunks_in_index_order() {
    // Chunks 0 and 2 succeed, chunk 1 fails; results arrive out of order.
    // The merge consumes exactly the successful chunks' mapped outputs,
    // ascending by index.
    let config = sample_config();
    let descriptors = derive_descriptors(&config);
    let failed = ChunkOutcome::Failed { stage: Stage::Align, failure: StageFailure::Exit(1) };
    let results = vec![
        ChunkResult { index: 3, outcome: ChunkOutcome::Success },
        ChunkResult { index: 1, outcome: failed },
        ChunkResult { index: 0, outcome: ChunkOutcome::Success },
        ChunkResult { index: 2, outcome: ChunkOutcome::Success },
    ];
    let paths = successful_mapped_paths(&descriptors, &results, 4);
    assert_eq!(
        paths,
        vec!["out/mapped.bam0", "out/mapped.bam2", "out/mapped.bam3"]
    );
}

#[test]
fn limiter_failure_prevents_any_work() {
    // An invalid memory ceiling is a fatal configuration error: there is no
    // plan, hence no chunk descriptor, no partitioning, and no subprocess.
    let config = sample_config();
    match prepare_run(&config, 0, None) {
        Err(error) => assert_eq!(error, ConfigError::ZeroMemoryCeiling),
        Ok(_) => panic!("a zero memory ceiling must not yield a plan"),
    }
    assert!(matches!(make_limits(0, None), Err(ConfigError::ZeroMemoryCeiling)));
    assert!(matches!(make_limits(512, Some(0)), Err(ConfigError::ZeroCpuCeiling)));
}

#[test]
fn prepare_run_builds_full_plan() {
    let config = sample_config();
    let plan = prepare_run(&config, 2048, Some(3600)).unwrap();
    assert_eq!(plan.limits.memory_ceiling_mib, 2048);
    assert_eq!(plan.limits.cpu_ceiling_seconds, Some(3600));
    assert_eq!(plan.descriptors.len(), 4);
    for (i, descriptor) in plan.descriptors.iter().enumerate() {
        assert_eq!(descriptor.index, i);
        assert_eq!(descriptor.input_path, format!("in/reads.fq{}", i));
        assert_eq!(descriptor.mapped_path, format!("out/mapped.bam{}", i));
        assert_eq!(descriptor.unmapped_path, format!("out/unmapped.bam{}", i));
        assert_eq!(descriptor.summary_path, format!("out/summary{}", i));
    }
}

#[test]
fn validate_config_names_the_bad_field() {
    let good = sample_config();
    assert!(validate_config(&good).is_ok());

    let mut config = sample_config();
    config.index_path = String::new();
    assert_eq!(validate_config(&config), Err(ConfigError::EmptyIndexPath));

    config = sample_config();
    config.input_path = String::new();
    assert_eq!(validate_config(&config), Err(ConfigError::EmptyInputPath));

    config = sample_config();
    config.summary_path = String::new();
    assert_eq!(validate_config(&config), Err(ConfigError::EmptySummaryPath));

    config = sample_config();
    config.unmapped_template = String::new();
    assert_eq!(validate_config(&config), Err(ConfigError::EmptyUnmappedTemplate));

    config = sample_config();
    config.mapped_template = String::new();
    assert_eq!(validate_config(&config), Err(ConfigError::EmptyMappedTemplate));

    config = sample_config();
    config.threads = 0;
    assert_eq!(validate_config(&config), Err(ConfigError::ZeroThreads));

    config = sample_config();
    config.chunk_count = 0;
    assert_eq!(validate_config(&config), Err(ConfigError::ZeroChunks));

    config = sample_config();
    config.lines_per_record = 0;
    assert_eq!(validate_config(&config), Err(ConfigError::ZeroLinesPerRecord));
}
