use chunk_pipeline::command::aligner_args;
use chunk_pipeline::command::classifier_args;
use chunk_pipeline::config::PipelineConfig;
use chunk_pipeline::decimal::render_decimal;
use chunk_pipeline::descriptor::derive_descriptors;
use chunk_pipeline::descriptor::derive_path;

fn sample_config() -> PipelineConfig {
    PipelineConfig {
        index_path: "ref/genome".to_string(),
        threads: 8,
        summary_path: "out/summary".to_string(),
        input_path: "in/reads.fq".to_string(),
        unmapped_template: "out/unmapped.bam".to_string(),
        mapped_template: "out/mapped.bam".to_string(),
        chunk_count: 3,
        lines_per_record: 4,
    }
}

#[test]
fn render_decimal_values() {
    assert_eq!(render_decimal(0), "0");
    assert_eq!(render_decimal(7), "7");
    assert_eq!(render_decimal(42), "42");
    assert_eq!(render_decimal(1000), "1000");
    assert_eq!(render_decimal(u64::MAX), "18446744073709551615");
}

#[test]
fn derive_path_appends_index() {
    let template = "out/mapped.bam".to_string();
    assert_eq!(derive_path(&template, 0), "out/mapped.bam0");
    assert_eq!(derive_path(&template, 12), "out/mapped.bam12");
}

#[test]
fn descriptors_have_unique_paths() {
    let config = sample_config();
    let descriptors = derive_descriptors(&config);
    assert_eq!(descriptors.len(), 3);
    for i in 0..descriptors.len() {
        for j in 0..descriptors.len() {
            if i != j {
                assert_ne!(descriptors[i].input_path, descriptors[j].input_path);
                assert_ne!(descriptors[i].mapped_path, descriptors[j].mapped_path);
                assert_ne!(descriptors[i].unmapped_path, descriptors[j].unmapped_path);
                assert_ne!(descriptors[i].summary_path, descriptors[j].summary_path);
            }
        }
    }
}

#[test]
fn aligner_invocation_is_exact() {
    let config = sample_config();
    let descriptors = derive_descriptors(&config);
    let args = aligner_args(&config, &descriptors[1]);
    let expected = vec![
        "--index",
        "ref/genome",
        "-p",
        "8",
        "--summary-file",
        "out/summary1",
        "--new-summary",
        "-q",
        "-U",
        "in/reads.fq1",
        "--directional-mapping",
        "--all",
        "--norc",
        "--base-change",
        "C,T",
        "--mp",
        "8,2",
        "--no-spliced-alignment",
    ];
    assert_eq!(args, expected);
}

#[test]
fn classifier_invocation_is_exact() {
    let config = sample_config();
    let descriptors = derive_descriptors(&config);
    let args = classifier_args(&config, &descriptors[2]);
    let expected = vec![
        "view",
        "-@",
        "8",
        "-e",
        "!flag.unmap",
        "-O",
        "BAM",
        "-U",
        "out/unmapped.bam2",
        "-o",
        "out/mapped.bam2",
    ];
    assert_eq!(args, expected);
}
