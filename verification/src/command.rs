//! Collaborator command lines.
//!
//! The exact argument vectors handed to the external tools: the aligner
//! with its fixed alignment-mode flags (directional, all alignments,
//! forward strand only, the C-to-T base-substitution scheme, the mismatch
//! penalties, no spliced alignment), and the classifier with its unmapped
//! filter predicate and BAM outputs. Every argument is pinned, so what each
//! subprocess is asked to do is part of the verified surface.

use vstd::prelude::*;

use vstd::string::StringExecFns;

use crate::config::PipelineConfig;
use crate::decimal::decimal_digits;
use crate::decimal::render_decimal;
use crate::descriptor::ChunkDescriptor;

verus! {

/// The views of an argument vector.
pub open spec fn arg_views(args: Seq<String>) -> Seq<Seq<char>> {
    args.map_values(|arg: String| arg@)
}

/// The aligner's argument vector for one chunk, in order: the index, the
/// thread count, the chunk's own summary path, the chunk's input file, and
/// the fixed alignment-mode flags.
pub open spec fn aligner_arg_views(config: PipelineConfig, chunk: ChunkDescriptor) -> Seq<
    Seq<char>,
> {
    seq![
        "--index"@,
        config.index_path@,
        "-p"@,
        decimal_digits(config.threads as nat),
        "--summary-file"@,
        chunk.summary_path@,
        "--new-summary"@,
        "-q"@,
        "-U"@,
        chunk.input_path@,
        "--directional-mapping"@,
        "--all"@,
        "--norc"@,
        "--base-change"@,
        "C,T"@,
        "--mp"@,
        "8,2"@,
        "--no-spliced-alignment"@,
    ]
}

/// The classifier's argument vector for one chunk, in order: the view
/// subcommand, the thread count, the filter predicate selecting records
/// not flagged unmapped, BAM output format, the chunk's unmapped output
/// (records failing the filter) and the chunk's mapped output.
pub open spec fn classifier_arg_views(config: PipelineConfig, chunk: ChunkDescriptor) -> Seq<
    Seq<char>,
> {
    seq![
        "view"@,
        "-@"@,
        decimal_digits(config.threads as nat),
        "-e"@,
        "!flag.unmap"@,
        "-O"@,
        "BAM"@,
        "-U"@,
        chunk.unmapped_path@,
        "-o"@,
        chunk.mapped_path@,
    ]
}

/// Builds the aligner's argument vector for one chunk.
pub fn aligner_args(config: &PipelineConfig, chunk: &ChunkDescriptor) -> (args: Vec<String>)
    ensures
        arg_views(args@) == aligner_arg_views(*config, *chunk),
{
    let mut args: Vec<String> = Vec::new();
    args.push(String::from_str("--index"));
    args.push(config.index_path.clone());
    args.push(String::from_str("-p"));
    args.push(render_decimal(config.threads));
    args.push(String::from_str("--summary-file"));
    args.push(chunk.summary_path.clone());
    args.push(String::from_str("--new-summary"));
    args.push(String::from_str("-q"));
    args.push(String::from_str("-U"));
    args.push(chunk.input_path.clone());
    args.push(String::from_str("--directional-mapping"));
    args.push(String::from_str("--all"));
    args.push(String::from_str("--norc"));
    args.push(String::from_str("--base-change"));
    args.push(String::from_str("C,T"));
    args.push(String::from_str("--mp"));
    args.push(String::from_str("8,2"));
    args.push(String::from_str("--no-spliced-alignment"));
    proof {
        assert(arg_views(args@) =~= aligner_arg_views(*config, *chunk));
    }
    args
}

/// Builds the classifier's argument vector for one chunk.
pub fn classifier_args(config: &PipelineConfig, chunk: &ChunkDescriptor) -> (args: Vec<String>)
    ensures
        arg_views(args@) == classifier_arg_views(*config, *chunk),
{
    let mut args: Vec<String> = Vec::new();
    args.push(String::from_str("view"));
    args.push(String::from_str("-@"));
    args.push(render_decimal(config.threads));
    args.push(String::from_str("-e"));
    args.push(String::from_str("!flag.unmap"));
    args.push(String::from_str("-O"));
    args.push(String::from_str("BAM"));
    args.push(String::from_str("-U"));
    args.push(chunk.unmapped_path.clone());
    args.push(String::from_str("-o"));
    args.push(chunk.mapped_path.clone());
    proof {
        assert(arg_views(args@) =~= classifier_arg_views(*config, *chunk));
    }
    args
}

} // verus!
