//! The annotation stage: one run of the annotation engine over the merged
//! file, with two reports beside the annotated file.

use crate::errors::PipelineError;
use crate::fm::{FileManage, VcfFile};
use crate::paths::{
    has_file_name, has_parent, join_path, join_spec, lemma_with_extension_keeps_parent, parent,
    parent_spec, with_extension, with_extension_spec,
};
use crate::text::lacks;
use crate::process::{finish_stage, stage_verdict, ProcessOutcome};
use crate::text::texts;
use vstd::prelude::*;

verus! {

/// Where the statistics report goes for an output path.
pub open spec fn stats_report_path(output_path: Seq<char>) -> Seq<char> {
    join_spec(parent_spec(output_path), "result_stats.csv"@)
}

/// Where the summary report goes for an output path.
pub open spec fn summary_report_path(output_path: Seq<char>) -> Seq<char> {
    join_spec(parent_spec(output_path), "result_summary.html"@)
}

/// Where the annotated file goes for an output path.
pub open spec fn annotated_destination(output_path: Seq<char>) -> Seq<char> {
    with_extension_spec(output_path, "vcf"@)
}

/// The engine's arguments for a source file, a dataset and an output path.
pub open spec fn annotation_arguments_spec(
    engine: Seq<char>,
    source: Seq<char>,
    dataset: Seq<char>,
    output_path: Seq<char>,
) -> Seq<Seq<char>> {
    seq![
        "-jar"@,
        engine,
        "ann"@,
        dataset,
        "-csvStats"@,
        stats_report_path(output_path),
        "-htmlStats"@,
        summary_report_path(output_path),
        source,
    ]
}

/// The two reports stand in the directory of the annotated file.
pub proof fn lemma_reports_beside_annotated(output_path: Seq<char>)
    ensures
        stats_report_path(output_path) == join_spec(
            parent_spec(annotated_destination(output_path)),
            "result_stats.csv"@,
        ),
        summary_report_path(output_path) == join_spec(
            parent_spec(annotated_destination(output_path)),
            "result_summary.html"@,
        ),
{
    reveal_strlit("vcf");
    if has_file_name(output_path) {
        lemma_with_extension_keeps_parent(output_path, "vcf"@);
    }
}

/// What the annotation stage leaves behind.
#[derive(Debug)]
pub struct AnnotationOutputs {
    /// The annotated file, temporary until its consumer decides otherwise.
    pub annotated: VcfFile,
    /// The statistics report.
    pub stats_report: String,
    /// The summary report for readers.
    pub summary_report: String,
}

/// The statistics report's path for `output_path`.
pub fn stats_report(output_path: &str) -> (r: String)
    requires
        has_parent(output_path@),
    ensures
        r@ == stats_report_path(output_path@),
{
    let dir = parent(output_path).unwrap();
    join_path(dir.as_str(), "result_stats.csv")
}

/// The summary report's path for `output_path`.
pub fn summary_report(output_path: &str) -> (r: String)
    requires
        has_parent(output_path@),
    ensures
        r@ == summary_report_path(output_path@),
{
    let dir = parent(output_path).unwrap();
    join_path(dir.as_str(), "result_summary.html")
}

/// The arguments handed to the runtime that hosts the engine at `engine`.
pub fn annotation_arguments(
    engine: &str,
    source_vcf: &VcfFile,
    dataset: &str,
    output_path: &str,
) -> (r: Vec<String>)
    requires
        has_parent(output_path@),
    ensures
        texts(r@) == annotation_arguments_spec(engine@, source_vcf@.path, dataset@, output_path@),
{
    let mut args: Vec<String> = Vec::new();
    args.push(String::from_str("-jar"));
    args.push(String::from_str(engine));
    args.push(String::from_str("ann"));
    args.push(String::from_str(dataset));
    args.push(String::from_str("-csvStats"));
    args.push(stats_report(output_path));
    args.push(String::from_str("-htmlStats"));
    args.push(summary_report(output_path));
    args.push(String::from_str(source_vcf.get_path()));
    proof {
        assert(texts(args@) =~= annotation_arguments_spec(
            engine@,
            source_vcf@.path,
            dataset@,
            output_path@,
        ));
    }
    args
}

/// The stage's outputs, once the engine has ended: the annotated file,
/// temporary, at the output path with the extension `vcf`, and the two
/// reports beside the output path; or the engine's failure.
pub fn annotate_snps(output_path: &str, outcome: &ProcessOutcome) -> (r: Result<
    AnnotationOutputs,
    PipelineError,
>)
    requires
        has_parent(output_path@),
    ensures
        match stage_verdict(outcome@, annotated_destination(output_path@)) {
            Ok(file) => r is Ok && r->Ok_0.annotated@ == file && r->Ok_0.stats_report@
                == stats_report_path(output_path@) && r->Ok_0.summary_report@
                == summary_report_path(output_path@),
            Err(e) => r is Err && r->Err_0@ == e,
        },
{
    proof {
        reveal_strlit("vcf");
        assert(lacks("vcf"@, '/'));
    }
    let destination = with_extension(output_path, "vcf");
    match finish_stage(outcome, destination.as_str()) {
        Ok(annotated) => Ok(
            AnnotationOutputs {
                annotated,
                stats_report: stats_report(output_path),
                summary_report: summary_report(output_path),
            },
        ),
        Err(e) => Err(e),
    }
}

} // verus!
