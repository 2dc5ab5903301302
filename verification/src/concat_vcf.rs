//! The merge stage: one run of the merge tool over all filtered files.

use crate::errors::PipelineError;
use crate::fm::{FileManage, VcfFile};
use crate::paths::{with_extension, with_extension_spec};
use crate::process::{finish_stage, result_model, stage_verdict, ProcessOutcome};
use crate::text::{lacks, texts};
use vstd::prelude::*;

verus! {

/// The sum of two numbers.
pub fn add(left: u64, right: u64) -> (r: u64)
    requires
        left + right <= u64::MAX,
    ensures
        r == left + right,
{
    left + right
}

/// The paths of `files`, in order.
pub open spec fn paths_of(files: Seq<VcfFile>) -> Seq<Seq<char>> {
    Seq::new(files.len(), |i: int| files[i]@.path)
}

/// Where the merged file goes for an output path.
pub open spec fn merged_destination(output_path: Seq<char>) -> Seq<char> {
    with_extension_spec(output_path, "vcf"@)
}

/// The merge tool's arguments: the path of every input, in input order.
pub fn concat_arguments(input_vcfs: &Vec<VcfFile>) -> (r: Vec<String>)
    ensures
        texts(r@) == paths_of(input_vcfs@),
{
    let mut args: Vec<String> = Vec::new();
    let mut i: usize = 0;
    while i < input_vcfs.len()
        invariant
            i <= input_vcfs.len(),
            args@.len() == i,
            forall|j: int| 0 <= j < i ==> (#[trigger] args@[j])@ == input_vcfs@[j]@.path,
        decreases input_vcfs.len() - i,
    {
        args.push(String::from_str(input_vcfs[i].get_path()));
        i += 1;
    }
    proof {
        assert(texts(args@) =~= paths_of(input_vcfs@));
    }
    args
}

/// The merged file, once the merge tool has ended: a temporary file at the
/// output path with the extension `vcf`, or the tool's failure.
pub fn concat_vcf_files(output_path: &str, outcome: &ProcessOutcome) -> (r: Result<
    VcfFile,
    PipelineError,
>)
    ensures
        result_model(r) == stage_verdict(outcome@, merged_destination(output_path@)),
{
    proof {
        reveal_strlit("vcf");
        assert(lacks("vcf"@, '/'));
    }
    let destination = with_extension(output_path, "vcf");
    finish_stage(outcome, destination.as_str())
}

} // verus!
