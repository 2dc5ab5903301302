//! The orchestration of the stages: what is asked of the pipeline, where
//! each stage writes, and what follows each stage's end.

use crate::errors::{failure_model, message_of, ErrorModel, PipelineError};
use crate::fm::{file_type_of, kind_of_path, models_of, FileModel, FileType, VcfFile};
use crate::paths::{has_parent, join_path, join_spec, parent, parent_spec};
use crate::filter_snp::filtered_destination;
use crate::paths::{body_end, file_name_start, last_component, stem_end};
use crate::text::{
    decimal, decimal_digits, last_index, lemma_decimal_holds_digits, lemma_decimal_injective,
    lemma_decimal_nonempty, lemma_last_index_append, lemma_last_index_bounds, texts,
};
use vstd::prelude::*;

verus! {

/// The stages, in the order in which they run.
#[derive(Clone, Copy, Debug, PartialEq, Eq, Structural)]
pub enum Stage {
    Filter,
    Merge,
    Annotate,
    Extract,
}

/// The stage that follows `stage`, if any.
pub open spec fn following(stage: Stage) -> Option<Stage> {
    match stage {
        Stage::Filter => Some(Stage::Merge),
        Stage::Merge => Some(Stage::Annotate),
        Stage::Annotate => Some(Stage::Extract),
        Stage::Extract => None,
    }
}

/// A stage's name for readers.
pub open spec fn stage_name(stage: Stage) -> Seq<char> {
    match stage {
        Stage::Filter => "Filtering"@,
        Stage::Merge => "Concatenating"@,
        Stage::Annotate => "Annotating"@,
        Stage::Extract => "Extracting"@,
    }
}

/// What the user is told of a halted pipeline: the stage that failed and
/// the cause.
pub open spec fn halt_report_spec(stage: Stage, cause: ErrorModel) -> Seq<char> {
    stage_name(stage) + " failed: "@ + message_of(cause)
}

/// What the user is told of a halted pipeline.
pub fn halt_report(stage: Stage, cause: &PipelineError) -> (r: String)
    ensures
        r@ == halt_report_spec(stage, cause@),
{
    let mut out = match stage {
        Stage::Filter => String::from_str("Filtering"),
        Stage::Merge => String::from_str("Concatenating"),
        Stage::Annotate => String::from_str("Annotating"),
        Stage::Extract => String::from_str("Extracting"),
    };
    out.append(" failed: ");
    out.append(cause.message().as_str());
    out
}

/// Where the pipeline stands.
#[derive(Debug, PartialEq, Eq)]
pub enum Progress {
    /// This stage is to run next.
    Next(Stage),
    /// Every stage succeeded.
    Finished,
    /// A stage failed and the pipeline halted.
    Halted { stage: Stage, cause: PipelineError },
}

/// A `Progress` with its error as a model.
pub enum ProgressModel {
    Next(Stage),
    Finished,
    Halted { stage: Stage, cause: ErrorModel },
}

impl View for Progress {
    type V = ProgressModel;

    open spec fn view(&self) -> ProgressModel {
        match *self {
            Progress::Next(stage) => ProgressModel::Next(stage),
            Progress::Finished => ProgressModel::Finished,
            Progress::Halted { stage, cause } => ProgressModel::Halted { stage, cause: cause@ },
        }
    }
}

/// What follows the end of `stage`: a failure halts the pipeline and is
/// reported with the stage; a success leads to the following stage, and
/// after the last one the pipeline has finished.
pub open spec fn progress_after(stage: Stage, failure: Option<ErrorModel>) -> ProgressModel {
    match failure {
        Some(cause) => ProgressModel::Halted { stage, cause },
        None => match following(stage) {
            Some(next) => ProgressModel::Next(next),
            None => ProgressModel::Finished,
        },
    }
}

/// What follows the end of `stage`, given its failure if it failed.
pub fn after_stage(stage: Stage, failure: Option<PipelineError>) -> (r: Progress)
    ensures
        r@ == progress_after(stage, failure_model(failure)),
{
    match failure {
        Some(cause) => Progress::Halted { stage, cause },
        None => match stage {
            Stage::Filter => Progress::Next(Stage::Merge),
            Stage::Merge => Progress::Next(Stage::Annotate),
            Stage::Annotate => Progress::Next(Stage::Extract),
            Stage::Extract => Progress::Finished,
        },
    }
}

/// The directory for intermediate files, beside the output prefix.
pub open spec fn temp_directory_spec(out: Seq<char>) -> Seq<char> {
    join_spec(parent_spec(out), "temp"@)
}

/// The output prefix of the filter unit with the given number.
pub open spec fn filter_prefix_spec(temp_dir: Seq<char>, number: nat) -> Seq<char> {
    join_spec(temp_dir, "filter_snp_"@ + decimal_digits(number))
}

/// The output path handed to the merge stage.
pub open spec fn merge_output_spec(temp_dir: Seq<char>) -> Seq<char> {
    join_spec(temp_dir, "concated"@)
}

/// The directory for intermediate files, beside the output prefix.
pub fn temp_directory(out: &str) -> (r: String)
    requires
        has_parent(out@),
    ensures
        r@ == temp_directory_spec(out@),
{
    let dir = parent(out).unwrap();
    join_path(dir.as_str(), "temp")
}

/// The output prefix of the filter unit with the given number.
pub fn filter_output_prefix(temp_dir: &str, number: u64) -> (r: String)
    ensures
        r@ == filter_prefix_spec(temp_dir@, number as nat),
{
    let mut name = String::from_str("filter_snp_");
    name.append(decimal(number).as_str());
    join_path(temp_dir, name.as_str())
}

/// The output path handed to the merge stage.
pub fn merge_output_path(temp_dir: &str) -> (r: String)
    ensures
        r@ == merge_output_spec(temp_dir@),
{
    join_path(temp_dir, "concated")
}

/// Units with different numbers write under different prefixes of one
/// directory, so no two of them write to the same file.
pub proof fn lemma_prefixes_distinct(temp_dir: Seq<char>, a: nat, b: nat)
    requires
        a != b,
    ensures
        filter_prefix_spec(temp_dir, a) != filter_prefix_spec(temp_dir, b),
{
    let na = "filter_snp_"@ + decimal_digits(a);
    let nb = "filter_snp_"@ + decimal_digits(b);
    reveal_strlit("filter_snp_");
    assert(na[0] == 'f' && nb[0] == 'f');
    if filter_prefix_spec(temp_dir, a) == filter_prefix_spec(temp_dir, b) {
        let lead = "filter_snp_"@.len() as int;
        assert(na == nb) by {
            if temp_dir.len() == 0 {
            } else if temp_dir.last() == '/' {
                let d = temp_dir.len() as int;
                assert((temp_dir + na).skip(d) =~= na);
                assert((temp_dir + nb).skip(d) =~= nb);
            } else {
                let d = temp_dir.len() as int + 1;
                assert((temp_dir + seq!['/'] + na).skip(d) =~= na);
                assert((temp_dir + seq!['/'] + nb).skip(d) =~= nb);
            }
        }
        assert(na.skip(lead) =~= decimal_digits(a));
        assert(nb.skip(lead) =~= decimal_digits(b));
        lemma_decimal_injective(a, b);
    }
}

/// The filter unit with the given number leaves its result in the
/// directory for intermediate files, under the name `filter_snp_`, the
/// number, and `.recode.vcf`.
pub proof fn lemma_unit_destination(temp_dir: Seq<char>, number: nat)
    ensures
        filtered_destination(filter_prefix_spec(temp_dir, number)) == filter_prefix_spec(
            temp_dir,
            number,
        ) + seq!['.'] + "recode.vcf"@,
{
    let name = "filter_snp_"@ + decimal_digits(number);
    let prefix = filter_prefix_spec(temp_dir, number);
    let lead = if temp_dir.len() == 0 {
        Seq::<char>::empty()
    } else if temp_dir.last() == '/' {
        temp_dir
    } else {
        temp_dir + seq!['/']
    };
    reveal_strlit("filter_snp_");
    assert(name[0] == 'f');
    assert(prefix =~= lead + name);
    lemma_decimal_holds_digits(number);
    assert forall|j: int| 0 <= j < name.len() implies name[j] != '/' && name[j] != '.' by {
        if j >= 11 {
            assert(name[j] == decimal_digits(number)[j - 11]);
        }
    }
    lemma_decimal_nonempty(number);
    assert('0' <= prefix.last() <= '9') by {
        assert(prefix.last() == decimal_digits(number).last());
    }
    assert(body_end(prefix) == prefix.len());
    assert(prefix.take(prefix.len() as int) =~= prefix);
    lemma_last_index_bounds(name, '/');
    lemma_last_index_bounds(name, '.');
    lemma_last_index_append(lead, name, '/');
    assert(last_index(lead, '/') == lead.len() - 1);
    assert(file_name_start(prefix) == lead.len());
    assert(last_component(prefix) =~= name);
    assert(stem_end(prefix) == prefix.len());
    reveal_strlit("recode.vcf");
}

/// Units with different numbers leave their results in different files.
pub proof fn lemma_destinations_distinct(temp_dir: Seq<char>, a: nat, b: nat)
    requires
        a != b,
    ensures
        filtered_destination(filter_prefix_spec(temp_dir, a)) != filtered_destination(
            filter_prefix_spec(temp_dir, b),
        ),
{
    let pa = filter_prefix_spec(temp_dir, a);
    let pb = filter_prefix_spec(temp_dir, b);
    let tail = seq!['.'] + "recode.vcf"@;
    lemma_unit_destination(temp_dir, a);
    lemma_unit_destination(temp_dir, b);
    lemma_prefixes_distinct(temp_dir, a, b);
    if pa + seq!['.'] + "recode.vcf"@ == pb + seq!['.'] + "recode.vcf"@ {
        assert(pa + seq!['.'] + "recode.vcf"@ =~= pa + tail);
        assert(pb + seq!['.'] + "recode.vcf"@ =~= pb + tail);
        assert((pa + tail).len() == pa.len() + tail.len());
        assert((pb + tail).len() == pb.len() + tail.len());
        assert((pa + tail).take(pa.len() as int) =~= pa);
        assert((pb + tail).take(pb.len() as int) =~= pb);
    }
}

/// Whether a file found in an input folder is taken as an input: its name
/// announces variant-call text, plain or compressed.
pub fn is_variant_input(path: &str) -> (r: bool)
    ensures
        r == (kind_of_path(path@) != FileType::Other),
{
    match file_type_of(path) {
        FileType::Other => false,
        _ => true,
    }
}

/// What is asked of the pipeline.
#[derive(Debug)]
pub struct PipelineRequest {
    inputs: Vec<VcfFile>,
    snp_ids: String,
    dataset: String,
    out: String,
}

/// A `PipelineRequest` as plain values.
pub struct RequestModel {
    pub inputs: Seq<FileModel>,
    pub snp_ids: Seq<char>,
    pub dataset: Seq<char>,
    pub out: Seq<char>,
}

/// The inputs handed to the pipeline, each a permanent file.
pub open spec fn permanent_inputs(paths: Seq<Seq<char>>) -> Seq<FileModel> {
    Seq::new(paths.len(), |i: int| FileModel { path: paths[i], will_be_deleted: false })
}

impl View for PipelineRequest {
    type V = RequestModel;

    closed spec fn view(&self) -> RequestModel {
        RequestModel {
            inputs: models_of(self.inputs@),
            snp_ids: self.snp_ids@,
            dataset: self.dataset@,
            out: self.out@,
        }
    }
}

impl PipelineRequest {
    #[verifier::type_invariant]
    spec fn has_inputs(&self) -> bool {
        self.inputs@.len() > 0
    }

    /// A request over the input files at `paths`, in this order. There is
    /// none without an input, nor where the list of identifiers is missing
    /// or empty; `snp_ids_size` is that file's size, if it exists.
    pub fn new(
        paths: &Vec<String>,
        snp_ids: &str,
        snp_ids_size: Option<u64>,
        dataset: &str,
        out: &str,
    ) -> (r: Option<Self>)
        ensures
            r is Some <==> paths@.len() > 0 && snp_ids_size is Some && snp_ids_size->Some_0 > 0,
            r is Some ==> r->Some_0@ == (RequestModel {
                inputs: permanent_inputs(texts(paths@)),
                snp_ids: snp_ids@,
                dataset: dataset@,
                out: out@,
            }),
    {
        if paths.len() == 0 {
            return None;
        }
        match snp_ids_size {
            None => {
                return None;
            },
            Some(size) => {
                if size == 0 {
                    return None;
                }
            },
        }
        let mut inputs: Vec<VcfFile> = Vec::new();
        let mut i: usize = 0;
        while i < paths.len()
            invariant
                i <= paths.len(),
                inputs@.len() == i,
                forall|j: int|
                    0 <= j < i ==> (#[trigger] inputs@[j])@ == (FileModel {
                        path: paths@[j]@,
                        will_be_deleted: false,
                    }),
            decreases paths.len() - i,
        {
            inputs.push(VcfFile::new(paths[i].as_str()));
            i += 1;
        }
        proof {
            assert(models_of(inputs@) =~= permanent_inputs(
                texts(paths@),
            ));
        }
        Some(
            PipelineRequest {
                inputs,
                snp_ids: String::from_str(snp_ids),
                dataset: String::from_str(dataset),
                out: String::from_str(out),
            },
        )
    }

    /// The input files, in order; there is at least one.
    pub fn inputs(&self) -> (r: &Vec<VcfFile>)
        ensures
            models_of(r@) == self@.inputs,
            r@.len() > 0,
    {
        proof {
            use_type_invariant(self);
        }
        &self.inputs
    }

    /// The path of the file that lists the identifiers to keep.
    pub fn snp_ids(&self) -> (r: &str)
        ensures
            r@ == self@.snp_ids,
    {
        self.snp_ids.as_str()
    }

    /// The reference dataset's name.
    pub fn dataset(&self) -> (r: &str)
        ensures
            r@ == self@.dataset,
    {
        self.dataset.as_str()
    }

    /// The output path prefix.
    pub fn out(&self) -> (r: &str)
        ensures
            r@ == self@.out,
    {
        self.out.as_str()
    }
}

} // verus!
