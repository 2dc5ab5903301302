//! The filter stage: one run of the filter tool per input file, and the
//! fan-in that gathers the runs' reports.

use crate::errors::{ErrorModel, PipelineError};
use crate::fm::{
    kind_of_path, lemma_temporary_is_removed, models_of, to_remove, FileManage, FileModel, FileType,
    VcfFile,
};
use crate::paths::{with_extension, with_extension_spec};
use crate::process::{finish_stage, result_model, stage_verdict, ProcessOutcome};
use crate::text::{lacks, texts};
use vstd::prelude::*;

verus! {

/// The flag that announces an input of the given format to the filter
/// tool, where the tool reads that format.
pub open spec fn mode_flag(kind: FileType) -> Option<Seq<char>> {
    match kind {
        FileType::Vcf => Some("--vcf"@),
        FileType::VcfGz => Some("--gzvcf"@),
        FileType::Other => None,
    }
}

/// The filter tool's arguments for an input announced by `flag`.
pub open spec fn filter_arguments_spec(
    flag: Seq<char>,
    source: Seq<char>,
    snp_id_file: Seq<char>,
    output_prefix: Seq<char>,
) -> Seq<Seq<char>> {
    seq![
        flag,
        source,
        "--snps"@,
        snp_id_file,
        "--recode"@,
        "--recode-INFO-all"@,
        "--out"@,
        output_prefix,
    ]
}

/// Where the filter tool leaves its result for an output prefix.
pub open spec fn filtered_destination(output_prefix: Seq<char>) -> Seq<char> {
    with_extension_spec(output_prefix, "recode.vcf"@)
}

/// The filter tool's arguments for one input, or `UnsupportedFormat` where
/// the input's format has no invocation mode. Nothing is to be started on
/// an error.
pub fn filter_arguments<T: FileManage>(
    source_file: &T,
    snp_id_file: &str,
    output_file_path: &str,
) -> (r: Result<Vec<String>, PipelineError>)
    ensures
        match mode_flag(kind_of_path(source_file@.path)) {
            Some(flag) => r is Ok && texts(r->Ok_0@) == filter_arguments_spec(
                flag,
                source_file@.path,
                snp_id_file@,
                output_file_path@,
            ),
            None => r is Err && r->Err_0@ == ErrorModel::UnsupportedFormat,
        },
{
    let flag = match source_file.type_of() {
        FileType::Vcf => String::from_str("--vcf"),
        FileType::VcfGz => String::from_str("--gzvcf"),
        FileType::Other => {
            return Err(PipelineError::UnsupportedFormat);
        },
    };
    let ghost flag_text = flag@;
    let mut args: Vec<String> = Vec::new();
    args.push(flag);
    args.push(String::from_str(source_file.get_path()));
    args.push(String::from_str("--snps"));
    args.push(String::from_str(snp_id_file));
    args.push(String::from_str("--recode"));
    args.push(String::from_str("--recode-INFO-all"));
    args.push(String::from_str("--out"));
    args.push(String::from_str(output_file_path));
    proof {
        assert(texts(args@) =~= filter_arguments_spec(
            flag_text,
            source_file@.path,
            snp_id_file@,
            output_file_path@,
        ));
    }
    Ok(args)
}

/// The filtered file for one input, once the filter tool has ended: a
/// temporary file at the output prefix with the extension `recode.vcf`, the
/// tool's failure, or `UnsupportedFormat` whatever the outcome says.
pub fn filter_snps<T: FileManage>(
    source_file: &T,
    output_file_path: &str,
    outcome: &ProcessOutcome,
) -> (r: Result<VcfFile, PipelineError>)
    ensures
        mode_flag(kind_of_path(source_file@.path)) is None ==> result_model(r) == Err::<
            FileModel,
            ErrorModel,
        >(ErrorModel::UnsupportedFormat),
        mode_flag(kind_of_path(source_file@.path)) is Some ==> result_model(r)
            == stage_verdict(outcome@, filtered_destination(output_file_path@)),
{
    match source_file.type_of() {
        FileType::Other => Err(PipelineError::UnsupportedFormat),
        _ => {
            proof {
                reveal_strlit("recode.vcf");
                assert(lacks("recode.vcf"@, '/'));
            }
            let destination = with_extension(output_file_path, "recode.vcf");
            finish_stage(outcome, destination.as_str())
        },
    }
}

/// What one unit of the filter stage reports: which input it worked on,
/// counted from zero, and how its run ended.
#[derive(Debug)]
pub struct FilterReport {
    pub index: usize,
    pub outcome: Result<VcfFile, PipelineError>,
}

/// Why the filter stage failed, and the files that its other units had
/// produced by then: they are handed back so that each is released.
#[derive(Debug)]
pub struct FilterFailure {
    pub error: PipelineError,
    pub produced: Vec<VcfFile>,
}

/// The files of the successful reports, in the order of the reports.
pub open spec fn produced_by(reports: Seq<FilterReport>) -> Seq<FileModel>
    decreases reports.len(),
{
    if reports.len() == 0 {
        Seq::empty()
    } else {
        let before = produced_by(reports.drop_last());
        match reports.last().outcome {
            Ok(file) => before.push(file@),
            Err(_) => before,
        }
    }
}

/// The error of the earliest failed report, if any report failed.
pub open spec fn first_failure(reports: Seq<FilterReport>) -> Option<ErrorModel>
    decreases reports.len(),
{
    if reports.len() == 0 {
        None
    } else {
        match first_failure(reports.drop_last()) {
            Some(e) => Some(e),
            None => match reports.last().outcome {
                Ok(_) => None,
                Err(e) => Some(e@),
            },
        }
    }
}

/// Some report is on input `k`.
pub open spec fn has_report_on(reports: Seq<FilterReport>, k: int) -> bool {
    exists|j: int| 0 <= j < reports.len() && (#[trigger] reports[j]).index == k
}

/// There is one report for each of `n` inputs.
pub open spec fn one_report_each(reports: Seq<FilterReport>, n: nat) -> bool {
    &&& reports.len() == n
    &&& forall|j: int| 0 <= j < n ==> (#[trigger] reports[j]).index < n
    &&& forall|k: int| 0 <= k < n ==> #[trigger] has_report_on(reports, k)
    &&& forall|i: int, j: int|
        0 <= i < j < n ==> #[trigger] reports[i].index != #[trigger] reports[j].index
}

/// No report failed exactly when every report succeeded.
pub proof fn lemma_no_failure_iff_all_succeeded(reports: Seq<FilterReport>)
    ensures
        first_failure(reports) is None <==> forall|j: int|
            0 <= j < reports.len() ==> (#[trigger] reports[j]).outcome is Ok,
    decreases reports.len(),
{
    if reports.len() > 0 {
        let before = reports.drop_last();
        lemma_no_failure_iff_all_succeeded(before);
        if first_failure(reports) is None {
            assert forall|j: int| 0 <= j < reports.len() implies (
            #[trigger] reports[j]).outcome is Ok by {
                if j < before.len() {
                    assert(before[j] == reports[j]);
                }
            }
        } else if first_failure(before) is Some {
            let j = choose|j: int| 0 <= j < before.len() && !((#[trigger] before[j]).outcome is Ok);
            assert(before[j] == reports[j]);
        }
    }
}

/// What is handed back on a failure holds the file of every unit that
/// succeeded: none of them is left behind.
pub proof fn lemma_produced_holds_every_success(reports: Seq<FilterReport>, j: int)
    requires
        0 <= j < reports.len(),
        reports[j].outcome is Ok,
    ensures
        produced_by(reports).contains(reports[j].outcome->Ok_0@),
    decreases reports.len(),
{
    let before = produced_by(reports.drop_last());
    if j == reports.len() - 1 {
        let file = reports[j].outcome->Ok_0@;
        assert(before.push(file)[before.len() as int] == file);
    } else {
        lemma_produced_holds_every_success(reports.drop_last(), j);
        let file = reports[j].outcome->Ok_0@;
        let i = choose|i: int| 0 <= i < before.len() && before[i] == file;
        assert(produced_by(reports)[i] == file);
    }
}

/// What is handed back on a failure holds nothing but files of units that
/// succeeded.
pub proof fn lemma_produced_only_by_success(reports: Seq<FilterReport>, i: int)
    requires
        0 <= i < produced_by(reports).len(),
    ensures
        exists|j: int|
            0 <= j < reports.len() && (#[trigger] reports[j]).outcome is Ok
                && reports[j].outcome->Ok_0@ == produced_by(reports)[i],
    decreases reports.len(),
{
    if reports.len() > 0 {
        let front = reports.drop_last();
        let before = produced_by(front);
        if i < before.len() {
            lemma_produced_only_by_success(front, i);
            let j = choose|j: int|
                0 <= j < front.len() && (#[trigger] front[j]).outcome is Ok
                    && front[j].outcome->Ok_0@ == before[i];
            assert(reports[j] == front[j]);
        } else {
            assert(reports[reports.len() - 1].outcome is Ok);
        }
    }
}

/// When the stage fails and what it hands back is released, the temporary
/// output of every unit that succeeded is among the paths to remove.
pub proof fn lemma_failure_removes_every_output(reports: Seq<FilterReport>, j: int)
    requires
        0 <= j < reports.len(),
        reports[j].outcome is Ok,
        reports[j].outcome->Ok_0@.will_be_deleted,
    ensures
        to_remove(produced_by(reports)).contains(reports[j].outcome->Ok_0@.path),
{
    lemma_produced_holds_every_success(reports, j);
    let file = reports[j].outcome->Ok_0@;
    let i = choose|i: int| 0 <= i < produced_by(reports).len() && produced_by(reports)[i] == file;
    lemma_temporary_is_removed(produced_by(reports), i);
}

/// Whether `reports` holds one report for each of `n` inputs.
pub fn is_complete(n: usize, reports: &Vec<FilterReport>) -> (r: bool)
    ensures
        r == one_report_each(reports@, n as nat),
{
    if reports.len() != n {
        return false;
    }
    let mut j: usize = 0;
    while j < n
        invariant
            j <= n,
            n == reports@.len(),
            forall|i: int| 0 <= i < j ==> (#[trigger] reports@[i]).index < n,
            forall|a: int, b: int|
                0 <= a < b < j ==> (#[trigger] reports@[a]).index != (#[trigger] reports@[b]).index,
        decreases n - j,
    {
        if reports[j].index >= n {
            return false;
        }
        let mut i: usize = 0;
        while i < j
            invariant
                i <= j < n,
                n == reports@.len(),
                forall|a: int|
                    0 <= a < i ==> (#[trigger] reports@[a]).index != reports@[j as int].index,
            decreases j - i,
        {
            if reports[i].index == reports[j].index {
                return false;
            }
            i += 1;
        }
        j += 1;
    }
    let mut k: usize = 0;
    while k < n
        invariant
            k <= n,
            n == reports@.len(),
            forall|w: int| 0 <= w < k ==> #[trigger] has_report_on(reports@, w),
        decreases n - k,
    {
        let mut found = false;
        let mut i: usize = 0;
        while i < n && !found
            invariant
                i <= n,
                n == reports@.len(),
                found ==> has_report_on(reports@, k as int),
                !found ==> forall|a: int| 0 <= a < i ==> (#[trigger] reports@[a]).index != k,
            decreases n - i,
        {
            if reports[i].index == k {
                found = true;
            }
            i += 1;
        }
        if !found {
            assert(!has_report_on(reports@, k as int));
            return false;
        }
        k += 1;
    }
    true
}

/// Position of the report on input `k`.
fn report_on(reports: &Vec<FilterReport>, k: usize) -> (j: usize)
    requires
        one_report_each(reports@, reports@.len()),
        k < reports@.len(),
    ensures
        j < reports@.len(),
        reports@[j as int].index == k,
{
    let mut j: usize = 0;
    while j < reports.len()
        invariant
            j <= reports.len(),
            one_report_each(reports@, reports@.len()),
            k < reports@.len(),
            forall|i: int| 0 <= i < j ==> (#[trigger] reports@[i]).index != k,
        decreases reports.len() - j,
    {
        if reports[j].index == k {
            return j;
        }
        j += 1;
    }
    proof {
        assert(has_report_on(reports@, k as int));
        assert(false);
    }
    0
}

/// The fan-in of the filter stage. `reports` holds the units' reports in
/// the order in which they arrived, one for each of `n` inputs.
///
/// With every report a success the result is the `n` filtered files in
/// input order: the file at position `k` is the one reported for input `k`.
/// Otherwise the stage fails with the error that arrived first, and hands
/// back every file that a unit did produce, in arrival order.
pub fn collect_filtered(n: usize, reports: &Vec<FilterReport>) -> (r: Result<
    Vec<VcfFile>,
    FilterFailure,
>)
    requires
        one_report_each(reports@, n as nat),
    ensures
        match first_failure(reports@) {
            None => r is Ok && r->Ok_0@.len() == n && forall|j: int|
                0 <= j < n ==> (#[trigger] reports@[j]).outcome is Ok
                    && r->Ok_0@[reports@[j].index as int]@ == reports@[j].outcome->Ok_0@,
            Some(e) => r is Err && r->Err_0.error@ == e && models_of(r->Err_0.produced@)
                == produced_by(reports@),
        },
{
    let mut produced: Vec<VcfFile> = Vec::new();
    let mut failure: Option<PipelineError> = None;
    let mut j: usize = 0;
    while j < reports.len()
        invariant
            j <= reports.len(),
            models_of(produced@) == produced_by(reports@.take(j as int)),
            match failure {
                Some(e) => first_failure(reports@.take(j as int)) == Some(e@),
                None => first_failure(reports@.take(j as int)) is None,
            },
        decreases reports.len() - j,
    {
        proof {
            assert(reports@.take(j + 1).drop_last() =~= reports@.take(j as int));
            assert(reports@.take(j + 1).last() == reports@[j as int]);
        }
        match &reports[j].outcome {
            Ok(file) => {
                let copy = file.duplicate();
                proof {
                    assert(models_of(produced@.push(copy)) =~= models_of(produced@).push(file@));
                }
                produced.push(copy);
            },
            Err(e) => {
                if failure.is_none() {
                    failure = Some(e.duplicate());
                }
            },
        }
        j += 1;
    }
    proof {
        assert(reports@.take(reports@.len() as int) =~= reports@);
    }
    match failure {
        Some(error) => Err(FilterFailure { error, produced }),
        None => {
            proof {
                lemma_no_failure_iff_all_succeeded(reports@);
            }
            let mut files: Vec<VcfFile> = Vec::new();
            let mut k: usize = 0;
            while k < n
                invariant
                    k <= n,
                    n == reports@.len(),
                    one_report_each(reports@, n as nat),
                    files@.len() == k,
                    forall|i: int|
                        0 <= i < n ==> (#[trigger] reports@[i]).outcome is Ok,
                    forall|i: int|
                        0 <= i < n && reports@[i].index < k ==> files@[(
                        #[trigger] reports@[i]).index as int]@ == reports@[i].outcome->Ok_0@,
                decreases n - k,
            {
                let at = report_on(reports, k);
                let ghost before = files@;
                match &reports[at].outcome {
                    Ok(file) => {
                        files.push(file.duplicate());
                    },
                    Err(_) => {
                        proof {
                            assert(false);
                        }
                    },
                }
                proof {
                    assert forall|i: int| 0 <= i < n && reports@[i].index < k + 1 implies files@[(
                    #[trigger] reports@[i]).index as int]@ == reports@[i].outcome->Ok_0@ by {
                        if reports@[i].index == k {
                            assert(i == at) by {
                                if i < at {
                                    assert(reports@[i].index != reports@[at as int].index);
                                } else if at < i {
                                    assert(reports@[at as int].index != reports@[i].index);
                                }
                            }
                        } else {
                            let slot = reports@[i].index as int;
                            assert(files@[slot] == before[slot]);
                        }
                    }
                }
                k += 1;
            }
            proof {
                assert forall|j: int| 0 <= j < n implies (#[trigger] reports@[j]).outcome is Ok
                    && files@[reports@[j].index as int]@ == reports@[j].outcome->Ok_0@ by {
                    assert(reports@[j].index < n);
                }
            }
            Ok(files)
        },
    }
}

} // verus!
