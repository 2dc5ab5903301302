//! One run of an external tool, as the pipeline sees it, and the verdict
//! on it.

use crate::errors::{ErrorModel, PipelineError};
use crate::fm::{FileModel, VcfFile};
use vstd::prelude::*;

verus! {

/// What is known of an external tool once it has ended.
pub struct ProcessOutcome {
    /// Whether the tool offered an output stream at all.
    pub has_stdout: bool,
    /// The exit code; none when a signal ended the tool.
    pub exit_code: Option<i32>,
    /// What the tool wrote to its error stream.
    pub stderr: String,
}

/// A `ProcessOutcome` with its text as a sequence of characters.
pub struct OutcomeModel {
    pub has_stdout: bool,
    pub exit_code: Option<i32>,
    pub stderr: Seq<char>,
}

impl View for ProcessOutcome {
    type V = OutcomeModel;

    open spec fn view(&self) -> OutcomeModel {
        OutcomeModel {
            has_stdout: self.has_stdout,
            exit_code: self.exit_code,
            stderr: self.stderr@,
        }
    }
}

/// A stage's result with handle and error as their models.
pub open spec fn result_model(r: Result<VcfFile, PipelineError>) -> Result<FileModel, ErrorModel> {
    match r {
        Ok(f) => Ok(f@),
        Err(e) => Err(e@),
    }
}

/// The verdict on a run that wrote to `destination`: without an output
/// stream nothing was produced; with a status other than zero the tool
/// failed; otherwise the destination is a fresh temporary file.
pub open spec fn stage_verdict(outcome: OutcomeModel, destination: Seq<char>) -> Result<
    FileModel,
    ErrorModel,
> {
    if !outcome.has_stdout {
        Err(ErrorModel::NoOutputProduced)
    } else if outcome.exit_code != Some(0i32) {
        Err(
            ErrorModel::ExternalToolFailure {
                exit_code: outcome.exit_code,
                stderr: outcome.stderr,
            },
        )
    } else {
        Ok(FileModel { path: destination, will_be_deleted: true })
    }
}

impl ProcessOutcome {
    /// The outcome of a tool that ran to its end.
    pub fn new(has_stdout: bool, exit_code: Option<i32>, stderr: &str) -> (r: Self)
        ensures
            r@ == (OutcomeModel { has_stdout, exit_code, stderr: stderr@ }),
    {
        ProcessOutcome { has_stdout, exit_code, stderr: String::from_str(stderr) }
    }

    /// Whether the tool ended with status zero.
    pub fn succeeded(&self) -> (r: bool)
        ensures
            r == (self@.exit_code == Some(0i32)),
    {
        match self.exit_code {
            Some(code) => code == 0,
            None => false,
        }
    }

    /// The tool's error text, when there is any. It does not by itself
    /// fail the stage.
    pub fn diagnostic(&self) -> (r: Option<&str>)
        ensures
            self@.stderr.len() == 0 ==> r is None,
            self@.stderr.len() > 0 ==> r is Some && r->Some_0@ == self@.stderr,
    {
        if self.stderr.as_str().unicode_len() == 0 {
            None
        } else {
            Some(self.stderr.as_str())
        }
    }
}

/// The verdict on a run whose output went to `destination`.
pub fn finish_stage(outcome: &ProcessOutcome, destination: &str) -> (r: Result<
    VcfFile,
    PipelineError,
>)
    ensures
        result_model(r) == stage_verdict(outcome@, destination@),
{
    if !outcome.has_stdout {
        Err(PipelineError::NoOutputProduced)
    } else if !outcome.succeeded() {
        Err(
            PipelineError::ExternalToolFailure {
                exit_code: outcome.exit_code,
                stderr: outcome.stderr.clone(),
            },
        )
    } else {
        Ok(VcfFile::builder(destination).will_be_deleted(true).build())
    }
}

} // verus!
