//! The failures a stage of the pipeline can report.

use crate::text::{decimal, decimal_digits, signed_decimal, signed_decimal_digits};
use vstd::prelude::*;

verus! {

/// Why a stage failed, or what it warns of.
#[derive(Debug, PartialEq, Eq)]
pub enum PipelineError {
    /// The external tool ended with a status other than zero. A tool ended
    /// by a signal has no exit code.
    ExternalToolFailure { exit_code: Option<i32>, stderr: String },
    /// The external tool was started but offered no output stream.
    NoOutputProduced,
    /// The input's format has no invocation mode.
    UnsupportedFormat,
    /// A data line came before any line that declares the annotation fields.
    SchemaNotYetEstablished,
    /// A data line's annotation has another number of fields than declared.
    SchemaMismatch { line: u64, expected: usize, actual: usize },
    /// A temporary file could not be removed. Never fatal.
    ResourceCleanupWarning { path: String },
    /// A data line has fewer columns than the annotation column's position.
    AnnotationColumnMissing,
    /// The pattern that recognises the declaring line was not accepted.
    DescriptionPatternRejected,
    /// The pattern matched a line without capturing the field list.
    DescriptionNotCaptured,
}

/// A `PipelineError` with its texts as sequences of characters.
pub enum ErrorModel {
    ExternalToolFailure { exit_code: Option<i32>, stderr: Seq<char> },
    NoOutputProduced,
    UnsupportedFormat,
    SchemaNotYetEstablished,
    SchemaMismatch { line: u64, expected: usize, actual: usize },
    ResourceCleanupWarning { path: Seq<char> },
    AnnotationColumnMissing,
    DescriptionPatternRejected,
    DescriptionNotCaptured,
}

impl View for PipelineError {
    type V = ErrorModel;

    open spec fn view(&self) -> ErrorModel {
        match *self {
            PipelineError::ExternalToolFailure { exit_code, stderr } => {
                ErrorModel::ExternalToolFailure { exit_code, stderr: stderr@ }
            },
            PipelineError::NoOutputProduced => ErrorModel::NoOutputProduced,
            PipelineError::UnsupportedFormat => ErrorModel::UnsupportedFormat,
            PipelineError::SchemaNotYetEstablished => ErrorModel::SchemaNotYetEstablished,
            PipelineError::SchemaMismatch { line, expected, actual } => {
                ErrorModel::SchemaMismatch { line, expected, actual }
            },
            PipelineError::ResourceCleanupWarning { path } => {
                ErrorModel::ResourceCleanupWarning { path: path@ }
            },
            PipelineError::AnnotationColumnMissing => ErrorModel::AnnotationColumnMissing,
            PipelineError::DescriptionPatternRejected => ErrorModel::DescriptionPatternRejected,
            PipelineError::DescriptionNotCaptured => ErrorModel::DescriptionNotCaptured,
        }
    }
}

/// A failure, if any, as its model.
pub open spec fn failure_model(error: Option<PipelineError>) -> Option<ErrorModel> {
    match error {
        Some(e) => Some(e@),
        None => None,
    }
}

/// The text that describes a failure to a reader.
pub open spec fn message_of(e: ErrorModel) -> Seq<char> {
    match e {
        ErrorModel::ExternalToolFailure { exit_code: Some(code), stderr } => {
            "The tool exited with status "@ + signed_decimal_digits(code as int) + ": "@ + stderr
        },
        ErrorModel::ExternalToolFailure { exit_code: None, stderr } => {
            "The tool was ended by a signal: "@ + stderr
        },
        ErrorModel::NoOutputProduced => "The tool failed to generate any output."@,
        ErrorModel::UnsupportedFormat => "The format of the input is not supported."@,
        ErrorModel::SchemaNotYetEstablished => {
            "Got ANN INFO, but header has not been detected!"@
        },
        ErrorModel::SchemaMismatch { line, expected, actual } => {
            "ANN INFO length doesn't match header length at line "@ + decimal_digits(line as nat)
                + ". Expect: "@ + decimal_digits(expected as nat) + "; Got: "@ + decimal_digits(
                actual as nat,
            )
        },
        ErrorModel::ResourceCleanupWarning { path } => "Could not delete temp file "@ + path,
        ErrorModel::AnnotationColumnMissing => "Failed to get the 8th object of a line."@,
        ErrorModel::DescriptionPatternRejected => "Regex pattern for ANN columns was rejected!"@,
        ErrorModel::DescriptionNotCaptured => "Regex pattern failed to get ANN columns!"@,
    }
}

impl PipelineError {
    /// The text that describes this failure to a reader.
    pub fn message(&self) -> (r: String)
        ensures
            r@ == message_of(self@),
    {
        match self {
            PipelineError::ExternalToolFailure { exit_code, stderr } => match exit_code {
                Some(code) => {
                    let mut out = String::from_str("The tool exited with status ");
                    out.append(signed_decimal(*code).as_str());
                    out.append(": ");
                    out.append(stderr.as_str());
                    out
                },
                None => {
                    let mut out = String::from_str("The tool was ended by a signal: ");
                    out.append(stderr.as_str());
                    out
                },
            },
            PipelineError::NoOutputProduced => {
                String::from_str("The tool failed to generate any output.")
            },
            PipelineError::UnsupportedFormat => {
                String::from_str("The format of the input is not supported.")
            },
            PipelineError::SchemaNotYetEstablished => {
                String::from_str("Got ANN INFO, but header has not been detected!")
            },
            PipelineError::SchemaMismatch { line, expected, actual } => {
                let mut out = String::from_str(
                    "ANN INFO length doesn't match header length at line ",
                );
                out.append(decimal(*line).as_str());
                out.append(". Expect: ");
                out.append(decimal(*expected as u64).as_str());
                out.append("; Got: ");
                out.append(decimal(*actual as u64).as_str());
                out
            },
            PipelineError::ResourceCleanupWarning { path } => {
                let mut out = String::from_str("Could not delete temp file ");
                out.append(path.as_str());
                out
            },
            PipelineError::AnnotationColumnMissing => {
                String::from_str("Failed to get the 8th object of a line.")
            },
            PipelineError::DescriptionPatternRejected => {
                String::from_str("Regex pattern for ANN columns was rejected!")
            },
            PipelineError::DescriptionNotCaptured => {
                String::from_str("Regex pattern failed to get ANN columns!")
            },
        }
    }

    /// An error equal to this one.
    pub fn duplicate(&self) -> (r: PipelineError)
        ensures
            r@ == self@,
    {
        match self {
            PipelineError::ExternalToolFailure { exit_code, stderr } => {
                PipelineError::ExternalToolFailure {
                    exit_code: *exit_code,
                    stderr: stderr.clone(),
                }
            },
            PipelineError::NoOutputProduced => PipelineError::NoOutputProduced,
            PipelineError::UnsupportedFormat => PipelineError::UnsupportedFormat,
            PipelineError::SchemaNotYetEstablished => PipelineError::SchemaNotYetEstablished,
            PipelineError::SchemaMismatch { line, expected, actual } => {
                PipelineError::SchemaMismatch {
                    line: *line,
                    expected: *expected,
                    actual: *actual,
                }
            },
            PipelineError::ResourceCleanupWarning { path } => {
                PipelineError::ResourceCleanupWarning { path: path.clone() }
            },
            PipelineError::AnnotationColumnMissing => PipelineError::AnnotationColumnMissing,
            PipelineError::DescriptionPatternRejected => PipelineError::DescriptionPatternRejected,
            PipelineError::DescriptionNotCaptured => PipelineError::DescriptionNotCaptured,
        }
    }

    /// Whether the pipeline goes on after this report.
    pub fn is_warning(&self) -> (r: bool)
        ensures
            r == (self@ is ResourceCleanupWarning),
    {
        match self {
            PipelineError::ResourceCleanupWarning { .. } => true,
            _ => false,
        }
    }
}

} // verus!
