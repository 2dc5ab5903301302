//! Orchestration core of a variant filtering and annotation pipeline:
//! file handles with a deletion policy, argument lists and outcome
//! classification for the external tools, the fan-in of the filter stage,
//! and the extraction of annotation payloads into tab-separated rows.

pub mod annotation;
pub mod concat_vcf;
pub mod errors;
pub mod filter_snp;
pub mod fm;
pub mod paths;
pub mod pipeline;
pub mod process;
pub mod summarization;
pub mod table;
pub mod text;
