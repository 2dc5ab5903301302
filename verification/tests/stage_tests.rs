use annotate_positive_snps::annotation::{
    annotate_snps, annotation_arguments, stats_report, summary_report,
};
use annotate_positive_snps::concat_vcf::{concat_arguments, concat_vcf_files};
use annotate_positive_snps::errors::PipelineError;
use annotate_positive_snps::filter_snp::{
    collect_filtered, filter_arguments, filter_snps, FilterReport,
};
use annotate_positive_snps::fm::{
    file_type_of, release_all, removal_report, Binary, FileManage, FileType, VcfFile,
    VcfFileBuilder,
};
use annotate_positive_snps::process::{finish_stage, ProcessOutcome};

fn strings(items: &[&str]) -> Vec<String> {
    items.iter().map(|s| s.to_string()).collect()
}

fn success() -> ProcessOutcome {
    ProcessOutcome::new(true, Some(0), "")
}

#[test]
fn it_works() {
    let result = annotate_positive_snps::concat_vcf::add(2, 2);
    assert_eq!(result, 4);
}

#[test]
fn lib_it_works() {
    let result = annotate_positive_snps::summarization::add(2, 2);
    assert_eq!(result, 4);
}

#[test]
fn test_concat_vcf_files() {
    let input_vcfs: Vec<VcfFile> = vec![
        "../../run/MRC1_part1-filtered.recode.vcf",
        "../../run/MRC1_part2-filtered.recode.vcf",
        "../../run/MRC1_part3-filtered.recode.vcf",
    ]
    .into_iter()
    .map(|s| VcfFile::builder(s).will_be_deleted(false).build())
    .collect();
    assert_eq!(
        concat_arguments(&input_vcfs),
        strings(&[
            "../../run/MRC1_part1-filtered.recode.vcf",
            "../../run/MRC1_part2-filtered.recode.vcf",
            "../../run/MRC1_part3-filtered.recode.vcf",
        ])
    );
    let mut res_vcf =
        concat_vcf_files("../../run/MRC1-concat-filtered.recode", &success()).unwrap();
    assert_eq!(res_vcf.get_path(), "../../run/MRC1-concat-filtered.vcf");
    assert!(res_vcf.get_will_be_deleted());
    res_vcf.set_will_be_deleted(false);
    assert!(!res_vcf.get_will_be_deleted());
}

#[test]
fn new_handle_is_permanent() {
    let f = VcfFile::new("in/a.vcf");
    assert_eq!(f.get_path(), "in/a.vcf");
    assert!(!f.get_will_be_deleted());
    assert_eq!(f.type_of(), FileType::Vcf);
    assert_eq!(f.finalize(), None);
}

#[test]
fn builder_sets_the_deletion_flag() {
    let f = VcfFileBuilder::new("t/x.vcf.gz").will_be_deleted(true).build();
    assert_eq!(f.get_path(), "t/x.vcf.gz");
    assert!(f.get_will_be_deleted());
    assert_eq!(f.type_of(), FileType::VcfGz);
    let g = VcfFile::builder("t/y.bed").build();
    assert!(!g.get_will_be_deleted());
    assert_eq!(g.type_of(), FileType::Other);
}

#[test]
fn temporary_file_is_released_and_permanent_is_kept() {
    let t = VcfFile::builder("t/x.vcf").will_be_deleted(true).build();
    assert_eq!(t.finalize(), Some("t/x.vcf".to_string()));
    let mut p = VcfFile::builder("t/x.vcf").will_be_deleted(true).build();
    p.mark_permanent();
    assert!(!p.get_will_be_deleted());
    p.mark_permanent();
    assert!(!p.get_will_be_deleted());
    assert_eq!(p.get_path(), "t/x.vcf");
    assert_eq!(p.finalize(), None);
}

#[test]
fn duplicate_keeps_path_and_flag() {
    let t = VcfFile::builder("t/x.vcf").will_be_deleted(true).build();
    let d = t.duplicate();
    assert_eq!(d.get_path(), "t/x.vcf");
    assert!(d.get_will_be_deleted());
    assert_eq!(d.type_of(), FileType::Vcf);
}

#[test]
fn removal_that_failed_is_a_warning() {
    assert_eq!(removal_report("t/x.vcf", true), None);
    let w = removal_report("t/x.vcf", false).unwrap();
    assert_eq!(w, PipelineError::ResourceCleanupWarning { path: "t/x.vcf".to_string() });
    assert!(w.is_warning());
    assert!(!PipelineError::NoOutputProduced.is_warning());
    assert_eq!(w.duplicate(), w);
}

#[test]
fn file_types_by_name() {
    assert_eq!(file_type_of("a.vcf"), FileType::Vcf);
    assert_eq!(file_type_of("a.vcf.gz"), FileType::VcfGz);
    assert_eq!(file_type_of("a.bed"), FileType::Other);
    assert_eq!(file_type_of("a.gz"), FileType::Other);
    assert_eq!(file_type_of(""), FileType::Other);
}

#[test]
fn binary_names() {
    assert_eq!(Binary::Vcftools.name(), "vcftools");
    assert_eq!(Binary::VcfConcat.name(), "vcf-concat");
    assert_eq!(Binary::Plink.name(), "plink");
    assert_eq!(Binary::SnpEff.name(), "snpEff.jar");
    assert_eq!(Binary::Vcftools.name_on(true), "vcftools.exe");
    assert_eq!(Binary::VcfConcat.name_on(true), "vcf-concat.exe");
    assert_eq!(Binary::Plink.name_on(true), "plink.exe");
    assert_eq!(Binary::SnpEff.name_on(true), "snpEff.jar");
    assert_eq!(Binary::Vcftools.env_name(), "VCFTOOLS_PATH");
    assert_eq!(Binary::VcfConcat.env_name(), "VCFCONCAT_PATH");
    assert_eq!(Binary::Plink.env_name(), "PLINK_PATH");
    assert_eq!(Binary::SnpEff.env_name(), "SNPEFF_PATH");
}

#[test]
fn stage_verdicts() {
    let ok = finish_stage(&success(), "t/out.vcf").unwrap();
    assert_eq!(ok.get_path(), "t/out.vcf");
    assert!(ok.get_will_be_deleted());

    let failed = finish_stage(&ProcessOutcome::new(true, Some(2), "boom"), "t/out.vcf");
    assert_eq!(
        failed.unwrap_err(),
        PipelineError::ExternalToolFailure { exit_code: Some(2), stderr: "boom".to_string() }
    );

    let killed = finish_stage(&ProcessOutcome::new(true, None, ""), "t/out.vcf");
    assert_eq!(
        killed.unwrap_err(),
        PipelineError::ExternalToolFailure { exit_code: None, stderr: String::new() }
    );

    let silent = finish_stage(&ProcessOutcome::new(false, Some(0), ""), "t/out.vcf");
    assert_eq!(silent.unwrap_err(), PipelineError::NoOutputProduced);

    let silent_and_failed = finish_stage(&ProcessOutcome::new(false, Some(1), "x"), "t/out.vcf");
    assert_eq!(silent_and_failed.unwrap_err(), PipelineError::NoOutputProduced);
}

#[test]
fn error_text_alone_does_not_fail_a_stage() {
    let chatty = ProcessOutcome::new(true, Some(0), "note: 3 sites kept");
    assert_eq!(chatty.diagnostic(), Some("note: 3 sites kept"));
    assert!(chatty.succeeded());
    assert!(finish_stage(&chatty, "t/out.vcf").is_ok());
    assert_eq!(success().diagnostic(), None);
    assert!(!ProcessOutcome::new(true, Some(1), "").succeeded());
    assert!(!ProcessOutcome::new(true, None, "").succeeded());
}

#[test]
fn filter_arguments_by_format() {
    let plain = VcfFile::new("in/a.vcf");
    assert_eq!(
        filter_arguments(&plain, "ids.txt", "temp/filter_snp_1").unwrap(),
        strings(&[
            "--vcf",
            "in/a.vcf",
            "--snps",
            "ids.txt",
            "--recode",
            "--recode-INFO-all",
            "--out",
            "temp/filter_snp_1",
        ])
    );
    let packed = VcfFile::new("in/a.vcf.gz");
    assert_eq!(
        filter_arguments(&packed, "ids.txt", "temp/filter_snp_2").unwrap(),
        strings(&[
            "--gzvcf",
            "in/a.vcf.gz",
            "--snps",
            "ids.txt",
            "--recode",
            "--recode-INFO-all",
            "--out",
            "temp/filter_snp_2",
        ])
    );
    let other = VcfFile::new("in/a.bed");
    assert_eq!(
        filter_arguments(&other, "ids.txt", "temp/filter_snp_3").unwrap_err(),
        PipelineError::UnsupportedFormat
    );
}

#[test]
fn filter_result_by_outcome() {
    let plain = VcfFile::new("in/a.vcf");
    let f = filter_snps(&plain, "temp/filter_snp_1", &success()).unwrap();
    assert_eq!(f.get_path(), "temp/filter_snp_1.recode.vcf");
    assert!(f.get_will_be_deleted());
    assert_eq!(
        filter_snps(&plain, "temp/filter_snp_1", &ProcessOutcome::new(true, Some(1), "bad"))
            .unwrap_err(),
        PipelineError::ExternalToolFailure { exit_code: Some(1), stderr: "bad".to_string() }
    );
    let other = VcfFile::new("in/a.bed");
    assert_eq!(
        filter_snps(&other, "temp/filter_snp_1", &success()).unwrap_err(),
        PipelineError::UnsupportedFormat
    );
}

fn report(index: usize, outcome: &ProcessOutcome) -> FilterReport {
    let source = VcfFile::new("in/a.vcf");
    let prefix = format!("temp/filter_snp_{}", index + 1);
    FilterReport { index, outcome: filter_snps(&source, &prefix, outcome) }
}

#[test]
fn all_filters_succeed_gives_files_in_input_order() {
    let reports = vec![report(2, &success()), report(0, &success()), report(1, &success())];
    let files = collect_filtered(3, &reports).unwrap();
    let paths: Vec<&str> = files.iter().map(|f| f.get_path()).collect();
    assert_eq!(
        paths,
        vec![
            "temp/filter_snp_1.recode.vcf",
            "temp/filter_snp_2.recode.vcf",
            "temp/filter_snp_3.recode.vcf",
        ]
    );
    assert!(files.iter().all(|f| f.get_will_be_deleted()));
}

#[test]
fn single_filter_succeeds() {
    let reports = vec![report(0, &success())];
    let files = collect_filtered(1, &reports).unwrap();
    assert_eq!(files.len(), 1);
    assert_eq!(files[0].get_path(), "temp/filter_snp_1.recode.vcf");
}

#[test]
fn one_failed_filter_fails_the_stage_and_hands_back_the_rest() {
    let reports = vec![
        report(2, &success()),
        report(0, &ProcessOutcome::new(true, Some(3), "first")),
        report(1, &success()),
        report(3, &ProcessOutcome::new(true, Some(4), "second")),
    ];
    let failure = collect_filtered(4, &reports).unwrap_err();
    assert_eq!(
        failure.error,
        PipelineError::ExternalToolFailure { exit_code: Some(3), stderr: "first".to_string() }
    );
    let paths: Vec<&str> = failure.produced.iter().map(|f| f.get_path()).collect();
    assert_eq!(paths, vec!["temp/filter_snp_3.recode.vcf", "temp/filter_snp_2.recode.vcf"]);
    assert_eq!(
        release_all(failure.produced),
        strings(&["temp/filter_snp_3.recode.vcf", "temp/filter_snp_2.recode.vcf"])
    );
}

#[test]
fn releasing_files_removes_the_temporary_ones_only() {
    let files = vec![
        VcfFile::builder("t/a.vcf").will_be_deleted(true).build(),
        VcfFile::new("in/b.vcf"),
        VcfFile::builder("t/c.vcf").will_be_deleted(true).build(),
    ];
    assert_eq!(release_all(files), strings(&["t/a.vcf", "t/c.vcf"]));
    assert_eq!(release_all(Vec::new()), Vec::<String>::new());
    assert_eq!(release_all(vec![VcfFile::new("in/b.vcf")]), Vec::<String>::new());
}

#[test]
fn annotation_arguments_and_reports() {
    let merged = VcfFile::builder("temp/concated.vcf").will_be_deleted(true).build();
    assert_eq!(
        annotation_arguments("/opt/snpEff.jar", &merged, "GRCh38.p14", "out/result"),
        strings(&[
            "-jar",
            "/opt/snpEff.jar",
            "ann",
            "GRCh38.p14",
            "-csvStats",
            "out/result_stats.csv",
            "-htmlStats",
            "out/result_summary.html",
            "temp/concated.vcf",
        ])
    );
    assert_eq!(stats_report("result"), "result_stats.csv");
    assert_eq!(summary_report("/result"), "/result_summary.html");
}

#[test]
fn annotation_outputs_by_outcome() {
    let out = annotate_snps("out/result", &success()).unwrap();
    assert_eq!(out.annotated.get_path(), "out/result.vcf");
    assert!(out.annotated.get_will_be_deleted());
    assert_eq!(out.stats_report, "out/result_stats.csv");
    assert_eq!(out.summary_report, "out/result_summary.html");
    assert_eq!(
        annotate_snps("out/result", &ProcessOutcome::new(false, None, "")).unwrap_err(),
        PipelineError::NoOutputProduced
    );
    assert_eq!(
        annotate_snps("out/result", &ProcessOutcome::new(true, Some(1), "java")).unwrap_err(),
        PipelineError::ExternalToolFailure { exit_code: Some(1), stderr: "java".to_string() }
    );
}
