use annotate_positive_snps::concat_vcf::{concat_arguments, concat_vcf_files};
use annotate_positive_snps::errors::PipelineError;
use annotate_positive_snps::filter_snp::{collect_filtered, filter_snps, FilterReport};
use annotate_positive_snps::fm::{FileManage, VcfFile};
use annotate_positive_snps::process::ProcessOutcome;
use annotate_positive_snps::text::{join, split};
use annotate_positive_snps::summarization::{
    parse_ann_vcf_result, parse_vcf_line, record_of_line, AnnotationExtractor, VcfRecord,
};

fn strings(items: &[&str]) -> Vec<String> {
    items.iter().map(|s| s.to_string()).collect()
}

const DECLARATION: &str =
    "##INFO=<ID=ANN,Number=.,Type=String,Description=\"Functional annotations: 'A | B | C' \">";

fn variant(annotation: &str) -> String {
    format!("1\t100\trs1\tA\tG\t.\tPASS\t{}\tGT\t0/1", annotation)
}

#[test]
fn declaration_line_gives_the_trimmed_field_names() {
    assert_eq!(parse_vcf_line(DECLARATION), Ok(VcfRecord::Header(strings(&["A", "B", "C"]))));
    let real = "##INFO=<ID=ANN,Number=.,Type=String,Description=\"Functional annotations: 'Allele | Annotation | Annotation_Impact | Gene_Name' \">";
    assert_eq!(
        parse_vcf_line(real),
        Ok(VcfRecord::Header(strings(&["Allele", "Annotation", "Annotation_Impact", "Gene_Name"])))
    );
}

#[test]
fn declaration_with_empty_list_gives_one_empty_field() {
    let line = "##INFO=<Description=\"Functional annotations: ''\">";
    assert_eq!(parse_vcf_line(line), Ok(VcfRecord::Header(strings(&[""]))));
}

#[test]
fn other_metadata_and_comment_lines_say_nothing() {
    assert_eq!(parse_vcf_line("##fileformat=VCFv4.2"), Ok(VcfRecord::Nothing));
    assert_eq!(
        parse_vcf_line("##INFO=<ID=DP,Number=1,Type=Integer,Description=\"Depth\">"),
        Ok(VcfRecord::Nothing)
    );
    assert_eq!(parse_vcf_line("#CHROM\tPOS\tID"), Ok(VcfRecord::Nothing));
    assert_eq!(
        parse_vcf_line("#\"Functional annotations: 'A|B'"),
        Ok(VcfRecord::Nothing)
    );
}

#[test]
fn variant_line_gives_the_values_of_the_annotation_column() {
    assert_eq!(
        parse_vcf_line(&variant("x| y |z")),
        Ok(VcfRecord::Record(strings(&["x", "y", "z"])))
    );
    assert_eq!(
        parse_vcf_line("0\t1\t2\t3\t4\t5\t6\tlast"),
        Ok(VcfRecord::Record(strings(&["last"])))
    );
}

#[test]
fn variant_line_without_annotation_column_is_rejected() {
    assert_eq!(parse_vcf_line("0\t1\t2\t3\t4\t5\t6"), Err(PipelineError::AnnotationColumnMissing));
    assert_eq!(parse_vcf_line(""), Err(PipelineError::AnnotationColumnMissing));
}

#[test]
fn record_of_line_follows_the_capture() {
    assert_eq!(
        record_of_line("##x", Some(Some("P|Q".to_string()))),
        Ok(VcfRecord::Header(strings(&["P", "Q"])))
    );
    assert_eq!(record_of_line("##x", Some(None)), Err(PipelineError::DescriptionNotCaptured));
    assert_eq!(record_of_line("##x", None), Ok(VcfRecord::Nothing));
    assert_eq!(record_of_line("#x", Some(Some("P|Q".to_string()))), Ok(VcfRecord::Nothing));
    assert_eq!(
        record_of_line("a\tb\tc\td\te\tf\tg\th|i", Some(Some("P|Q".to_string()))),
        Ok(VcfRecord::Record(strings(&["h", "i"])))
    );
}

#[test]
fn declaration_then_matching_variant_gives_header_once_and_row() {
    let mut extractor = AnnotationExtractor::new().unwrap();
    assert!(!extractor.is_emitting());
    assert_eq!(extractor.feed_line("##fileformat=VCFv4.2"), Ok(None));
    assert_eq!(extractor.feed_line(DECLARATION), Ok(Some("A\tB\tC".to_string())));
    assert!(extractor.is_emitting());
    assert_eq!(extractor.feed_line("#CHROM\tPOS"), Ok(None));
    assert_eq!(extractor.feed_line(&variant("1|2|3")), Ok(Some("1\t2\t3".to_string())));
    assert_eq!(extractor.feed_line(DECLARATION), Ok(None));
    assert_eq!(extractor.feed_line(&variant("4|5|6")), Ok(Some("4\t5\t6".to_string())));
}

#[test]
fn variant_before_declaration_is_rejected_and_nothing_is_written() {
    let lines = vec!["##fileformat=VCFv4.2".to_string(), variant("1|2|3"), DECLARATION.to_string()];
    let out = parse_ann_vcf_result(&lines).unwrap();
    assert_eq!(out.error, Some(PipelineError::SchemaNotYetEstablished));
    assert!(out.rows.is_empty());
}

#[test]
fn mismatch_names_line_and_counts() {
    let lines = vec![
        "##fileformat=VCFv4.2".to_string(),
        DECLARATION.to_string(),
        "#CHROM\tPOS".to_string(),
        variant("1|2|3"),
        variant("1|2"),
        variant("7|8|9"),
    ];
    let out = parse_ann_vcf_result(&lines).unwrap();
    assert_eq!(out.error, Some(PipelineError::SchemaMismatch { line: 5, expected: 3, actual: 2 }));
    assert_eq!(out.rows, strings(&["A\tB\tC", "1\t2\t3"]));
}

#[test]
fn mismatch_with_more_values_than_fields() {
    let mut extractor = AnnotationExtractor::new().unwrap();
    assert_eq!(extractor.feed_line(DECLARATION), Ok(Some("A\tB\tC".to_string())));
    assert_eq!(
        extractor.feed_line(&variant("1|2|3|4")),
        Err(PipelineError::SchemaMismatch { line: 2, expected: 3, actual: 4 })
    );
}

#[test]
fn feed_record_passes_a_parse_failure_on() {
    let mut extractor = AnnotationExtractor::new().unwrap();
    assert_eq!(
        extractor.feed_record(Err(PipelineError::AnnotationColumnMissing)),
        Err(PipelineError::AnnotationColumnMissing)
    );
    assert_eq!(
        extractor.feed_record(Ok(VcfRecord::Header(strings(&["A", "B"])))),
        Ok(Some("A\tB".to_string()))
    );
    assert_eq!(
        extractor.feed_record(Ok(VcfRecord::Record(strings(&["1"])))),
        Err(PipelineError::SchemaMismatch { line: 3, expected: 2, actual: 1 })
    );
    assert_eq!(extractor.feed_record(Ok(VcfRecord::Nothing)), Ok(None));
}

#[test]
fn empty_file_gives_nothing() {
    let out = parse_ann_vcf_result(&Vec::new()).unwrap();
    assert_eq!(out.error, None);
    assert!(out.rows.is_empty());
}

#[test]
fn whole_pipeline_on_stubbed_tools() {
    let inputs = vec![VcfFile::new("in/part1.vcf"), VcfFile::new("in/part2.vcf.gz")];
    let done = ProcessOutcome::new(true, Some(0), "");
    let reports = vec![
        FilterReport { index: 1, outcome: filter_snps(&inputs[1], "temp/filter_snp_2", &done) },
        FilterReport { index: 0, outcome: filter_snps(&inputs[0], "temp/filter_snp_1", &done) },
    ];
    let filtered = collect_filtered(2, &reports).unwrap();
    assert_eq!(
        concat_arguments(&filtered),
        strings(&["temp/filter_snp_1.recode.vcf", "temp/filter_snp_2.recode.vcf"])
    );
    let merged = concat_vcf_files("temp/concated", &done).unwrap();
    assert_eq!(merged.get_path(), "temp/concated.vcf");
    let mut annotated =
        annotate_positive_snps::annotation::annotate_snps("out/result", &done).unwrap().annotated;
    annotated.set_will_be_deleted(false);
    assert_eq!(annotated.get_path(), "out/result.vcf");
    assert_eq!(annotated.finalize(), None);

    let fixture = vec![
        "##fileformat=VCFv4.2".to_string(),
        "##INFO=<ID=ANN,Number=.,Type=String,Description=\"Functional annotations: 'Allele | Annotation | Gene_Name' \">".to_string(),
        "#CHROM\tPOS\tID\tREF\tALT\tQUAL\tFILTER\tINFO".to_string(),
        "1\t100\trs1\tA\tG\t.\tPASS\tG|missense_variant|MRC1".to_string(),
        "1\t200\trs2\tC\tT\t.\tPASS\tT|synonymous_variant|MRC1".to_string(),
        "1\t300\trs3\tG\tA\t.\tPASS\tA|intron_variant|MRC1".to_string(),
    ];
    let out = parse_ann_vcf_result(&fixture).unwrap();
    assert_eq!(out.error, None);
    assert_eq!(out.rows.len(), 4);
    assert_eq!(out.rows[0], "Allele\tAnnotation\tGene_Name");
    assert_eq!(out.rows[1], "G\tmissense_variant\tMRC1");
    assert_eq!(out.rows[3], "A\tintron_variant\tMRC1");
}

#[test]
fn row_splits_back_into_the_values() {
    for annotation in [" a |b b|  |c", "x", "|", "1|2|3|4|5"] {
        let values = match parse_vcf_line(&variant(annotation)) {
            Ok(VcfRecord::Record(values)) => values,
            other => panic!("not a variant: {:?}", other),
        };
        let row = join(&values, "\t");
        assert_eq!(split(&row, '\t'), values);
    }
}

#[test]
fn schema_stays_after_a_second_declaration() {
    let second = "##INFO=<Description=\"Functional annotations: 'X | Y'\">";
    let lines = vec![
        DECLARATION.to_string(),
        second.to_string(),
        variant("1|2|3"),
        variant("1|2"),
    ];
    let out = parse_ann_vcf_result(&lines).unwrap();
    assert_eq!(out.rows, strings(&["A\tB\tC", "1\t2\t3"]));
    assert_eq!(out.error, Some(PipelineError::SchemaMismatch { line: 4, expected: 3, actual: 2 }));
}

#[test]
fn well_formed_file_gives_header_and_one_row_per_variant() {
    let mut lines = vec!["##fileformat=VCFv4.2".to_string(), DECLARATION.to_string()];
    for n in 0..25 {
        lines.push(format!("#comment {}", n));
        lines.push(variant(&format!("{}|{}|{}", n, n + 1, n + 2)));
    }
    let out = parse_ann_vcf_result(&lines).unwrap();
    assert_eq!(out.error, None);
    assert_eq!(out.rows.len(), 1 + 25);
    assert_eq!(out.rows[0], "A\tB\tC");
    for n in 0..25 {
        assert_eq!(out.rows[1 + n], format!("{}\t{}\t{}", n, n + 1, n + 2));
    }
}

#[test]
fn comment_lines_change_no_row() {
    let lines = vec![DECLARATION.to_string(), variant("1|2|3"), variant("4|5|6")];
    let plain = parse_ann_vcf_result(&lines).unwrap();
    for at in 0..=lines.len() {
        let mut more = lines.clone();
        more.insert(at, "#a comment".to_string());
        let out = parse_ann_vcf_result(&more).unwrap();
        assert_eq!(out.rows, plain.rows);
        assert_eq!(out.error, None);
    }
}

#[test]
fn missing_schema_comes_only_from_a_variant_before_the_declaration() {
    let before = vec!["#c".to_string(), variant("1|2|3"), DECLARATION.to_string()];
    assert_eq!(
        parse_ann_vcf_result(&before).unwrap().error,
        Some(PipelineError::SchemaNotYetEstablished)
    );
    let after = vec!["#c".to_string(), DECLARATION.to_string(), variant("1|2|3")];
    assert_eq!(parse_ann_vcf_result(&after).unwrap().error, None);
    let none = vec!["#c".to_string(), "##other".to_string()];
    assert_eq!(parse_ann_vcf_result(&none).unwrap().error, None);
}
