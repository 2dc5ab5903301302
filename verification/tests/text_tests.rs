use annotate_positive_snps::paths::{file_name, join_path, parent, with_extension};
use annotate_positive_snps::text::{
    ends_with, is_whitespace, join, last_index_of, split, split_trimmed, starts_with, trim,
};

fn strings(items: &[&str]) -> Vec<String> {
    items.iter().map(|s| s.to_string()).collect()
}

#[test]
fn split_gives_one_piece_more_than_separators() {
    assert_eq!(split("a|b|c", '|'), strings(&["a", "b", "c"]));
    assert_eq!(split("", '|'), strings(&[""]));
    assert_eq!(split("|", '|'), strings(&["", ""]));
    assert_eq!(split("a||b|", '|'), strings(&["a", "", "b", ""]));
    assert_eq!(split("no separator", '|'), strings(&["no separator"]));
}

#[test]
fn split_agrees_with_std() {
    for s in ["a\tb\tc", "\t\t", "x", "", "é\tü\t", "1|2\t3|4"] {
        let expected: Vec<String> = s.split('\t').map(|p| p.to_string()).collect();
        assert_eq!(split(s, '\t'), expected);
    }
}

#[test]
fn trim_removes_white_space_at_both_ends_only() {
    assert_eq!(trim("  a b  "), "a b");
    assert_eq!(trim("\t\r\n x \u{a0}\u{3000}"), "x");
    assert_eq!(trim(""), "");
    assert_eq!(trim("   "), "");
    assert_eq!(trim("x"), "x");
}

#[test]
fn trim_agrees_with_std() {
    for s in [" a ", "\u{2003}b\u{85}", "\u{200b}c", "d\u{1680}", "\u{feff}e", " \u{2028}\u{2029} "] {
        assert_eq!(trim(s), s.trim());
    }
}

#[test]
fn whitespace_agrees_with_std_on_every_char() {
    let mut code: u32 = 0;
    while code <= 0x10ffff {
        if let Some(c) = char::from_u32(code) {
            assert_eq!(is_whitespace(c), c.is_whitespace(), "code point {}", code);
        }
        code += 1;
    }
}

#[test]
fn split_trimmed_trims_each_piece() {
    assert_eq!(split_trimmed(" A | B|C ", '|'), strings(&["A", "B", "C"]));
    assert_eq!(split_trimmed("  ", '|'), strings(&[""]));
}

#[test]
fn join_puts_separator_between_neighbours() {
    assert_eq!(join(&strings(&["a", "b", "c"]), "\t"), "a\tb\tc");
    assert_eq!(join(&strings(&["only"]), "\t"), "only");
    assert_eq!(join(&strings(&[]), "\t"), "");
    assert_eq!(join(&strings(&["", ""]), ", "), ", ");
}

#[test]
fn prefix_and_suffix_tests() {
    assert!(starts_with("##INFO=<ID", "##"));
    assert!(starts_with("#CHROM", "#"));
    assert!(!starts_with("#CHROM", "##"));
    assert!(!starts_with("", "#"));
    assert!(starts_with("abc", ""));
    assert!(ends_with("a.vcf.gz", ".vcf.gz"));
    assert!(ends_with("a.vcf", ".vcf"));
    assert!(!ends_with("a.vcf", ".vcf.gz"));
    assert!(!ends_with("vcf", ".vcf"));
    assert!(ends_with("abc", ""));
}

#[test]
fn last_index_of_finds_the_last_occurrence() {
    assert_eq!(last_index_of("a/b/c", '/'), Some(3));
    assert_eq!(last_index_of("/", '/'), Some(0));
    assert_eq!(last_index_of("abc", '/'), None);
    assert_eq!(last_index_of("", '/'), None);
    assert_eq!(last_index_of("é/ü", '/'), Some(1));
}

#[test]
fn with_extension_replaces_or_adds() {
    assert_eq!(with_extension("temp/filter_snp_1", "recode.vcf"), "temp/filter_snp_1.recode.vcf");
    assert_eq!(with_extension("temp/concated", "vcf"), "temp/concated.vcf");
    assert_eq!(with_extension("out/result.txt", "vcf"), "out/result.vcf");
    assert_eq!(with_extension("out.d/result", "vcf"), "out.d/result.vcf");
    assert_eq!(with_extension("out/.hidden", "vcf"), "out/.hidden.vcf");
    assert_eq!(with_extension("a.b.c", "vcf"), "a.b.vcf");
    assert_eq!(
        with_extension("../../run/MRC1-concat-filtered.recode", "vcf"),
        "../../run/MRC1-concat-filtered.vcf"
    );
}

const PATHS: [&str; 50] = [
    "temp/filter_snp_1", "out/result.txt", "out.d/result", "out/.hidden", "a.b.c", "x", "",
    "/", "//", ".", "..", "./", "../", "/.", "/..", "a/", "a//", "a/.", "a/./", "a/..", "a/../",
    "a/b/", "a/b/.", "a//b", "a/./b", "/a", "//a", "/a/b.c/", "./a", ".//a", "...", "a.", "a..",
    ".a.b", "out/", "a/b.txt/.", "x/.y/z.", "/./", "a/b/c.tar.gz", "..a", "..a/", "..ab",
    "x/..a", "..a.b", "...a", "x/..abc/.", "..a//", ".x.", "a/.b/..c", "/..c",
];

#[test]
fn with_extension_agrees_with_std() {
    for p in PATHS {
        for ext in ["vcf", "recode.vcf", ""] {
            let expected = std::path::Path::new(p).with_extension(ext);
            assert_eq!(with_extension(p, ext), expected.to_str().unwrap(), "{:?} {:?}", p, ext);
        }
    }
}

#[test]
fn with_extension_drops_what_trails_the_file_name() {
    assert_eq!(with_extension("out/", "vcf"), "out.vcf");
    assert_eq!(with_extension("a/b/.", "vcf"), "a/b.vcf");
    assert_eq!(with_extension("a/..", "vcf"), "a/..");
    assert_eq!(with_extension("/", "vcf"), "/");
    assert_eq!(with_extension("", "vcf"), "");
    assert_eq!(with_extension("a.txt", ""), "a");
    assert_eq!(with_extension("x/..a", "vcf"), "x/..");
    assert_eq!(with_extension("x/..a/", "vcf"), "x/..vcf");
}

#[test]
fn parent_agrees_with_std() {
    for p in PATHS {
        let expected =
            std::path::Path::new(p).parent().map(|d| d.to_str().unwrap().to_string());
        assert_eq!(parent(p), expected, "{:?}", p);
    }
}

#[test]
fn parent_leaves_out_the_last_component() {
    assert_eq!(parent("out/result"), Some("out".to_string()));
    assert_eq!(parent("/a/b/c"), Some("/a/b".to_string()));
    assert_eq!(parent("/result"), Some("/".to_string()));
    assert_eq!(parent("result"), Some(String::new()));
    assert_eq!(parent("a/b/"), Some("a".to_string()));
    assert_eq!(parent("a/.."), Some("a".to_string()));
    assert_eq!(parent("/"), None);
    assert_eq!(parent(""), None);
}

#[test]
fn file_name_agrees_with_std() {
    for p in PATHS {
        let expected =
            std::path::Path::new(p).file_name().and_then(|n| n.to_str()).unwrap_or("");
        assert_eq!(file_name(p), expected, "{:?}", p);
    }
}

#[test]
fn join_path_agrees_with_std() {
    for dir in ["", "/", "out", "out/", "a/b", "."] {
        for name in ["", "x", "result_stats.csv", "/abs", "a/b"] {
            let expected = std::path::Path::new(dir).join(name);
            assert_eq!(join_path(dir, name), expected.to_str().unwrap(), "{:?} {:?}", dir, name);
        }
    }
}

#[test]
fn join_path_adds_one_slash() {
    assert_eq!(join_path("out", "result_stats.csv"), "out/result_stats.csv");
    assert_eq!(join_path("out/", "result_stats.csv"), "out/result_stats.csv");
    assert_eq!(join_path("", "result_stats.csv"), "result_stats.csv");
    assert_eq!(join_path("/", "x"), "/x");
    assert_eq!(join_path("out", "/abs"), "/abs");
}
