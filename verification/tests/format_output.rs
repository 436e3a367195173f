use alnview::catalog::{CatalogEntry, SequenceCatalog};
use alnview::format::{
    paf_block_length, paf_matches, print_alignment, print_alignment_human, print_alignment_paf,
    print_trace_data, OutputFormat,
};
use alnview::numfmt::{i128_to_string, i64_to_string, u128_to_string};
use alnview::resolver::{gdb_candidates, ref_role, str_ends_with, strip_fasta_ext, RefRole};
use alnview::summary::print_metadata;
use alnview::unit::AlignmentData;

fn sample() -> AlignmentData {
    AlignmentData {
        query_name: "chrQ".to_string(),
        query_length: 1000,
        query_start: 100,
        query_end: 150,
        target_name: "chrT".to_string(),
        target_length: 2000,
        target_start: 960,
        target_end: 990,
        reverse: true,
        differences: 8,
        tracepoints: vec![50, 100],
        trace_diffs: vec![3, 5],
    }
}

#[test]
fn decimal_rendering() {
    assert_eq!(u128_to_string(0), "0");
    assert_eq!(u128_to_string(90210), "90210");
    assert_eq!(i64_to_string(-42), "-42");
    assert_eq!(i64_to_string(i64::MIN), "-9223372036854775808");
    assert_eq!(i64_to_string(i64::MAX), "9223372036854775807");
    assert_eq!(i128_to_string(-1), "-1");
}

#[test]
fn paf_arithmetic_follows_the_divide_by_two_convention() {
    let a = sample();
    // query span 50, target span 30.
    assert_eq!(paf_block_length(&a), 80);
    assert_eq!(paf_matches(&a), 36);
}

#[test]
fn paf_matches_never_negative_and_block_is_span_sum() {
    let mut a = sample();
    a.differences = 1_000_000;
    assert_eq!(paf_matches(&a), 0);
    // Inverted spans floor at zero.
    a.query_start = 150;
    a.query_end = 100;
    assert_eq!(paf_block_length(&a), 30);
    a.target_start = 990;
    a.target_end = 960;
    assert_eq!(paf_block_length(&a), 0);
    assert_eq!(paf_matches(&a), 0);
}

#[test]
fn paf_line_exact_text() {
    let a = sample();
    let line = print_alignment_paf(&a);
    assert_eq!(
        line,
        "chrQ\t1000\t100\t150\t-\tchrT\t2000\t960\t990\t36\t80\t255\tdf:i:8\ttp:Z:3,50;5,100\n"
    );
}

#[test]
fn paf_trace_tag_truncates_to_shorter_list() {
    let mut a = sample();
    a.trace_diffs = vec![3];
    let line = print_alignment_paf(&a);
    assert!(line.ends_with("\tdf:i:8\ttp:Z:3,50\n"));
}

#[test]
fn paf_trace_tag_omitted_when_a_list_is_empty() {
    let mut a = sample();
    a.tracepoints = vec![];
    let line = print_alignment_paf(&a);
    assert!(line.ends_with("\tdf:i:8\n"));
    assert!(!line.contains("tp:Z:"));
}

#[test]
fn human_block_exact_text() {
    let a = sample();
    let block = print_alignment_human(&a, 50);
    let expected = "Query: chrQ:100-150, query total length: 1000\n\
                    Target: chrT:960-990, target total length: 2000\n\
                    Strand: -\n\
                    Differences: 8\n\
                    Trace spacing: 50\n\
                    Tracepoints: 2 values\n  50 100\n\
                    Trace diffs: 2 values\n  3 5\n\n";
    assert_eq!(block, expected);
}

#[test]
fn trace_data_block_for_empty_list() {
    assert_eq!(print_trace_data("Tracepoints", &vec![]), "Tracepoints: 0 values\n");
    assert_eq!(print_trace_data("X", &vec![-1]), "X: 1 values\n  -1\n");
}

#[test]
fn print_alignment_dispatches_on_format() {
    let a = sample();
    assert_eq!(print_alignment(&a, 50, OutputFormat::Human), print_alignment_human(&a, 50));
    assert_eq!(print_alignment(&a, 50, OutputFormat::Paf), print_alignment_paf(&a));
}

#[test]
fn metadata_summary_lists_sequences_in_id_order() {
    let entries = vec![
        CatalogEntry { id: 2, name: "b".to_string(), length: 20, global_offset: 0, contig_length: 20 },
        CatalogEntry { id: 1, name: "a".to_string(), length: 10, global_offset: 0, contig_length: 10 },
    ];
    let cat = SequenceCatalog { entries, has_offsets: false };
    let empty = SequenceCatalog { entries: vec![], has_offsets: false };
    let out = print_metadata(&cat, &empty, 100, "input.1aln", 7);
    let expected = "=== METADATA ===\n\n\
                    File: input.1aln\n\
                    Trace spacing: 100\n\
                    Query sequences: 2\n\
                    Target sequences: 0\n\
                    \nQuery Sequences:\n  1) a (length: 10)\n  2) b (length: 20)\n\
                    \nTotal alignments: 7\n";
    assert_eq!(out, expected);
}

#[test]
fn metadata_summary_caps_listing_at_ten() {
    let entries: Vec<CatalogEntry> = (0..12)
        .map(|i| CatalogEntry {
            id: i,
            name: format!("s{}", i),
            length: i,
            global_offset: 0,
            contig_length: i,
        })
        .collect();
    let cat = SequenceCatalog { entries, has_offsets: false };
    let empty = SequenceCatalog { entries: vec![], has_offsets: false };
    let out = print_metadata(&cat, &empty, 100, "f", 0);
    assert!(out.contains("  9) s9 (length: 9)\n"));
    assert!(!out.contains("  10) s10"));
    assert!(out.contains("  ... and 2 more\n"));
}

#[test]
fn reference_roles() {
    assert_eq!(ref_role("a.fa", 1), RefRole::Query);
    assert_eq!(ref_role("b.fa", 2), RefRole::Target);
    assert_eq!(ref_role("c.fa", 3), RefRole::Ignored);
    assert_eq!(ref_role("d.fa", 0), RefRole::Ignored);
    assert_eq!(ref_role("", 1), RefRole::Ignored);
}

#[test]
fn fasta_suffix_stripping() {
    assert_eq!(strip_fasta_ext("genome.fasta.gz"), "genome");
    assert_eq!(strip_fasta_ext("genome.fa"), "genome");
    assert_eq!(strip_fasta_ext("genome.fna.gz"), "genome");
    assert_eq!(strip_fasta_ext("genome.1gdb"), "genome.1gdb");
    assert!(str_ends_with("genome.fa", ".fa"));
    assert!(!str_ends_with("genome.fa", ".fasta"));
}

#[test]
fn candidate_order_prefers_stripped_forms_under_the_directory() {
    let cands = gdb_candidates("ref.fasta", "dir");
    let expected = vec![
        "ref.fasta",
        "ref.fasta.1gdb",
        "ref.fasta.gdb",
        "ref.1gdb",
        "ref.gdb",
        "dir/ref.1gdb",
        "dir/ref.gdb",
        "dir/ref.fasta.1gdb",
        "dir/ref.fasta.gdb",
        "dir/ref.fasta",
    ];
    let got: Vec<&str> = cands.iter().map(|s| s.as_str()).collect();
    assert_eq!(got, expected);
}

#[test]
fn candidate_order_without_a_sequence_suffix() {
    let cands = gdb_candidates("ref", "dir");
    let expected = vec![
        "ref",
        "ref.1gdb",
        "ref.gdb",
        "dir/ref.1gdb",
        "dir/ref.gdb",
        "dir/ref",
    ];
    let got: Vec<&str> = cands.iter().map(|s| s.as_str()).collect();
    assert_eq!(got, expected);
}
