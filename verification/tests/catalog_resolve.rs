use alnview::assembler::assemble_all;
use alnview::catalog::{resolve_catalogs, sorted_by_id, CatalogEntry, SequenceCatalog};
use alnview::error::AlnError;
use alnview::normalize::{add_offset, normalize_unit};
use alnview::record::Record;
use alnview::resolve::resolve_unit;

fn entry(id: i64, name: &str, length: i64, offset: i64, contig_length: i64) -> CatalogEntry {
    CatalogEntry {
        id,
        name: name.to_string(),
        length,
        global_offset: offset,
        contig_length,
    }
}

fn catalog(entries: Vec<CatalogEntry>, has_offsets: bool) -> SequenceCatalog {
    SequenceCatalog { entries, has_offsets }
}

fn primary(qid: i64, qs: i64, qe: i64, tid: i64, ts: i64, te: i64) -> Record {
    Record::Primary {
        query_id: qid,
        query_start: qs,
        query_end: qe,
        target_id: tid,
        target_start: ts,
        target_end: te,
    }
}

#[test]
fn add_offset_reports_overflow() {
    assert_eq!(add_offset(10, 32).unwrap(), 42);
    assert_eq!(add_offset(-10, 4).unwrap(), -6);
    let err = add_offset(i64::MAX, 1).unwrap_err();
    assert_eq!(err, AlnError::CoordinateOverflow);
    assert_eq!(
        err.message(),
        "coordinate overflow when applying contig offset"
    );
    assert_eq!(add_offset(i64::MIN, -1).unwrap_err(), AlnError::CoordinateOverflow);
}

#[test]
fn reverse_strand_flip_with_spacing_fifty() {
    // A three-unit stream whose header declares spacing 50; the middle
    // unit is reverse-strand with raw target span 10..40 on a contig of
    // length 1000.
    let recs = vec![
        Record::Spacing(50),
        primary(1, 0, 10, 1, 0, 10),
        primary(1, 100, 150, 1, 10, 40),
        Record::Reverse,
        primary(1, 200, 210, 1, 500, 510),
    ];
    assert_eq!(alnview::index::scan_trace_spacing(&recs), 50);
    let units = assemble_all(&recs);
    assert_eq!(units.len(), 3);
    let cat = catalog(vec![entry(1, "chr1", 1000, 0, 1000)], true);
    let aln = resolve_unit(&units[1], &cat, &cat).unwrap();
    assert!(aln.reverse);
    assert_eq!(aln.target_start, 960);
    assert_eq!(aln.target_end, 990);
    // The flip is order-preserving and never touches the query side.
    assert!(aln.target_start <= aln.target_end);
    assert_eq!(aln.query_start, 100);
    assert_eq!(aln.query_end, 150);
}

#[test]
fn forward_strand_keeps_raw_target_span() {
    let recs = vec![primary(1, 0, 10, 1, 10, 40)];
    let units = assemble_all(&recs);
    let cat = catalog(vec![entry(1, "chr1", 1000, 0, 1000)], true);
    let aln = resolve_unit(&units[0], &cat, &cat).unwrap();
    assert!(!aln.reverse);
    assert_eq!(aln.target_start, 10);
    assert_eq!(aln.target_end, 40);
}

#[test]
fn offsets_shift_both_sides_to_global_coordinates() {
    let recs = vec![primary(1, 5, 15, 2, 7, 17)];
    let units = assemble_all(&recs);
    let qcat = catalog(vec![entry(1, "q", 500, 1000, 500)], true);
    let tcat = catalog(vec![entry(2, "t", 400, 2000, 400)], true);
    let aln = resolve_unit(&units[0], &qcat, &tcat).unwrap();
    assert_eq!(aln.query_start, 1005);
    assert_eq!(aln.query_end, 1015);
    assert_eq!(aln.target_start, 2007);
    assert_eq!(aln.target_end, 2017);
}

#[test]
fn missing_offset_table_passes_coordinates_through() {
    // Embedded-skeleton-only mode: no offset table, but the strand flip
    // still applies with the sequence length as the contig length.
    let recs = vec![primary(1, 5, 15, 2, 10, 40), Record::Reverse];
    let units = assemble_all(&recs);
    let qcat = catalog(vec![entry(1, "q", 500, 999, 999)], false);
    let tcat = catalog(vec![entry(2, "t", 1000, 999, 999)], false);
    let aln = resolve_unit(&units[0], &qcat, &tcat).unwrap();
    assert_eq!(aln.query_start, 5);
    assert_eq!(aln.query_end, 15);
    assert_eq!(aln.target_start, 960);
    assert_eq!(aln.target_end, 990);
}

#[test]
fn unknown_query_id_degrades_to_placeholder() {
    let recs = vec![primary(9, 5, 15, 1, 10, 40)];
    let units = assemble_all(&recs);
    let cat = catalog(vec![entry(1, "chr1", 1000, 100, 1000)], true);
    let aln = resolve_unit(&units[0], &cat, &cat).unwrap();
    assert_eq!(aln.query_name, "unknown");
    assert_eq!(aln.query_length, 0);
    // No offset for the degraded side: its coordinates pass through.
    assert_eq!(aln.query_start, 5);
    assert_eq!(aln.query_end, 15);
    // The target side still resolves normally.
    assert_eq!(aln.target_name, "chr1");
    assert_eq!(aln.target_start, 110);
    assert_eq!(aln.target_end, 140);
}

#[test]
fn unknown_target_id_degrades_to_placeholder() {
    let recs = vec![primary(1, 5, 15, 9, 10, 40)];
    let units = assemble_all(&recs);
    let cat = catalog(vec![entry(1, "chr1", 1000, 100, 1000)], true);
    let aln = resolve_unit(&units[0], &cat, &cat).unwrap();
    assert_eq!(aln.target_name, "unknown");
    assert_eq!(aln.target_length, 0);
    assert_eq!(aln.target_start, 10);
    assert_eq!(aln.target_end, 40);
    assert_eq!(aln.query_name, "chr1");
    assert_eq!(aln.query_start, 105);
    assert_eq!(aln.query_end, 115);
}

#[test]
fn run_with_no_metadata_completes_with_placeholders() {
    // Neither embedded nor external data: every unit still resolves.
    let recs = vec![
        primary(1, 0, 10, 2, 5, 25),
        primary(3, 7, 9, 4, 1, 2),
        Record::Reverse,
    ];
    let (query, target) = resolve_catalogs(None, None, None);
    for unit in assemble_all(&recs) {
        let aln = resolve_unit(&unit, &query, &target).unwrap();
        assert_eq!(aln.query_name, "unknown");
        assert_eq!(aln.target_name, "unknown");
        assert_eq!(aln.query_length, 0);
        assert_eq!(aln.target_length, 0);
    }
    // Forward-strand coordinates pass through untouched.
    let first = resolve_unit(&assemble_all(&recs)[0], &query, &target).unwrap();
    assert_eq!(first.query_start, 0);
    assert_eq!(first.query_end, 10);
    assert_eq!(first.target_start, 5);
    assert_eq!(first.target_end, 25);
    // On a reverse-strand unit the flip still applies, about the only
    // length available: zero.
    let second = resolve_unit(&assemble_all(&recs)[1], &query, &target).unwrap();
    assert!(second.reverse);
    assert_eq!(second.target_start, -2);
    assert_eq!(second.target_end, -1);
}

#[test]
fn offset_overflow_is_fatal_for_the_unit() {
    let recs = vec![primary(1, 10, 20, 1, 10, 20)];
    let units = assemble_all(&recs);
    let cat = catalog(vec![entry(1, "chr1", 1000, i64::MAX, 1000)], true);
    let err = resolve_unit(&units[0], &cat, &cat).unwrap_err();
    assert_eq!(err, AlnError::CoordinateOverflow);
}

#[test]
fn normalize_unit_flips_before_offsetting() {
    let recs = vec![primary(1, 0, 10, 1, 10, 40), Record::Reverse];
    let units = assemble_all(&recs);
    let coords = normalize_unit(&units[0], 100, 2000, 1000).unwrap();
    assert_eq!(coords.query_start, 100);
    assert_eq!(coords.query_end, 110);
    assert_eq!(coords.target_start, 2960);
    assert_eq!(coords.target_end, 2990);
}

#[test]
fn self_alignment_uses_target_catalog_for_query() {
    let embedded = catalog(
        vec![entry(1, "chr1", 1000, 0, 1000), entry(2, "chr2", 800, 1000, 800)],
        true,
    );
    let (query, target) = resolve_catalogs(Some(embedded), None, None);
    assert_eq!(query.entries.len(), 2);
    assert_eq!(target.entries.len(), 2);
    assert_eq!(query.has_offsets, target.has_offsets);
    for (q, t) in query.entries.iter().zip(target.entries.iter()) {
        assert_eq!(q.id, t.id);
        assert_eq!(q.name, t.name);
        assert_eq!(q.length, t.length);
        assert_eq!(q.global_offset, t.global_offset);
        assert_eq!(q.contig_length, t.contig_length);
    }
}

#[test]
fn self_alignment_against_external_target() {
    let ext_t = catalog(vec![entry(4, "scaffold", 99, 7, 50)], true);
    let (query, target) = resolve_catalogs(None, None, Some(ext_t));
    assert_eq!(target.entries[0].name, "scaffold");
    assert_eq!(query.entries.len(), 1);
    assert_eq!(query.entries[0].name, "scaffold");
    assert_eq!(query.entries[0].global_offset, 7);
    assert!(query.has_offsets);
}

#[test]
fn external_catalogs_win_over_embedded() {
    let embedded = catalog(vec![entry(1, "embedded", 10, 0, 10)], false);
    let ext_q = catalog(vec![entry(1, "queryside", 20, 0, 20)], true);
    let ext_t = catalog(vec![entry(1, "targetside", 30, 0, 30)], true);
    let (query, target) = resolve_catalogs(Some(embedded), Some(ext_q), Some(ext_t));
    assert_eq!(query.entries[0].name, "queryside");
    assert_eq!(target.entries[0].name, "targetside");
}

#[test]
fn empty_everything_degrades_to_empty_catalogs() {
    let (query, target) = resolve_catalogs(None, None, None);
    assert_eq!(query.entries.len(), 0);
    assert_eq!(target.entries.len(), 0);
    assert!(!query.has_offsets);
    assert!(!target.has_offsets);
}

#[test]
fn catalog_find_returns_first_match() {
    let cat = catalog(
        vec![entry(5, "a", 1, 0, 1), entry(3, "b", 2, 0, 2), entry(5, "c", 3, 0, 3)],
        false,
    );
    assert_eq!(cat.find(3).unwrap().name, "b");
    assert_eq!(cat.find(5).unwrap().name, "a");
    assert!(cat.find(7).is_none());
}

#[test]
fn sorted_by_id_orders_entries() {
    let entries = vec![entry(5, "e", 1, 0, 1), entry(1, "a", 2, 0, 2), entry(3, "c", 3, 0, 3)];
    let sorted = sorted_by_id(&entries);
    let ids: Vec<i64> = sorted.iter().map(|e| e.id).collect();
    assert_eq!(ids, vec![1, 3, 5]);
    assert_eq!(sorted[0].name, "a");
}
