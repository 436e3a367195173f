use alnview::assembler::{assemble_all, count_primary_records, fetch_unit, Assembler};
use alnview::error::AlnError;
use alnview::record::Record;

fn primary(qid: i64, qs: i64, qe: i64, tid: i64, ts: i64, te: i64) -> Record {
    Record::Primary {
        query_id: qid,
        query_start: qs,
        query_end: qe,
        target_id: tid,
        target_start: ts,
        target_end: te,
    }
}

#[test]
fn assembles_three_units_with_attributes() {
    let recs = vec![
        Record::Spacing(50),
        primary(0, 0, 100, 0, 5, 95),
        Record::Differences(7),
        primary(1, 10, 60, 2, 10, 40),
        Record::Reverse,
        Record::Tracepoints(vec![50, 100]),
        Record::TraceDiffs(vec![3, 4]),
        primary(2, 0, 30, 1, 0, 30),
        Record::GroupBoundary,
    ];
    let units = assemble_all(&recs);
    assert_eq!(units.len(), 3);
    assert_eq!(units[0].query_id, 0);
    assert_eq!(units[0].differences, 7);
    assert!(!units[0].reverse);
    assert!(units[0].tracepoints.is_empty());
    assert_eq!(units[1].query_id, 1);
    assert!(units[1].reverse);
    assert_eq!(units[1].tracepoints, vec![50, 100]);
    assert_eq!(units[1].trace_diffs, vec![3, 4]);
    assert_eq!(units[2].query_id, 2);
    assert_eq!(units[2].differences, 0);
}

#[test]
fn attribute_records_accepted_in_any_order() {
    let forward = vec![
        primary(4, 1, 2, 5, 3, 4),
        Record::Tracepoints(vec![9]),
        Record::TraceDiffs(vec![1]),
        Record::Differences(2),
        Record::Reverse,
    ];
    let swapped = vec![
        primary(4, 1, 2, 5, 3, 4),
        Record::Reverse,
        Record::Differences(2),
        Record::TraceDiffs(vec![1]),
        Record::Tracepoints(vec![9]),
    ];
    let a = assemble_all(&forward);
    let b = assemble_all(&swapped);
    assert_eq!(a.len(), 1);
    assert_eq!(b.len(), 1);
    assert_eq!(a[0].differences, b[0].differences);
    assert_eq!(a[0].reverse, b[0].reverse);
    assert_eq!(a[0].tracepoints, b[0].tracepoints);
    assert_eq!(a[0].trace_diffs, b[0].trace_diffs);
}

#[test]
fn unknown_records_are_skipped() {
    let recs = vec![
        Record::Other,
        primary(1, 0, 10, 1, 0, 10),
        Record::Other,
        Record::Differences(3),
        Record::Other,
    ];
    let units = assemble_all(&recs);
    assert_eq!(units.len(), 1);
    assert_eq!(units[0].differences, 3);
}

#[test]
fn attributes_before_any_primary_are_ignored() {
    let recs = vec![
        Record::Reverse,
        Record::Differences(9),
        Record::Tracepoints(vec![1, 2]),
        primary(1, 0, 10, 1, 0, 10),
    ];
    let units = assemble_all(&recs);
    assert_eq!(units.len(), 1);
    assert!(!units[0].reverse);
    assert_eq!(units[0].differences, 0);
    assert!(units[0].tracepoints.is_empty());
}

#[test]
fn later_list_record_replaces_earlier_one() {
    let recs = vec![
        primary(1, 0, 10, 1, 0, 10),
        Record::Tracepoints(vec![1, 2, 3]),
        Record::Tracepoints(vec![]),
    ];
    let units = assemble_all(&recs);
    assert_eq!(units.len(), 1);
    assert!(units[0].tracepoints.is_empty());
}

#[test]
fn stepwise_assembly_matches_whole_stream() {
    let recs = vec![
        primary(1, 0, 10, 1, 0, 10),
        Record::Differences(4),
        primary(2, 5, 15, 3, 5, 15),
    ];
    let mut machine = Assembler::new();
    let mut emitted = Vec::new();
    for r in &recs {
        if let Some(u) = machine.step(r.duplicate()) {
            emitted.push(u);
        }
    }
    if let Some(u) = machine.finish() {
        emitted.push(u);
    }
    let whole = assemble_all(&recs);
    assert_eq!(emitted.len(), whole.len());
    assert_eq!(emitted[0].query_id, whole[0].query_id);
    assert_eq!(emitted[0].differences, whole[0].differences);
    assert_eq!(emitted[1].query_id, whole[1].query_id);
}

#[test]
fn direct_fetch_matches_full_scan() {
    let recs = vec![
        Record::Spacing(50),
        primary(0, 0, 100, 0, 5, 95),
        Record::Differences(7),
        primary(1, 10, 60, 2, 10, 40),
        Record::Reverse,
        primary(2, 0, 30, 1, 0, 30),
    ];
    // Full forward scan.
    let all = assemble_all(&recs);
    // Direct jump to the second primary record: the sub-stream from there.
    let jumped: Vec<Record> = recs[3..].iter().map(|r| r.duplicate()).collect();
    let from_jump = assemble_all(&jumped);
    assert_eq!(all[1].query_id, from_jump[0].query_id);
    assert_eq!(all[1].reverse, from_jump[0].reverse);
    assert_eq!(all[1].target_start, from_jump[0].target_start);
    assert_eq!(all[1].target_end, from_jump[0].target_end);

    let fetched = fetch_unit(&recs, 1).unwrap();
    assert_eq!(fetched.query_id, 1);
    assert!(fetched.reverse);
}

#[test]
fn fetch_past_unit_count_is_out_of_range() {
    let recs = vec![
        primary(0, 0, 1, 0, 0, 1),
        primary(1, 0, 1, 0, 0, 1),
        primary(2, 0, 1, 0, 0, 1),
    ];
    assert_eq!(count_primary_records(&recs), 3);
    let err = fetch_unit(&recs, 5).unwrap_err();
    assert_eq!(err, AlnError::OutOfRange { requested: 5, count: 3 });
    assert_eq!(
        err.message(),
        "alignment 5 is out of range: the file holds 3 alignments"
    );
}

#[test]
fn group_boundary_closes_unit_and_later_attributes_are_ignored() {
    let recs = vec![
        primary(1, 0, 10, 1, 0, 10),
        Record::GroupBoundary,
        Record::Reverse,
        Record::Differences(5),
        primary(2, 0, 10, 1, 0, 10),
    ];
    let units = assemble_all(&recs);
    assert_eq!(units.len(), 2);
    assert!(!units[0].reverse);
    assert_eq!(units[0].differences, 0);
    assert!(!units[1].reverse);
}

#[test]
fn end_of_stream_closes_open_unit() {
    let recs = vec![primary(1, 0, 10, 1, 0, 10), Record::Differences(2)];
    let units = assemble_all(&recs);
    assert_eq!(units.len(), 1);
    assert_eq!(units[0].differences, 2);
}
