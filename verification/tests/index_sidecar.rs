use alnview::error::AlnError;
use alnview::index::{build_index, scan_trace_spacing, AccessIndex};
use alnview::record::Record;
use alnview::sidecar::{parse_i64_line, parse_sidecar, render_sidecar, split_lines};

fn primary(qid: i64) -> Record {
    Record::Primary {
        query_id: qid,
        query_start: 0,
        query_end: 10,
        target_id: 0,
        target_start: 0,
        target_end: 10,
    }
}

#[test]
fn spacing_header_before_first_primary_wins() {
    let recs = vec![Record::Other, Record::Spacing(50), primary(0)];
    assert_eq!(scan_trace_spacing(&recs), 50);
}

#[test]
fn spacing_defaults_to_100_when_primary_comes_first() {
    let recs = vec![primary(0), Record::Spacing(50)];
    assert_eq!(scan_trace_spacing(&recs), 100);
}

#[test]
fn spacing_defaults_to_100_when_absent() {
    let recs = vec![Record::Other, Record::GroupBoundary];
    assert_eq!(scan_trace_spacing(&recs), 100);
}

#[test]
fn build_index_records_primary_positions() {
    let recs = vec![
        Record::Spacing(50),
        primary(0),
        Record::Differences(1),
        primary(1),
        primary(2),
    ];
    let positions = vec![1, 2, 3, 4, 5];
    let idx = build_index(&recs, &positions);
    assert_eq!(idx.spacing, 50);
    assert_eq!(idx.positions, vec![2, 4, 5]);
}

#[test]
fn sidecar_round_trip_reloads_same_index() {
    let idx = AccessIndex { spacing: 50, positions: vec![12, 77, 4096] };
    let text = render_sidecar(&idx);
    assert_eq!(text, b"50\n3\n12\n77\n4096\n".to_vec());
    let back = parse_sidecar(&text).unwrap();
    assert_eq!(back.spacing, 50);
    assert_eq!(back.positions, vec![12, 77, 4096]);
}

#[test]
fn sidecar_round_trip_with_negative_spacing_and_empty_positions() {
    let idx = AccessIndex { spacing: -7, positions: vec![] };
    let text = render_sidecar(&idx);
    assert_eq!(text, b"-7\n0\n".to_vec());
    let back = parse_sidecar(&text).unwrap();
    assert_eq!(back.spacing, -7);
    assert!(back.positions.is_empty());
}

#[test]
fn sidecar_count_mismatch_is_corrupt() {
    let text = b"50\n3\n10\n20\n".to_vec();
    let err = parse_sidecar(&text).unwrap_err();
    assert_eq!(err, AlnError::CorruptIndex);
    assert_eq!(
        err.message(),
        "corrupt index: sidecar does not have the declared shape"
    );
}

#[test]
fn sidecar_with_garbage_line_is_corrupt() {
    let text = b"50\n1\nabc\n".to_vec();
    assert_eq!(parse_sidecar(&text).unwrap_err(), AlnError::CorruptIndex);
}

#[test]
fn sidecar_too_short_is_corrupt() {
    let text = b"50\n".to_vec();
    assert_eq!(parse_sidecar(&text).unwrap_err(), AlnError::CorruptIndex);
}

#[test]
fn lookup_past_count_is_out_of_range() {
    let idx = AccessIndex { spacing: 100, positions: vec![7, 8, 9] };
    assert_eq!(idx.lookup_position(2).unwrap(), 9);
    let err = idx.lookup_position(5).unwrap_err();
    assert_eq!(err, AlnError::OutOfRange { requested: 5, count: 3 });
}

#[test]
fn split_lines_handles_trailing_newline() {
    let text = b"a\nbc\n".to_vec();
    let lines = split_lines(&text);
    assert_eq!(lines, vec![b"a".to_vec(), b"bc".to_vec()]);
    let no_trailing = b"a\nbc".to_vec();
    assert_eq!(split_lines(&no_trailing), vec![b"a".to_vec(), b"bc".to_vec()]);
}

#[test]
fn sidecar_negative_count_is_corrupt() {
    let text = b"50\n-1\n".to_vec();
    assert_eq!(parse_sidecar(&text).unwrap_err(), AlnError::CorruptIndex);
}

#[test]
fn sidecar_round_trip_at_position_extremes() {
    let idx = AccessIndex { spacing: i64::MAX, positions: vec![i64::MIN, 0, i64::MAX] };
    let back = parse_sidecar(&render_sidecar(&idx)).unwrap();
    assert_eq!(back.spacing, i64::MAX);
    assert_eq!(back.positions, vec![i64::MIN, 0, i64::MAX]);
}

#[test]
fn parse_i64_line_values() {
    assert_eq!(parse_i64_line(&b"0".to_vec()), Some(0));
    assert_eq!(parse_i64_line(&b"12345".to_vec()), Some(12345));
    assert_eq!(parse_i64_line(&b"-42".to_vec()), Some(-42));
    assert_eq!(parse_i64_line(&b"007".to_vec()), Some(7));
    assert_eq!(
        parse_i64_line(&b"9223372036854775807".to_vec()),
        Some(i64::MAX)
    );
    assert_eq!(
        parse_i64_line(&b"-9223372036854775808".to_vec()),
        Some(i64::MIN)
    );
    assert_eq!(parse_i64_line(&b"9223372036854775808".to_vec()), None);
    assert_eq!(parse_i64_line(&b"99999999999999999999999".to_vec()), None);
    assert_eq!(parse_i64_line(&b"".to_vec()), None);
    assert_eq!(parse_i64_line(&b"-".to_vec()), None);
    assert_eq!(parse_i64_line(&b"1x2".to_vec()), None);
}
