//! Typed records of the alignment stream, as the assembler consumes them.
//!
//! The unverified edge reads one line of the underlying file at a time and
//! hands the library one `Record` per line; the mathematical view of a whole
//! stream is a `Seq<RecordV>`.

use vstd::prelude::*;

verus! {

/// One typed record of the stream.
#[derive(Debug)]
pub enum Record {
    /// Opens a new alignment unit: query/target ids and contig-local spans.
    Primary {
        query_id: i64,
        query_start: i64,
        query_end: i64,
        target_id: i64,
        target_start: i64,
        target_end: i64,
    },
    /// Marks the current unit as reverse-strand.
    Reverse,
    /// Sets the current unit's difference count.
    Differences(i64),
    /// Replaces the current unit's tracepoint list.
    Tracepoints(Vec<i64>),
    /// Replaces the current unit's trace-diff list.
    TraceDiffs(Vec<i64>),
    /// A group marker or similar boundary that closes the current unit.
    GroupBoundary,
    /// The trace-spacing header record.
    Spacing(i64),
    /// Any record type the library does not know; always ignored.
    Other,
}

/// Mathematical view of a record.
pub ghost enum RecordV {
    Primary {
        query_id: int,
        query_start: int,
        query_end: int,
        target_id: int,
        target_start: int,
        target_end: int,
    },
    Reverse,
    Differences(int),
    Tracepoints(Seq<int>),
    TraceDiffs(Seq<int>),
    GroupBoundary,
    Spacing(int),
    Other,
}

/// Views a list of stream integers as a mathematical sequence.
pub open spec fn ints_view(v: Seq<i64>) -> Seq<int> {
    v.map_values(|x: i64| x as int)
}

impl View for Record {
    type V = RecordV;

    open spec fn view(&self) -> RecordV {
        match self {
            Record::Primary { query_id, query_start, query_end, target_id, target_start, target_end } => RecordV::Primary {
                query_id: *query_id as int,
                query_start: *query_start as int,
                query_end: *query_end as int,
                target_id: *target_id as int,
                target_start: *target_start as int,
                target_end: *target_end as int,
            },
            Record::Reverse => RecordV::Reverse,
            Record::Differences(d) => RecordV::Differences(*d as int),
            Record::Tracepoints(t) => RecordV::Tracepoints(ints_view(t@)),
            Record::TraceDiffs(t) => RecordV::TraceDiffs(ints_view(t@)),
            Record::GroupBoundary => RecordV::GroupBoundary,
            Record::Spacing(s) => RecordV::Spacing(*s as int),
            Record::Other => RecordV::Other,
        }
    }
}

/// Views a whole stream of records.
pub open spec fn records_view(recs: Seq<Record>) -> Seq<RecordV> {
    recs.map_values(|r: Record| r@)
}

/// Copies a list of stream integers.
pub fn copy_ints(v: &Vec<i64>) -> (r: Vec<i64>)
    ensures
        r@ == v@,
{
    let mut r: Vec<i64> = Vec::new();
    let n = v.len();
    let mut i: usize = 0;
    while i < n
        invariant
            i <= n,
            n == v@.len(),
            r@ =~= v@.subrange(0, i as int),
        decreases n - i,
    {
        r.push(v[i]);
        i = i + 1;
    }
    proof {
        assert(r@ =~= v@);
    }
    r
}

impl Record {
    /// An owned copy of the record with the same view.
    pub fn duplicate(&self) -> (r: Record)
        ensures
            r@ == self@,
    {
        match self {
            Record::Primary { query_id, query_start, query_end, target_id, target_start, target_end } => Record::Primary {
                query_id: *query_id,
                query_start: *query_start,
                query_end: *query_end,
                target_id: *target_id,
                target_start: *target_start,
                target_end: *target_end,
            },
            Record::Reverse => Record::Reverse,
            Record::Differences(d) => Record::Differences(*d),
            Record::Tracepoints(t) => Record::Tracepoints(copy_ints(t)),
            Record::TraceDiffs(t) => Record::TraceDiffs(copy_ints(t)),
            Record::GroupBoundary => Record::GroupBoundary,
            Record::Spacing(s) => Record::Spacing(*s),
            Record::Other => Record::Other,
        }
    }
}

} // verus!
