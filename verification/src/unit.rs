//! Alignment units: the raw, contig-local form the assembler produces, and
//! the resolved, scaffold-global form the formatter renders.

use vstd::prelude::*;
use crate::record::ints_view;

verus! {

/// One assembled alignment unit, still in contig-local coordinates.
#[derive(Debug)]
pub struct RawUnit {
    pub query_id: i64,
    pub query_start: i64,
    pub query_end: i64,
    pub target_id: i64,
    pub target_start: i64,
    pub target_end: i64,
    pub reverse: bool,
    pub differences: i64,
    pub tracepoints: Vec<i64>,
    pub trace_diffs: Vec<i64>,
}

/// Mathematical view of a raw unit.
#[verifier::ext_equal]
pub ghost struct UnitV {
    pub query_id: int,
    pub query_start: int,
    pub query_end: int,
    pub target_id: int,
    pub target_start: int,
    pub target_end: int,
    pub reverse: bool,
    pub differences: int,
    pub tracepoints: Seq<int>,
    pub trace_diffs: Seq<int>,
}

impl View for RawUnit {
    type V = UnitV;

    open spec fn view(&self) -> UnitV {
        UnitV {
            query_id: self.query_id as int,
            query_start: self.query_start as int,
            query_end: self.query_end as int,
            target_id: self.target_id as int,
            target_start: self.target_start as int,
            target_end: self.target_end as int,
            reverse: self.reverse,
            differences: self.differences as int,
            tracepoints: ints_view(self.tracepoints@),
            trace_diffs: ints_view(self.trace_diffs@),
        }
    }
}

/// A fully resolved alignment: names and lengths from the catalogs, all
/// coordinates scaffold-global, strand corrected.
#[derive(Debug)]
pub struct AlignmentData {
    pub query_name: String,
    pub query_length: i64,
    pub query_start: i64,
    pub query_end: i64,
    pub target_name: String,
    pub target_length: i64,
    pub target_start: i64,
    pub target_end: i64,
    pub reverse: bool,
    pub differences: i64,
    pub tracepoints: Vec<i64>,
    pub trace_diffs: Vec<i64>,
}

/// Mathematical view of a resolved alignment.
#[verifier::ext_equal]
pub ghost struct AlignmentV {
    pub query_name: Seq<char>,
    pub query_length: int,
    pub query_start: int,
    pub query_end: int,
    pub target_name: Seq<char>,
    pub target_length: int,
    pub target_start: int,
    pub target_end: int,
    pub reverse: bool,
    pub differences: int,
    pub tracepoints: Seq<int>,
    pub trace_diffs: Seq<int>,
}

impl View for AlignmentData {
    type V = AlignmentV;

    open spec fn view(&self) -> AlignmentV {
        AlignmentV {
            query_name: self.query_name@,
            query_length: self.query_length as int,
            query_start: self.query_start as int,
            query_end: self.query_end as int,
            target_name: self.target_name@,
            target_length: self.target_length as int,
            target_start: self.target_start as int,
            target_end: self.target_end as int,
            reverse: self.reverse,
            differences: self.differences as int,
            tracepoints: ints_view(self.tracepoints@),
            trace_diffs: ints_view(self.trace_diffs@),
        }
    }
}

} // verus!
