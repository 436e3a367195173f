//! The alignment assembler: a two-state machine (idle / inside a unit) that
//! folds a primary record plus its trailing attribute records into one
//! alignment unit.
//!
//! The machine is defined once as a spec transition function; the executable
//! `Assembler` is proved to follow it step by step, and the module ends with
//! the lemma that random access to the k-th unit (starting the machine at the
//! k-th primary record) agrees with element k of a full forward scan.

use vstd::prelude::*;
use crate::error::AlnError;
use crate::record::{Record, RecordV, records_view};
use crate::unit::{RawUnit, UnitV};

verus! {

/// The unit a primary record opens: forward strand, zero differences,
/// empty trace lists.
pub open spec fn unit_of_primary(r: RecordV) -> UnitV
    recommends
        r is Primary,
{
    UnitV {
        query_id: r->Primary_query_id,
        query_start: r->Primary_query_start,
        query_end: r->Primary_query_end,
        target_id: r->Primary_target_id,
        target_start: r->Primary_target_start,
        target_end: r->Primary_target_end,
        reverse: false,
        differences: 0,
        tracepoints: Seq::empty(),
        trace_diffs: Seq::empty(),
    }
}

/// One transition of the assembler: from the current state (the unit under
/// construction, if any) and one record to the next state and the unit
/// emitted by this step, if any.  A primary record closes the current unit
/// and opens a new one; attribute records update the current unit and are
/// ignored when idle; a group boundary closes the current unit; unknown
/// record types never change the state.
pub open spec fn apply_record(st: Option<UnitV>, r: RecordV) -> (Option<UnitV>, Option<UnitV>) {
    match r {
        RecordV::Primary { .. } => (Some(unit_of_primary(r)), st),
        RecordV::Reverse => match st {
            Some(u) => (Some(UnitV { reverse: true, ..u }), None),
            None => (None, None),
        },
        RecordV::Differences(d) => match st {
            Some(u) => (Some(UnitV { differences: d, ..u }), None),
            None => (None, None),
        },
        RecordV::Tracepoints(t) => match st {
            Some(u) => (Some(UnitV { tracepoints: t, ..u }), None),
            None => (None, None),
        },
        RecordV::TraceDiffs(t) => match st {
            Some(u) => (Some(UnitV { trace_diffs: t, ..u }), None),
            None => (None, None),
        },
        RecordV::GroupBoundary => (None, st),
        RecordV::Spacing(_) => (st, None),
        RecordV::Other => (st, None),
    }
}

/// The units emitted by running the machine from state `st` over `recs`,
/// closing any unit still open at the end of the stream.
pub open spec fn assemble_from(st: Option<UnitV>, recs: Seq<RecordV>) -> Seq<UnitV>
    decreases recs.len(),
{
    if recs.len() == 0 {
        match st {
            Some(u) => seq![u],
            None => Seq::empty(),
        }
    } else {
        let stepped = apply_record(st, recs[0]);
        (match stepped.1 {
            Some(u) => seq![u],
            None => Seq::empty(),
        }) + assemble_from(stepped.0, recs.drop_first())
    }
}

/// The units of a whole stream: a full forward scan from the idle state.
pub open spec fn assemble(recs: Seq<RecordV>) -> Seq<UnitV> {
    assemble_from(None, recs)
}

/// How many primary records a stream holds.
pub open spec fn count_primaries(recs: Seq<RecordV>) -> nat
    decreases recs.len(),
{
    if recs.len() == 0 {
        0
    } else {
        (if recs[0] is Primary {
            1nat
        } else {
            0nat
        }) + count_primaries(recs.drop_first())
    }
}

/// The index of the k-th primary record of a stream (0-indexed), meaningful
/// for `0 <= k < count_primaries(recs)`.
pub open spec fn kth_primary_index(recs: Seq<RecordV>, k: int) -> int
    decreases recs.len(),
{
    if recs.len() == 0 {
        0
    } else if recs[0] is Primary {
        if k == 0 {
            0
        } else {
            1 + kth_primary_index(recs.drop_first(), k - 1)
        }
    } else {
        1 + kth_primary_index(recs.drop_first(), k)
    }
}

/// View of an optional unit.
pub open spec fn opt_unit_view(o: Option<RawUnit>) -> Option<UnitV> {
    match o {
        Some(u) => Some(u@),
        None => None,
    }
}

/// View of an assembled unit list.
pub open spec fn units_view(units: Seq<RawUnit>) -> Seq<UnitV> {
    units.map_values(|u: RawUnit| u@)
}

/// The executable assembler; its view is the machine state.
pub struct Assembler {
    pub current: Option<RawUnit>,
}

impl View for Assembler {
    type V = Option<UnitV>;

    open spec fn view(&self) -> Option<UnitV> {
        opt_unit_view(self.current)
    }
}

impl Assembler {
    /// A fresh assembler in the idle state.
    pub fn new() -> (a: Assembler)
        ensures
            a@ is None,
    {
        Assembler { current: None }
    }

    /// Feeds one record to the machine; returns the unit this record closed,
    /// if any.  Follows `apply_record` exactly.
    pub fn step(&mut self, rec: Record) -> (emitted: Option<RawUnit>)
        ensures
            final(self)@ == apply_record(old(self)@, rec@).0,
            opt_unit_view(emitted) == apply_record(old(self)@, rec@).1,
    {
        match rec {
            Record::Primary { query_id, query_start, query_end, target_id, target_start, target_end } => {
                let fresh = RawUnit {
                    query_id,
                    query_start,
                    query_end,
                    target_id,
                    target_start,
                    target_end,
                    reverse: false,
                    differences: 0,
                    tracepoints: Vec::new(),
                    trace_diffs: Vec::new(),
                };
                let prev = self.current.take();
                proof {
                    assert(fresh@.tracepoints =~= Seq::<int>::empty());
                    assert(fresh@.trace_diffs =~= Seq::<int>::empty());
                    assert(fresh@ =~= unit_of_primary(rec@));
                }
                self.current = Some(fresh);
                prev
            },
            Record::Reverse => {
                let cur = self.current.take();
                match cur {
                    Some(mut u) => {
                        u.reverse = true;
                        self.current = Some(u);
                    },
                    None => {},
                }
                None
            },
            Record::Differences(d) => {
                let cur = self.current.take();
                match cur {
                    Some(mut u) => {
                        u.differences = d;
                        self.current = Some(u);
                    },
                    None => {},
                }
                None
            },
            Record::Tracepoints(t) => {
                let cur = self.current.take();
                match cur {
                    Some(mut u) => {
                        u.tracepoints = t;
                        self.current = Some(u);
                    },
                    None => {},
                }
                None
            },
            Record::TraceDiffs(t) => {
                let cur = self.current.take();
                match cur {
                    Some(mut u) => {
                        u.trace_diffs = t;
                        self.current = Some(u);
                    },
                    None => {},
                }
                None
            },
            Record::GroupBoundary => self.current.take(),
            Record::Spacing(_) => None,
            Record::Other => None,
        }
    }

    /// Ends the stream: closes and returns the unit still open, if any.
    pub fn finish(&mut self) -> (emitted: Option<RawUnit>)
        ensures
            final(self)@ is None,
            opt_unit_view(emitted) == old(self)@,
    {
        self.current.take()
    }
}

/// Assembles every unit of a whole stream of records.
pub fn assemble_all(recs: &Vec<Record>) -> (units: Vec<RawUnit>)
    ensures
        units_view(units@) == assemble(records_view(recs@)),
{
    let ghost stream: Seq<RecordV> = records_view(recs@);
    let mut machine = Assembler::new();
    let mut units: Vec<RawUnit> = Vec::new();
    proof {
        assert(stream.skip(0) =~= stream);
        assert(units_view(units@) + assemble_from(machine@, stream) =~= assemble(stream));
    }
    let n = recs.len();
    let mut i: usize = 0;
    while i < n
        invariant
            i <= n,
            n == recs@.len(),
            stream == records_view(recs@),
            units_view(units@) + assemble_from(machine@, stream.skip(i as int)) =~= assemble(stream),
        decreases n - i,
    {
        let rec = recs[i].duplicate();
        proof {
            assert(stream.skip(i as int)[0] == stream[i as int]);
            assert(stream.skip(i as int).drop_first() =~= stream.skip(i as int + 1));
        }
        let emitted = machine.step(rec);
        match emitted {
            Some(u) => {
                units.push(u);
                proof {
                    assert(units_view(units@) =~= units_view(units@.drop_last()).push(u@));
                }
            },
            None => {},
        }
        i = i + 1;
    }
    proof {
        assert(stream.skip(n as int) =~= Seq::<RecordV>::empty());
    }
    let last = machine.finish();
    match last {
        Some(u) => {
            units.push(u);
            proof {
                assert(units_view(units@) =~= units_view(units@.drop_last()).push(u@));
                assert(units_view(units@) =~= assemble(stream));
            }
        },
        None => {
            proof {
                assert(units_view(units@) =~= assemble(stream));
            }
        },
    }
    units
}

/// Counts the primary records of a stream: the number of alignment units
/// the file holds.
pub fn count_primary_records(recs: &Vec<Record>) -> (n: usize)
    ensures
        n == count_primaries(records_view(recs@)),
{
    let ghost stream = records_view(recs@);
    proof {
        assert(stream.skip(0) =~= stream);
    }
    let len = recs.len();
    let mut n: usize = 0;
    let mut i: usize = 0;
    while i < len
        invariant
            i <= len,
            len == recs@.len(),
            stream == records_view(recs@),
            n <= i,
            n + count_primaries(stream.skip(i as int)) == count_primaries(stream),
        decreases len - i,
    {
        proof {
            assert(stream.skip(i as int)[0] == stream[i as int]);
            assert(stream.skip(i as int).drop_first() =~= stream.skip(i as int + 1));
        }
        match &recs[i] {
            Record::Primary { .. } => {
                n = n + 1;
            },
            _ => {},
        }
        i = i + 1;
    }
    proof {
        assert(stream.skip(len as int) =~= Seq::<RecordV>::empty());
    }
    n
}

/// Fetches alignment unit `k` of a whole stream; an ordinal at or past
/// the stream's unit count is an out-of-range error, never a clamped or
/// partial unit.
pub fn fetch_unit(recs: &Vec<Record>, k: usize) -> (r: Result<RawUnit, AlnError>)
    ensures
        k < count_primaries(records_view(recs@)) ==> (r matches Ok(u) && u@ == assemble(
            records_view(recs@),
        )[k as int]),
        k >= count_primaries(records_view(recs@)) ==> r == Err::<RawUnit, AlnError>(
            AlnError::OutOfRange {
                requested: k,
                count: count_primaries(records_view(recs@)) as usize,
            },
        ),
{
    let count = count_primary_records(recs);
    if k >= count {
        return Err(AlnError::OutOfRange { requested: k, count });
    }
    let mut units = assemble_all(recs);
    proof {
        lemma_assemble_len(None, records_view(recs@));
        assert(units_view(units@)[k as int] == units@[k as int]@);
    }
    Ok(units.remove(k))
}

/// Running the machine with a unit already open emits that unit first and
/// afterwards behaves exactly like a run started idle: attribute records
/// touch only the open unit, and whichever record closes it leaves the same
/// state an idle run would have reached.
pub proof fn lemma_open_state_tail(u: UnitV, recs: Seq<RecordV>)
    ensures
        assemble_from(Some(u), recs).len() >= 1,
        assemble_from(Some(u), recs).skip(1) =~= assemble_from(None, recs),
    decreases recs.len(),
{
    if recs.len() == 0 {
    } else {
        let rest = recs.drop_first();
        match recs[0] {
            RecordV::Primary { .. } => {
                let p = unit_of_primary(recs[0]);
                assert(assemble_from(Some(u), recs) =~= seq![u] + assemble_from(Some(p), rest));
                assert(assemble_from(None, recs) =~= assemble_from(Some(p), rest));
                lemma_open_state_tail(p, rest);
            },
            RecordV::Reverse => {
                lemma_open_state_tail(UnitV { reverse: true, ..u }, rest);
            },
            RecordV::Differences(d) => {
                lemma_open_state_tail(UnitV { differences: d, ..u }, rest);
            },
            RecordV::Tracepoints(t) => {
                lemma_open_state_tail(UnitV { tracepoints: t, ..u }, rest);
            },
            RecordV::TraceDiffs(t) => {
                lemma_open_state_tail(UnitV { trace_diffs: t, ..u }, rest);
            },
            RecordV::GroupBoundary => {
                assert(assemble_from(Some(u), recs) =~= seq![u] + assemble_from(None, rest));
                assert(assemble_from(None, recs) =~= assemble_from(None, rest));
            },
            RecordV::Spacing(_) => {
                lemma_open_state_tail(u, rest);
            },
            RecordV::Other => {
                lemma_open_state_tail(u, rest);
            },
        }
    }
}

/// A full scan yields exactly one unit per primary record.
pub proof fn lemma_assemble_len(st: Option<UnitV>, recs: Seq<RecordV>)
    ensures
        assemble_from(st, recs).len() == count_primaries(recs) + (if st is Some {
            1int
        } else {
            0int
        }),
    decreases recs.len(),
{
    if recs.len() == 0 {
    } else {
        let stepped = apply_record(st, recs[0]);
        lemma_assemble_len(stepped.0, recs.drop_first());
    }
}

/// A stream has no more primary records than records.
pub proof fn lemma_count_primaries_le_len(recs: Seq<RecordV>)
    ensures
        count_primaries(recs) <= recs.len(),
    decreases recs.len(),
{
    if recs.len() == 0 {
    } else {
        lemma_count_primaries_le_len(recs.drop_first());
    }
}

/// Random access agrees with a full scan: for every stream and every k below
/// the stream's primary-record count, the k-th unit of a full forward scan
/// equals the first unit of a scan started at the k-th primary record.
/// The two retrieval strategies therefore hand the formatter the same unit.
pub proof fn lemma_random_access_agrees(recs: Seq<RecordV>, k: int)
    requires
        0 <= k < count_primaries(recs),
    ensures
        assemble(recs).len() == count_primaries(recs),
        0 <= kth_primary_index(recs, k) < recs.len(),
        recs[kth_primary_index(recs, k)] is Primary,
        assemble(recs)[k] == assemble(recs.skip(kth_primary_index(recs, k)))[0],
    decreases recs.len(),
{
    lemma_assemble_len(None, recs);
    let rest = recs.drop_first();
    if recs[0] is Primary {
        let p = unit_of_primary(recs[0]);
        assert(assemble(recs) =~= assemble_from(Some(p), rest));
        if k == 0 {
            assert(recs.skip(0) =~= recs);
            lemma_assemble_len(Some(p), rest);
        } else {
            lemma_open_state_tail(p, rest);
            assert(assemble_from(Some(p), rest)[k] == assemble_from(Some(p), rest).skip(1)[k - 1]);
            assert(assemble(recs)[k] == assemble(rest)[k - 1]);
            lemma_random_access_agrees(rest, k - 1);
            let j = kth_primary_index(rest, k - 1);
            assert(recs.skip(1 + j) =~= rest.skip(j));
        }
    } else {
        assert(assemble(recs) =~= assemble(rest));
        lemma_random_access_agrees(rest, k);
        let j = kth_primary_index(rest, k);
        assert(recs.skip(1 + j) =~= rest.skip(j));
    }
}

} // verus!
