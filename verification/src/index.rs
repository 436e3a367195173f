//! The derived access index: one stream position per primary record plus
//! the global trace spacing, built by a full forward scan and used for
//! random access when the stream has no native index.

use vstd::prelude::*;
use crate::assembler::{count_primaries, kth_primary_index};
use crate::error::AlnError;
use crate::record::{Record, RecordV, records_view};

verus! {

/// The derived index of one alignment file.
#[derive(Debug)]
pub struct AccessIndex {
    /// The trace spacing the file's header declared, or the default.
    pub spacing: i64,
    /// The stream position of every primary record, in encounter order.
    pub positions: Vec<i64>,
}

/// Mathematical view of an access index.
#[verifier::ext_equal]
pub ghost struct IndexV {
    pub spacing: int,
    pub positions: Seq<int>,
}

impl View for AccessIndex {
    type V = IndexV;

    open spec fn view(&self) -> IndexV {
        IndexV {
            spacing: self.spacing as int,
            positions: self.positions@.map_values(|p: i64| p as int),
        }
    }
}

/// The trace spacing a stream declares: the value of the spacing header
/// record if one comes before the first primary record, else the default
/// of 100.
pub open spec fn spec_trace_spacing(recs: Seq<RecordV>) -> int
    decreases recs.len(),
{
    if recs.len() == 0 {
        100
    } else {
        match recs[0] {
            RecordV::Spacing(v) => v,
            RecordV::Primary { .. } => 100,
            _ => spec_trace_spacing(recs.drop_first()),
        }
    }
}

/// The stream positions of the primary records of `recs`, where `poss[i]`
/// is the position of record `i`.
pub open spec fn primary_positions(recs: Seq<RecordV>, poss: Seq<int>) -> Seq<int>
    decreases recs.len(),
{
    if recs.len() == 0 {
        Seq::empty()
    } else {
        (if recs[0] is Primary {
            seq![poss[0]]
        } else {
            Seq::empty()
        }) + primary_positions(recs.drop_first(), poss.drop_first())
    }
}

/// Scans a stream for its trace spacing.
pub fn scan_trace_spacing(recs: &Vec<Record>) -> (s: i64)
    ensures
        s as int == spec_trace_spacing(records_view(recs@)),
{
    let ghost stream = records_view(recs@);
    proof {
        assert(stream.skip(0) =~= stream);
    }
    let n = recs.len();
    let mut i: usize = 0;
    while i < n
        invariant
            i <= n,
            n == recs@.len(),
            stream == records_view(recs@),
            spec_trace_spacing(stream) == spec_trace_spacing(stream.skip(i as int)),
        decreases n - i,
    {
        proof {
            assert(stream.skip(i as int)[0] == stream[i as int]);
            assert(stream.skip(i as int).drop_first() =~= stream.skip(i as int + 1));
        }
        match &recs[i] {
            Record::Spacing(v) => {
                return *v;
            },
            Record::Primary { .. } => {
                return 100;
            },
            _ => {},
        }
        i = i + 1;
    }
    proof {
        assert(stream.skip(n as int) =~= Seq::<RecordV>::empty());
    }
    100
}

/// Builds the derived index of a stream whose record `i` was read at
/// position `positions[i]`.
pub fn build_index(recs: &Vec<Record>, positions: &Vec<i64>) -> (idx: AccessIndex)
    requires
        recs@.len() == positions@.len(),
    ensures
        idx@.spacing == spec_trace_spacing(records_view(recs@)),
        idx@.positions =~= primary_positions(records_view(recs@), positions@.map_values(|p: i64| p as int)),
{
    let ghost stream = records_view(recs@);
    let ghost poss = positions@.map_values(|p: i64| p as int);
    let spacing = scan_trace_spacing(recs);
    let mut out: Vec<i64> = Vec::new();
    let n = recs.len();
    let mut i: usize = 0;
    proof {
        assert(stream.skip(0) =~= stream);
        assert(poss.skip(0) =~= poss);
        assert(out@.map_values(|p: i64| p as int) + primary_positions(stream, poss) =~= primary_positions(stream, poss));
    }
    while i < n
        invariant
            i <= n,
            n == recs@.len(),
            recs@.len() == positions@.len(),
            stream == records_view(recs@),
            poss == positions@.map_values(|p: i64| p as int),
            out@.map_values(|p: i64| p as int) + primary_positions(stream.skip(i as int), poss.skip(i as int)) =~= primary_positions(stream, poss),
        decreases n - i,
    {
        proof {
            assert(stream.skip(i as int)[0] == stream[i as int]);
            assert(stream.skip(i as int).drop_first() =~= stream.skip(i as int + 1));
            assert(poss.skip(i as int)[0] == poss[i as int]);
            assert(poss.skip(i as int).drop_first() =~= poss.skip(i as int + 1));
        }
        let is_primary = match &recs[i] {
            Record::Primary { .. } => true,
            _ => false,
        };
        if is_primary {
            let ghost out_before = out@;
            out.push(positions[i]);
            proof {
                assert(out@.map_values(|p: i64| p as int) =~= out_before.map_values(|p: i64| p as int).push(
                    poss[i as int],
                ));
            }
        }
        i = i + 1;
    }
    proof {
        assert(stream.skip(n as int) =~= Seq::<RecordV>::empty());
        assert(poss.skip(n as int) =~= Seq::<int>::empty());
    }
    AccessIndex { spacing, positions: out }
}

impl AccessIndex {
    /// How many alignment units the indexed file holds.
    pub fn count(&self) -> (n: usize)
        ensures
            n == self@.positions.len(),
    {
        self.positions.len()
    }

    /// The stream position of alignment `k`; an ordinal at or past the
    /// file's unit count is an out-of-range error, never a clamped value.
    pub fn lookup_position(&self, k: usize) -> (r: Result<i64, AlnError>)
        ensures
            k < self@.positions.len() ==> (r matches Ok(p) && p as int == self@.positions[k as int]),
            k >= self@.positions.len() ==> r == Err::<i64, AlnError>(
                AlnError::OutOfRange { requested: k, count: self.positions@.len() as usize },
            ),
    {
        if k < self.positions.len() {
            Ok(self.positions[k])
        } else {
            Err(AlnError::OutOfRange { requested: k, count: self.positions.len() })
        }
    }
}

/// The derived index holds one position per primary record.
pub proof fn lemma_primary_positions_len(recs: Seq<RecordV>, poss: Seq<int>)
    requires
        recs.len() == poss.len(),
    ensures
        primary_positions(recs, poss).len() == count_primaries(recs),
    decreases recs.len(),
{
    if recs.len() == 0 {
    } else {
        lemma_primary_positions_len(recs.drop_first(), poss.drop_first());
    }
}

/// The position list of the derived index names exactly the primary
/// records: entry `k` is the stream position of the `k`-th primary record,
/// and with strictly increasing record positions no earlier record shares
/// it, so scanning forward for that position stops at the `k`-th primary
/// record.  Together with the assembler's random-access lemma, fetching by
/// the derived index and a full forward scan hand the formatter the same
/// unit.
pub proof fn lemma_position_of_kth_primary(recs: Seq<RecordV>, poss: Seq<int>, k: int)
    requires
        recs.len() == poss.len(),
        0 <= k < count_primaries(recs),
    ensures
        primary_positions(recs, poss).len() == count_primaries(recs),
        0 <= kth_primary_index(recs, k) < recs.len(),
        primary_positions(recs, poss)[k] == poss[kth_primary_index(recs, k)],
    decreases recs.len(),
{
    lemma_primary_positions_len(recs, poss);
    let rest = recs.drop_first();
    let prest = poss.drop_first();
    if recs.len() == 0 {
    } else if recs[0] is Primary {
        if k == 0 {
        } else {
            lemma_position_of_kth_primary(rest, prest, k - 1);
            let j = kth_primary_index(rest, k - 1);
            assert(primary_positions(recs, poss) =~= seq![poss[0]] + primary_positions(rest, prest));
            assert(primary_positions(recs, poss)[k] == primary_positions(rest, prest)[k - 1]);
            assert(prest[j] == poss[j + 1]);
        }
    } else {
        lemma_position_of_kth_primary(rest, prest, k);
        let j = kth_primary_index(rest, k);
        assert(primary_positions(recs, poss) =~= primary_positions(rest, prest));
        assert(prest[j] == poss[j + 1]);
    }
}

} // verus!
