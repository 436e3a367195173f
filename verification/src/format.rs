//! Rendering one resolved alignment as a human-readable block or as one
//! PAF line.  Every piece of output text is specified exactly; the PAF
//! match/block-length arithmetic is the divide-by-two convention, stated
//! as spec functions so downstream consumers can rely on it.

use vstd::prelude::*;
use crate::assembler::{assemble, count_primaries, kth_primary_index, lemma_random_access_agrees};
use crate::catalog::CatalogV;
use crate::numfmt::{i64_to_string, i128_to_string, spec_int_chars, spec_nat_chars, u128_to_string};
use crate::record::RecordV;
use crate::resolve::spec_resolve;
use crate::unit::{AlignmentData, AlignmentV};

verus! {

/// A coordinate span floored at zero.
pub open spec fn spec_span(start: int, end: int) -> int {
    if end >= start {
        end - start
    } else {
        0
    }
}

/// PAF block length: query span plus target span, each floored at zero.
pub open spec fn spec_block_length(a: AlignmentV) -> int {
    spec_span(a.query_start, a.query_end) + spec_span(a.target_start, a.target_end)
}

/// PAF match count: half of block length less differences, floored at
/// zero.
pub open spec fn spec_matches(a: AlignmentV) -> int {
    let b = spec_block_length(a);
    if b >= a.differences {
        (b - a.differences) / 2
    } else {
        0
    }
}

/// The PAF numeric fields are sound by construction: the match count is
/// never negative, and the block length is exactly the sum of the two
/// zero-floored spans.
pub proof fn lemma_paf_fields(a: AlignmentV)
    ensures
        spec_matches(a) >= 0,
        spec_block_length(a) == spec_span(a.query_start, a.query_end) + spec_span(
            a.target_start,
            a.target_end,
        ),
        spec_block_length(a) >= 0,
{
}

/// Computes the PAF block length of a resolved alignment.
pub fn paf_block_length(a: &AlignmentData) -> (b: i128)
    ensures
        b == spec_block_length(a@),
        b >= 0,
{
    let qs: i128 = a.query_end as i128 - a.query_start as i128;
    let q: i128 = if qs >= 0 {
        qs
    } else {
        0
    };
    let ts: i128 = a.target_end as i128 - a.target_start as i128;
    let t: i128 = if ts >= 0 {
        ts
    } else {
        0
    };
    q + t
}

/// Computes the PAF match count of a resolved alignment.
pub fn paf_matches(a: &AlignmentData) -> (m: i128)
    ensures
        m == spec_matches(a@),
        m >= 0,
{
    let b = paf_block_length(a);
    let d: i128 = a.differences as i128;
    if b >= d {
        (b - d) / 2
    } else {
        0
    }
}

/// The values of a trace list joined with single spaces.
pub open spec fn spec_join_ints(data: Seq<int>) -> Seq<char>
    decreases data.len(),
{
    if data.len() == 0 {
        Seq::empty()
    } else {
        spec_int_chars(data[0]) + spec_join_ints_tail(data.drop_first())
    }
}

/// The tail of a joined trace list: every further value with its leading
/// separator.
pub open spec fn spec_join_ints_tail(data: Seq<int>) -> Seq<char>
    decreases data.len(),
{
    if data.len() == 0 {
        Seq::empty()
    } else {
        " "@ + spec_int_chars(data[0]) + spec_join_ints_tail(data.drop_first())
    }
}

/// One trace list as the human formatter shows it: a count line, then the
/// values indented on one line; an empty list is only the count line.
pub open spec fn spec_trace_block(label: Seq<char>, data: Seq<int>) -> Seq<char> {
    if data.len() == 0 {
        label + ": 0 values\n"@
    } else {
        label + ": "@ + spec_nat_chars(data.len()) + " values\n  "@ + spec_join_ints(data) + "\n"@
    }
}

/// Renders one trace list with its label.
pub fn print_trace_data(label: &str, data: &Vec<i64>) -> (out: String)
    ensures
        out@ == spec_trace_block(label@, data@.map_values(|x: i64| x as int)),
{
    let ghost values: Seq<int> = data@.map_values(|x: i64| x as int);
    let mut out = String::from_str(label);
    if data.len() == 0 {
        out.append(": 0 values\n");
        return out;
    }
    out.append(": ");
    out.append(u128_to_string(data.len() as u128).as_str());
    out.append(" values\n  ");
    out.append(i64_to_string(data[0]).as_str());
    let ghost head = out@;
    proof {
        assert(values.skip(1).len() == values.len() - 1);
        assert(head + spec_join_ints_tail(values.skip(1)) =~= head + spec_join_ints_tail(
            values.drop_first(),
        ));
    }
    let n = data.len();
    let mut i: usize = 1;
    while i < n
        invariant
            1 <= i <= n,
            n == data@.len(),
            values == data@.map_values(|x: i64| x as int),
            out@ + spec_join_ints_tail(values.skip(i as int)) =~= head + spec_join_ints_tail(
                values.skip(1),
            ),
        decreases n - i,
    {
        proof {
            assert(values.skip(i as int)[0] == values[i as int]);
            assert(values.skip(i as int).drop_first() =~= values.skip(i as int + 1));
        }
        out.append(" ");
        out.append(i64_to_string(data[i]).as_str());
        i = i + 1;
    }
    proof {
        assert(values.skip(n as int) =~= Seq::<int>::empty());
        assert(out@ =~= head + spec_join_ints_tail(values.skip(1)));
    }
    out.append("\n");
    proof {
        assert(out@ =~= spec_trace_block(label@, values));
    }
    out
}

/// The strand symbol.
pub open spec fn spec_strand(reverse: bool) -> Seq<char> {
    if reverse {
        "-"@
    } else {
        "+"@
    }
}

/// The human-readable block for one alignment.
pub open spec fn spec_human_block(a: AlignmentV, spacing: int) -> Seq<char> {
    "Query: "@ + a.query_name + ":"@ + spec_int_chars(a.query_start) + "-"@ + spec_int_chars(
        a.query_end,
    ) + ", query total length: "@ + spec_int_chars(a.query_length) + "\nTarget: "@ + a.target_name
        + ":"@ + spec_int_chars(a.target_start) + "-"@ + spec_int_chars(a.target_end)
        + ", target total length: "@ + spec_int_chars(a.target_length) + "\nStrand: "@
        + spec_strand(a.reverse) + "\nDifferences: "@ + spec_int_chars(a.differences)
        + "\nTrace spacing: "@ + spec_int_chars(spacing) + "\n"@ + spec_trace_block(
        "Tracepoints"@,
        a.tracepoints,
    ) + spec_trace_block("Trace diffs"@, a.trace_diffs) + "\n"@
}

/// Renders one alignment as its human-readable block.
pub fn print_alignment_human(a: &AlignmentData, trace_spacing: i64) -> (out: String)
    ensures
        out@ == spec_human_block(a@, trace_spacing as int),
{
    let mut out = String::from_str("Query: ");
    out.append(a.query_name.as_str());
    out.append(":");
    out.append(i64_to_string(a.query_start).as_str());
    out.append("-");
    out.append(i64_to_string(a.query_end).as_str());
    out.append(", query total length: ");
    out.append(i64_to_string(a.query_length).as_str());
    out.append("\nTarget: ");
    out.append(a.target_name.as_str());
    out.append(":");
    out.append(i64_to_string(a.target_start).as_str());
    out.append("-");
    out.append(i64_to_string(a.target_end).as_str());
    out.append(", target total length: ");
    out.append(i64_to_string(a.target_length).as_str());
    out.append("\nStrand: ");
    out.append(if a.reverse {
        "-"
    } else {
        "+"
    });
    out.append("\nDifferences: ");
    out.append(i64_to_string(a.differences).as_str());
    out.append("\nTrace spacing: ");
    out.append(i64_to_string(trace_spacing).as_str());
    out.append("\n");
    out.append(print_trace_data("Tracepoints", &a.tracepoints).as_str());
    out.append(print_trace_data("Trace diffs", &a.trace_diffs).as_str());
    out.append("\n");
    proof {
        assert(out@ =~= spec_human_block(a@, trace_spacing as int));
    }
    out
}

/// The trace-pair tag payload: one `diff,tracepoint` pair per interval,
/// joined with semicolons, truncated to the shorter list.
pub open spec fn spec_paf_pairs(diffs: Seq<int>, tps: Seq<int>) -> Seq<char>
    decreases diffs.len(),
{
    if diffs.len() == 0 || tps.len() == 0 {
        Seq::empty()
    } else {
        spec_int_chars(diffs[0]) + ","@ + spec_int_chars(tps[0]) + spec_paf_pairs_tail(
            diffs.drop_first(),
            tps.drop_first(),
        )
    }
}

/// The tail of the trace-pair tag: every further pair with its separator.
pub open spec fn spec_paf_pairs_tail(diffs: Seq<int>, tps: Seq<int>) -> Seq<char>
    decreases diffs.len(),
{
    if diffs.len() == 0 || tps.len() == 0 {
        Seq::empty()
    } else {
        ";"@ + spec_int_chars(diffs[0]) + ","@ + spec_int_chars(tps[0]) + spec_paf_pairs_tail(
            diffs.drop_first(),
            tps.drop_first(),
        )
    }
}

/// One PAF line for an alignment: the twelve standard fields, the
/// difference-count tag, and — only when both trace lists are non-empty —
/// the trace-pair tag.
pub open spec fn spec_paf_line(a: AlignmentV) -> Seq<char> {
    a.query_name + "\t"@ + spec_int_chars(a.query_length) + "\t"@ + spec_int_chars(a.query_start)
        + "\t"@ + spec_int_chars(a.query_end) + "\t"@ + spec_strand(a.reverse) + "\t"@
        + a.target_name + "\t"@ + spec_int_chars(a.target_length) + "\t"@ + spec_int_chars(
        a.target_start,
    ) + "\t"@ + spec_int_chars(a.target_end) + "\t"@ + spec_int_chars(spec_matches(a)) + "\t"@
        + spec_int_chars(spec_block_length(a)) + "\t255\tdf:i:"@ + spec_int_chars(a.differences) + (
    if a.trace_diffs.len() > 0 && a.tracepoints.len() > 0 {
        "\ttp:Z:"@ + spec_paf_pairs(a.trace_diffs, a.tracepoints)
    } else {
        Seq::empty()
    }) + "\n"@
}

/// Renders one alignment as one PAF line.
pub fn print_alignment_paf(a: &AlignmentData) -> (out: String)
    ensures
        out@ == spec_paf_line(a@),
{
    let mut out = String::from_str("");
    out.append(a.query_name.as_str());
    out.append("\t");
    out.append(i64_to_string(a.query_length).as_str());
    out.append("\t");
    out.append(i64_to_string(a.query_start).as_str());
    out.append("\t");
    out.append(i64_to_string(a.query_end).as_str());
    out.append("\t");
    out.append(if a.reverse {
        "-"
    } else {
        "+"
    });
    out.append("\t");
    out.append(a.target_name.as_str());
    out.append("\t");
    out.append(i64_to_string(a.target_length).as_str());
    out.append("\t");
    out.append(i64_to_string(a.target_start).as_str());
    out.append("\t");
    out.append(i64_to_string(a.target_end).as_str());
    out.append("\t");
    out.append(i128_to_string(paf_matches(a)).as_str());
    out.append("\t");
    out.append(i128_to_string(paf_block_length(a)).as_str());
    out.append("\t255\tdf:i:");
    out.append(i64_to_string(a.differences).as_str());
    if a.trace_diffs.len() > 0 && a.tracepoints.len() > 0 {
        out.append("\ttp:Z:");
        out.append(paf_pair_text(&a.trace_diffs, &a.tracepoints).as_str());
    }
    out.append("\n");
    proof {
        assert(""@ =~= Seq::<char>::empty()) by {
            reveal_strlit("");
        }
        assert(out@ =~= spec_paf_line(a@));
    }
    out
}

/// Renders the trace-pair tag payload.
fn paf_pair_text(diffs: &Vec<i64>, tps: &Vec<i64>) -> (out: String)
    requires
        diffs@.len() > 0,
        tps@.len() > 0,
    ensures
        out@ == spec_paf_pairs(
            diffs@.map_values(|x: i64| x as int),
            tps@.map_values(|x: i64| x as int),
        ),
{
    let ghost dv: Seq<int> = diffs@.map_values(|x: i64| x as int);
    let ghost tv: Seq<int> = tps@.map_values(|x: i64| x as int);
    let mut out = String::from_str("");
    proof {
        assert(""@ =~= Seq::<char>::empty()) by {
            reveal_strlit("");
        }
    }
    out.append(i64_to_string(diffs[0]).as_str());
    out.append(",");
    out.append(i64_to_string(tps[0]).as_str());
    let ghost head = out@;
    proof {
        assert(head =~= spec_int_chars(dv[0]) + ","@ + spec_int_chars(tv[0]));
        assert(dv.skip(1) =~= dv.drop_first());
        assert(tv.skip(1) =~= tv.drop_first());
    }
    let n = if diffs.len() < tps.len() {
        diffs.len()
    } else {
        tps.len()
    };
    let mut i: usize = 1;
    while i < n
        invariant
            1 <= i <= n,
            n == if diffs@.len() < tps@.len() {
                diffs@.len()
            } else {
                tps@.len()
            },
            dv == diffs@.map_values(|x: i64| x as int),
            tv == tps@.map_values(|x: i64| x as int),
            dv.len() == diffs@.len(),
            tv.len() == tps@.len(),
            out@ + spec_paf_pairs_tail(dv.skip(i as int), tv.skip(i as int)) =~= head
                + spec_paf_pairs_tail(dv.skip(1), tv.skip(1)),
        decreases n - i,
    {
        proof {
            assert(dv.skip(i as int)[0] == dv[i as int]);
            assert(tv.skip(i as int)[0] == tv[i as int]);
            assert(dv.skip(i as int).drop_first() =~= dv.skip(i as int + 1));
            assert(tv.skip(i as int).drop_first() =~= tv.skip(i as int + 1));
        }
        out.append(";");
        out.append(i64_to_string(diffs[i]).as_str());
        out.append(",");
        out.append(i64_to_string(tps[i]).as_str());
        i = i + 1;
    }
    proof {
        assert(dv.skip(n as int).len() == 0 || tv.skip(n as int).len() == 0);
        assert(spec_paf_pairs_tail(dv.skip(n as int), tv.skip(n as int)) =~= Seq::<char>::empty());
        assert(out@ =~= head + spec_paf_pairs_tail(dv.skip(1), tv.skip(1)));
        assert(out@ =~= spec_paf_pairs(dv, tv));
    }
    out
}

/// The output encoding, chosen once per run.
#[derive(Debug, Clone, Copy, PartialEq, Eq, Structural)]
pub enum OutputFormat {
    Human,
    Paf,
}

/// What one alignment renders to under the chosen encoding.
pub open spec fn spec_print_alignment(a: AlignmentV, spacing: int, format: OutputFormat) -> Seq<char> {
    match format {
        OutputFormat::Human => spec_human_block(a, spacing),
        OutputFormat::Paf => spec_paf_line(a),
    }
}

/// Renders one alignment under the chosen encoding.
pub fn print_alignment(a: &AlignmentData, trace_spacing: i64, format: OutputFormat) -> (out: String)
    ensures
        out@ == spec_print_alignment(a@, trace_spacing as int, format),
{
    match format {
        OutputFormat::Human => print_alignment_human(a, trace_spacing),
        OutputFormat::Paf => print_alignment_paf(a),
    }
}

/// Retrieval strategy does not show in the output: the unit a full
/// forward scan yields as number k is the very unit a direct jump to the
/// k-th primary record yields, so resolving and rendering it — with any
/// catalogs, spacing and encoding — gives byte-identical text either way.
pub proof fn lemma_fetch_output_identical(
    recs: Seq<RecordV>,
    k: int,
    qcat: CatalogV,
    tcat: CatalogV,
    spacing: int,
    format: OutputFormat,
)
    requires
        0 <= k < count_primaries(recs),
    ensures
        assemble(recs)[k] == assemble(recs.skip(kth_primary_index(recs, k)))[0],
        spec_resolve(assemble(recs)[k], qcat, tcat) == spec_resolve(
            assemble(recs.skip(kth_primary_index(recs, k)))[0],
            qcat,
            tcat,
        ),
        spec_resolve(assemble(recs)[k], qcat, tcat) matches Ok(a) ==> spec_print_alignment(
            a,
            spacing,
            format,
        ) == spec_print_alignment(
            spec_resolve(assemble(recs.skip(kth_primary_index(recs, k)))[0], qcat, tcat)->Ok_0,
            spacing,
            format,
        ),
{
    lemma_random_access_agrees(recs, k);
}

} // verus!
