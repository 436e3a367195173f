//! The metadata summary: file name, trace spacing, catalog sizes, the
//! first ten sequences of each side ordered by id, and the alignment
//! count.

use vstd::prelude::*;
use crate::catalog::{entries_view, ids_sorted, sorted_by_id, CatalogEntry, EntryV, SequenceCatalog};
use crate::numfmt::{i64_to_string, spec_int_chars, spec_nat_chars, u128_to_string};

verus! {

/// One sequence line of the summary.
pub open spec fn spec_entry_line(e: EntryV) -> Seq<char> {
    "  "@ + spec_int_chars(e.id) + ") "@ + e.name + " (length: "@ + spec_int_chars(e.length)
        + ")\n"@
}

/// The listed entries, one line each.
pub open spec fn spec_entry_lines(entries: Seq<EntryV>) -> Seq<char>
    decreases entries.len(),
{
    if entries.len() == 0 {
        Seq::empty()
    } else {
        spec_entry_line(entries[0]) + spec_entry_lines(entries.drop_first())
    }
}

/// One side's section: its title, the first ten sequences, and a tally of
/// the rest; an empty catalog has no section.
pub open spec fn spec_sequence_section(title: Seq<char>, entries: Seq<EntryV>) -> Seq<char> {
    if entries.len() == 0 {
        Seq::empty()
    } else {
        let shown = if entries.len() <= 10 {
            entries
        } else {
            entries.take(10)
        };
        "\n"@ + title + "\n"@ + spec_entry_lines(shown) + (if entries.len() > 10 {
            "  ... and "@ + spec_nat_chars((entries.len() - 10) as nat) + " more\n"@
        } else {
            Seq::empty()
        })
    }
}

/// Renders one side's section from entries already ordered by id.
pub fn sequence_section(title: &str, entries: &Vec<CatalogEntry>) -> (out: String)
    ensures
        out@ == spec_sequence_section(title@, entries_view(entries@)),
{
    let ghost ev = entries_view(entries@);
    if entries.len() == 0 {
        let out = String::from_str("");
        proof {
            assert(""@ =~= Seq::<char>::empty()) by {
                reveal_strlit("");
            }
        }
        return out;
    }
    let mut out = String::from_str("\n");
    out.append(title);
    out.append("\n");
    let shown: usize = if entries.len() <= 10 {
        entries.len()
    } else {
        10
    };
    let ghost shown_entries = if ev.len() <= 10 {
        ev
    } else {
        ev.take(10)
    };
    let ghost head = out@;
    proof {
        assert(shown_entries.len() == shown);
        assert(shown_entries.skip(0) =~= shown_entries);
    }
    let mut i: usize = 0;
    while i < shown
        invariant
            i <= shown,
            shown <= entries@.len(),
            ev == entries_view(entries@),
            ev.len() == entries@.len(),
            shown_entries == (if ev.len() <= 10 {
                ev
            } else {
                ev.take(10)
            }),
            shown == shown_entries.len(),
            out@ + spec_entry_lines(shown_entries.skip(i as int)) =~= head + spec_entry_lines(
                shown_entries,
            ),
        decreases shown - i,
    {
        proof {
            assert(shown_entries.skip(i as int)[0] == shown_entries[i as int]);
            assert(shown_entries[i as int] == ev[i as int]);
            assert(shown_entries.skip(i as int).drop_first() =~= shown_entries.skip(i as int + 1));
        }
        out.append("  ");
        out.append(i64_to_string(entries[i].id).as_str());
        out.append(") ");
        out.append(entries[i].name.as_str());
        out.append(" (length: ");
        out.append(i64_to_string(entries[i].length).as_str());
        out.append(")\n");
        i = i + 1;
    }
    proof {
        assert(shown_entries.skip(shown as int) =~= Seq::<EntryV>::empty());
        assert(out@ =~= head + spec_entry_lines(shown_entries));
    }
    if entries.len() > 10 {
        out.append("  ... and ");
        out.append(u128_to_string((entries.len() - 10) as u128).as_str());
        out.append(" more\n");
    }
    proof {
        assert(out@ =~= spec_sequence_section(title@, ev));
    }
    out
}

/// The whole summary text, given each side's entries already ordered.
pub open spec fn spec_metadata_text(
    path: Seq<char>,
    spacing: int,
    query_sorted: Seq<EntryV>,
    target_sorted: Seq<EntryV>,
    alignment_count: int,
) -> Seq<char> {
    "=== METADATA ===\n\nFile: "@ + path + "\nTrace spacing: "@ + spec_int_chars(spacing)
        + "\nQuery sequences: "@ + spec_nat_chars(query_sorted.len()) + "\nTarget sequences: "@
        + spec_nat_chars(target_sorted.len()) + "\n"@ + spec_sequence_section(
        "Query Sequences:"@,
        query_sorted,
    ) + spec_sequence_section("Target Sequences:"@, target_sorted) + "\nTotal alignments: "@
        + spec_int_chars(alignment_count) + "\n"@
}

/// Renders the metadata summary.  The two catalogs are listed in id order;
/// which of two entries with one id comes first is left open, exactly as
/// far as the sort leaves it open.
pub fn print_metadata(
    query: &SequenceCatalog,
    target: &SequenceCatalog,
    trace_spacing: i64,
    path: &str,
    alignment_count: usize,
) -> (out: String)
    ensures
        exists|qs: Seq<CatalogEntry>, ts: Seq<CatalogEntry>|
            {
                &&& ids_sorted(qs)
                &&& qs.to_multiset() == query.entries@.to_multiset()
                &&& qs.len() == query@.entries.len()
                &&& ids_sorted(ts)
                &&& ts.to_multiset() == target.entries@.to_multiset()
                &&& ts.len() == target@.entries.len()
                &&& out@ == spec_metadata_text(
                    path@,
                    trace_spacing as int,
                    entries_view(qs),
                    entries_view(ts),
                    alignment_count as int,
                )
            },
{
    let query_sorted = sorted_by_id(&query.entries);
    let target_sorted = sorted_by_id(&target.entries);
    let mut out = String::from_str("=== METADATA ===\n\nFile: ");
    out.append(path);
    out.append("\nTrace spacing: ");
    out.append(i64_to_string(trace_spacing).as_str());
    out.append("\nQuery sequences: ");
    out.append(u128_to_string(query_sorted.len() as u128).as_str());
    out.append("\nTarget sequences: ");
    out.append(u128_to_string(target_sorted.len() as u128).as_str());
    out.append("\n");
    out.append(sequence_section("Query Sequences:", &query_sorted).as_str());
    out.append(sequence_section("Target Sequences:", &target_sorted).as_str());
    out.append("\nTotal alignments: ");
    out.append(u128_to_string(alignment_count as u128).as_str());
    out.append("\n");
    proof {
        assert(out@ == spec_metadata_text(
            path@,
            trace_spacing as int,
            entries_view(query_sorted@),
            entries_view(target_sorted@),
            alignment_count as int,
        ));
    }
    out
}

} // verus!
