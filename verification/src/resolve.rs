//! Resolving one raw unit against the catalogs: names and lengths are
//! looked up by id, then the coordinate normalizer produces the
//! scaffold-global spans.  A missing catalog entry never aborts the run:
//! that side degrades to the placeholder name, a zero length, and
//! pass-through coordinates.

use vstd::prelude::*;
use crate::catalog::{spec_find, SequenceCatalog, CatalogV};
use crate::error::AlnError;
use crate::normalize::{normalize_unit, spec_normalize};
use crate::record::copy_ints;
use crate::unit::{AlignmentData, AlignmentV, RawUnit, UnitV};

verus! {

/// The name one side renders: the catalog entry's, or the placeholder
/// when the catalog has no entry for the id.
pub open spec fn spec_side_name(cat: CatalogV, id: int) -> Seq<char> {
    match spec_find(cat.entries, id) {
        Some(e) => e.name,
        None => "unknown"@,
    }
}

/// The total sequence length one side reports: the catalog entry's, or
/// zero when the catalog has no entry for the id.
pub open spec fn spec_side_length(cat: CatalogV, id: int) -> int {
    match spec_find(cat.entries, id) {
        Some(e) => e.length,
        None => 0,
    }
}

/// The global offset applied to one side's coordinates: the entry's when
/// the catalog carries an offset table, else zero, so coordinates pass
/// through unmoved for a degraded side.
pub open spec fn spec_side_offset(cat: CatalogV, id: int) -> int {
    match spec_find(cat.entries, id) {
        Some(e) => if cat.has_offsets {
            e.global_offset
        } else {
            0
        },
        None => 0,
    }
}

/// The contig length the reverse-strand flip reflects about: the entry's
/// contig length with an offset table, the entry's sequence length
/// without one, and zero when no entry is available at all — the flip
/// still applies with whatever length the catalog could supply.
pub open spec fn spec_target_contig_len(cat: CatalogV, id: int) -> int {
    match spec_find(cat.entries, id) {
        Some(e) => if cat.has_offsets {
            e.contig_length
        } else {
            e.length
        },
        None => 0,
    }
}

/// What resolving a unit returns: the fully resolved alignment, or a
/// coordinate overflow from normalization.  A sequence id absent from a
/// side's catalog is non-fatal: that side renders the placeholder name
/// with a zero length and its coordinates pass through unmoved.
pub open spec fn spec_resolve(u: UnitV, qcat: CatalogV, tcat: CatalogV) -> Result<AlignmentV, AlnError> {
    match spec_normalize(
        u,
        spec_side_offset(qcat, u.query_id),
        spec_side_offset(tcat, u.target_id),
        spec_target_contig_len(tcat, u.target_id),
    ) {
        Err(e) => Err(e),
        Ok(c) => Ok(
            AlignmentV {
                query_name: spec_side_name(qcat, u.query_id),
                query_length: spec_side_length(qcat, u.query_id),
                query_start: c.query_start,
                query_end: c.query_end,
                target_name: spec_side_name(tcat, u.target_id),
                target_length: spec_side_length(tcat, u.target_id),
                target_start: c.target_start,
                target_end: c.target_end,
                reverse: u.reverse,
                differences: u.differences,
                tracepoints: u.tracepoints,
                trace_diffs: u.trace_diffs,
            },
        ),
    }
}

/// View of the resolver's executable result.
pub open spec fn aln_result_view(r: Result<AlignmentData, AlnError>) -> Result<AlignmentV, AlnError> {
    match r {
        Ok(a) => Ok(a@),
        Err(e) => Err(e),
    }
}

/// Resolves one assembled unit against the query and target catalogs.
pub fn resolve_unit(u: &RawUnit, qcat: &SequenceCatalog, tcat: &SequenceCatalog) -> (r: Result<
    AlignmentData,
    AlnError,
>)
    ensures
        aln_result_view(r) == spec_resolve(u@, qcat@, tcat@),
{
    let (query_name, query_length, query_offset): (String, i64, i64) = match qcat.find(u.query_id) {
        Some(e) => (
            e.name.clone(),
            e.length,
            if qcat.has_offsets {
                e.global_offset
            } else {
                0
            },
        ),
        None => (String::from_str("unknown"), 0, 0),
    };
    let (target_name, target_length, target_offset, target_contig_len): (String, i64, i64, i64) = match tcat.find(
        u.target_id,
    ) {
        Some(e) => (
            e.name.clone(),
            e.length,
            if tcat.has_offsets {
                e.global_offset
            } else {
                0
            },
            if tcat.has_offsets {
                e.contig_length
            } else {
                e.length
            },
        ),
        None => (String::from_str("unknown"), 0, 0, 0),
    };
    let coords = match normalize_unit(u, query_offset, target_offset, target_contig_len) {
        Ok(c) => c,
        Err(e) => {
            return Err(e);
        },
    };
    let aln = AlignmentData {
        query_name,
        query_length,
        query_start: coords.query_start,
        query_end: coords.query_end,
        target_name,
        target_length,
        target_start: coords.target_start,
        target_end: coords.target_end,
        reverse: u.reverse,
        differences: u.differences,
        tracepoints: copy_ints(&u.tracepoints),
        trace_diffs: copy_ints(&u.trace_diffs),
    };
    proof {
        assert(aln@ =~= spec_resolve(u@, qcat@, tcat@)->Ok_0);
    }
    Ok(aln)
}

} // verus!
