//! The coordinate normalizer: maps contig-local spans to scaffold-global
//! ones and corrects reverse-strand target coordinates, erring out instead
//! of wrapping on any overflow.

use vstd::prelude::*;
use crate::error::AlnError;
use crate::unit::{RawUnit, UnitV};

verus! {

/// Whether a mathematical integer fits a signed 64-bit coordinate.
pub open spec fn in_i64(v: int) -> bool {
    i64::MIN <= v <= i64::MAX
}

/// One scaffold-global coordinate span pair, the normalizer's result.
#[derive(Debug)]
pub struct GlobalCoords {
    pub query_start: i64,
    pub query_end: i64,
    pub target_start: i64,
    pub target_end: i64,
}

/// Mathematical view of normalized coordinates.
#[verifier::ext_equal]
pub ghost struct CoordsV {
    pub query_start: int,
    pub query_end: int,
    pub target_start: int,
    pub target_end: int,
}

impl View for GlobalCoords {
    type V = CoordsV;

    open spec fn view(&self) -> CoordsV {
        CoordsV {
            query_start: self.query_start as int,
            query_end: self.query_end as int,
            target_start: self.target_start as int,
            target_end: self.target_end as int,
        }
    }
}

/// The target-local start after strand correction: a reverse-strand span is
/// reflected about its contig's length, so the stored end becomes the
/// forward-oriented start.  Query coordinates are never flipped.
pub open spec fn spec_flipped_target_start(u: UnitV, contig_len: int) -> int {
    if u.reverse {
        contig_len - u.target_end
    } else {
        u.target_start
    }
}

/// The target-local end after strand correction.
pub open spec fn spec_flipped_target_end(u: UnitV, contig_len: int) -> int {
    if u.reverse {
        contig_len - u.target_start
    } else {
        u.target_end
    }
}

/// What normalization returns: the strand-corrected target span and both
/// spans moved by their side's global contig offset, or an overflow error
/// as soon as any of the six derived coordinates leaves the signed 64-bit
/// range.
pub open spec fn spec_normalize(u: UnitV, query_offset: int, target_offset: int, target_contig_len: int) -> Result<CoordsV, AlnError> {
    let flipped_start = spec_flipped_target_start(u, target_contig_len);
    let flipped_end = spec_flipped_target_end(u, target_contig_len);
    if in_i64(flipped_start) && in_i64(flipped_end) && in_i64(query_offset + u.query_start)
        && in_i64(query_offset + u.query_end) && in_i64(target_offset + flipped_start) && in_i64(
        target_offset + flipped_end,
    ) {
        Ok(
            CoordsV {
                query_start: query_offset + u.query_start,
                query_end: query_offset + u.query_end,
                target_start: target_offset + flipped_start,
                target_end: target_offset + flipped_end,
            },
        )
    } else {
        Err(AlnError::CoordinateOverflow)
    }
}

/// View of the normalizer's executable result.
pub open spec fn coords_result_view(r: Result<GlobalCoords, AlnError>) -> Result<CoordsV, AlnError> {
    match r {
        Ok(c) => Ok(c@),
        Err(e) => Err(e),
    }
}

/// Adds a contig's global offset to one coordinate; overflow is a hard
/// error, never a wrapped value.
pub fn add_offset(offset: i64, position: i64) -> (r: Result<i64, AlnError>)
    ensures
        in_i64(offset + position) ==> r == Ok::<i64, AlnError>((offset + position) as i64),
        !in_i64(offset + position) ==> r == Err::<i64, AlnError>(AlnError::CoordinateOverflow),
{
    match offset.checked_add(position) {
        Some(v) => Ok(v),
        None => Err(AlnError::CoordinateOverflow),
    }
}

/// Normalizes one unit: strand-corrects the target span against its contig
/// length, then moves both sides to scaffold-global coordinates.
pub fn normalize_unit(u: &RawUnit, query_offset: i64, target_offset: i64, target_contig_len: i64) -> (r: Result<
    GlobalCoords,
    AlnError,
>)
    ensures
        coords_result_view(r) == spec_normalize(u@, query_offset as int, target_offset as int, target_contig_len as int),
{
    let (flipped_start, flipped_end): (i64, i64) = if u.reverse {
        let s = match target_contig_len.checked_sub(u.target_end) {
            Some(v) => v,
            None => {
                return Err(AlnError::CoordinateOverflow);
            },
        };
        let e = match target_contig_len.checked_sub(u.target_start) {
            Some(v) => v,
            None => {
                return Err(AlnError::CoordinateOverflow);
            },
        };
        (s, e)
    } else {
        (u.target_start, u.target_end)
    };
    let query_start = match add_offset(query_offset, u.query_start) {
        Ok(v) => v,
        Err(e) => {
            return Err(e);
        },
    };
    let query_end = match add_offset(query_offset, u.query_end) {
        Ok(v) => v,
        Err(e) => {
            return Err(e);
        },
    };
    let target_start = match add_offset(target_offset, flipped_start) {
        Ok(v) => v,
        Err(e) => {
            return Err(e);
        },
    };
    let target_end = match add_offset(target_offset, flipped_end) {
        Ok(v) => v,
        Err(e) => {
            return Err(e);
        },
    };
    Ok(GlobalCoords { query_start, query_end, target_start, target_end })
}

/// The reverse-strand flip is order-preserving: with a raw span whose start
/// does not exceed its end, the reflected coordinates satisfy
/// `contig_length - raw_end <= contig_length - raw_start` before offsetting,
/// and whenever normalization succeeds the global target span is ordered
/// the same way.
pub proof fn lemma_reverse_flip_ordered(u: UnitV, query_offset: int, target_offset: int, target_contig_len: int)
    requires
        u.reverse,
        u.target_start <= u.target_end,
    ensures
        target_contig_len - u.target_end <= target_contig_len - u.target_start,
        spec_normalize(u, query_offset, target_offset, target_contig_len) matches Ok(c) ==> c.target_start <= c.target_end,
{
}

} // verus!
