//! The library's error type.

use vstd::prelude::*;
use crate::numfmt::{u128_to_string, spec_nat_chars};

verus! {

/// Everything that can go wrong while resolving, indexing or rendering an
/// alignment unit.
#[derive(Debug, PartialEq, Eq, Structural)]
pub enum AlnError {
    /// Adding a contig offset (or flipping a reverse-strand span) left the
    /// signed 64-bit coordinate range.
    CoordinateOverflow,
    /// An alignment ordinal at or past the file's unit count was requested.
    OutOfRange { requested: usize, count: usize },
    /// The sidecar index file does not have the declared shape.
    CorruptIndex,
}

impl AlnError {
    /// A human-readable description, for the process's error stream.
    pub fn message(&self) -> (m: String)
        ensures
            self is CoordinateOverflow ==> m@ == "coordinate overflow when applying contig offset"@,
            self matches AlnError::OutOfRange { requested, count } ==> m@ == "alignment "@ + spec_nat_chars(*requested as nat) + " is out of range: the file holds "@ + spec_nat_chars(*count as nat) + " alignments"@,
            self is CorruptIndex ==> m@ == "corrupt index: sidecar does not have the declared shape"@,
    {
        match self {
            AlnError::CoordinateOverflow => String::from_str(
                "coordinate overflow when applying contig offset",
            ),
            AlnError::OutOfRange { requested, count } => {
                let mut m = String::from_str("alignment ");
                m.append(u128_to_string(*requested as u128).as_str());
                m.append(" is out of range: the file holds ");
                m.append(u128_to_string(*count as u128).as_str());
                m.append(" alignments");
                m
            },
            AlnError::CorruptIndex => String::from_str(
                "corrupt index: sidecar does not have the declared shape",
            ),
        }
    }
}

} // verus!
