//! Verified core of a viewer for ONE-format pairwise-alignment files.
//!
//! The library reconstructs alignment units from a stream of typed records,
//! normalizes contig-local coordinates to scaffold-global ones, provides
//! random access to the Nth alignment through a derived positional index
//! persisted as a plain-text sidecar, resolves sequence catalogs, and renders
//! units as human-readable blocks or PAF lines.  All record-stream and file
//! I/O lives outside the library; every function here is verified.

pub mod assembler;
pub mod catalog;
pub mod error;
pub mod format;
pub mod index;
pub mod normalize;
pub mod numfmt;
pub mod record;
pub mod resolve;
pub mod resolver;
pub mod sidecar;
pub mod summary;
pub mod unit;
