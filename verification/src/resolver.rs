//! Genome-database path resolution: the role of each declared reference
//! and the ordered list of candidate paths tried for it.  The library
//! computes the candidates; only the existence probe and the database
//! load stay outside.

use vstd::prelude::*;

verus! {

/// What a declared reference is for.
#[derive(Debug, Clone, Copy, PartialEq, Eq, Structural)]
pub enum RefRole {
    /// Role marker 1: the query genome.
    Query,
    /// Role marker 2: the target genome.
    Target,
    /// An empty path or a reserved marker; skipped.
    Ignored,
}

/// The role a (path, marker) reference declaration plays.
pub open spec fn spec_ref_role(path: Seq<char>, marker: int) -> RefRole {
    if path.len() == 0 {
        RefRole::Ignored
    } else if marker == 1 {
        RefRole::Query
    } else if marker == 2 {
        RefRole::Target
    } else {
        RefRole::Ignored
    }
}

/// Classifies one reference declaration.
pub fn ref_role(path: &str, marker: i64) -> (r: RefRole)
    ensures
        r == spec_ref_role(path@, marker as int),
{
    if path.is_empty() {
        RefRole::Ignored
    } else if marker == 1 {
        RefRole::Query
    } else if marker == 2 {
        RefRole::Target
    } else {
        RefRole::Ignored
    }
}

/// Whether `s` ends in `suffix`.
pub open spec fn spec_ends_with(s: Seq<char>, suffix: Seq<char>) -> bool {
    s.len() >= suffix.len() && s.skip(s.len() - suffix.len()) == suffix
}

/// The path with its first matching sequence-file suffix removed, or the
/// path itself when none matches.
pub open spec fn spec_strip_fasta(s: Seq<char>) -> Seq<char> {
    if spec_ends_with(s, ".fasta.gz"@) {
        s.take(s.len() - ".fasta.gz"@.len())
    } else if spec_ends_with(s, ".fa.gz"@) {
        s.take(s.len() - ".fa.gz"@.len())
    } else if spec_ends_with(s, ".fna.gz"@) {
        s.take(s.len() - ".fna.gz"@.len())
    } else if spec_ends_with(s, ".fasta"@) {
        s.take(s.len() - ".fasta"@.len())
    } else if spec_ends_with(s, ".fa"@) {
        s.take(s.len() - ".fa"@.len())
    } else if spec_ends_with(s, ".fna"@) {
        s.take(s.len() - ".fna"@.len())
    } else {
        s
    }
}

/// Tests whether a string ends in the given suffix.
pub fn str_ends_with(s: &str, suffix: &str) -> (r: bool)
    ensures
        r == spec_ends_with(s@, suffix@),
{
    let n = s.unicode_len();
    let m = suffix.unicode_len();
    if m > n {
        return false;
    }
    let off = n - m;
    let mut i: usize = 0;
    while i < m
        invariant
            i <= m,
            off + m == n,
            n == s@.len(),
            m == suffix@.len(),
            forall|q: int| 0 <= q < i ==> s@[off + q] == suffix@[q],
        decreases m - i,
    {
        if s.get_char(off + i) != suffix.get_char(i) {
            proof {
                assert(s@.skip(off as int)[i as int] == s@[off + i]);
                assert(s@.skip(off as int) != suffix@);
            }
            return false;
        }
        i = i + 1;
    }
    proof {
        assert(s@.skip(off as int) =~= suffix@);
    }
    true
}

/// Character-for-character string equality.
pub fn str_equal(a: &str, b: &str) -> (r: bool)
    ensures
        r == (a@ == b@),
{
    let n = a.unicode_len();
    let m = b.unicode_len();
    if n != m {
        return false;
    }
    let mut i: usize = 0;
    while i < n
        invariant
            i <= n,
            n == a@.len(),
            n == b@.len(),
            forall|q: int| 0 <= q < i ==> a@[q] == b@[q],
        decreases n - i,
    {
        if a.get_char(i) != b.get_char(i) {
            return false;
        }
        i = i + 1;
    }
    proof {
        assert(a@ =~= b@);
    }
    true
}

/// Removes the suffix of the given length and returns the prefix as an
/// owned string.
fn take_prefix(s: &str, suffix_len: usize) -> (r: String)
    requires
        suffix_len <= s@.len(),
    ensures
        r@ == s@.take(s@.len() - suffix_len),
{
    let n = s.unicode_len();
    let prefix = s.substring_char(0, n - suffix_len);
    proof {
        assert(s@.subrange(0, n - suffix_len) =~= s@.take(s@.len() - suffix_len));
    }
    String::from_str(prefix)
}

/// Strips the first matching sequence-file suffix from a path.
pub fn strip_fasta_ext(p: &str) -> (r: String)
    ensures
        r@ == spec_strip_fasta(p@),
{
    if str_ends_with(p, ".fasta.gz") {
        take_prefix(p, ".fasta.gz".unicode_len())
    } else if str_ends_with(p, ".fa.gz") {
        take_prefix(p, ".fa.gz".unicode_len())
    } else if str_ends_with(p, ".fna.gz") {
        take_prefix(p, ".fna.gz".unicode_len())
    } else if str_ends_with(p, ".fasta") {
        take_prefix(p, ".fasta".unicode_len())
    } else if str_ends_with(p, ".fa") {
        take_prefix(p, ".fa".unicode_len())
    } else if str_ends_with(p, ".fna") {
        take_prefix(p, ".fna".unicode_len())
    } else {
        String::from_str(p)
    }
}

/// A path under the alignment file's directory.
pub open spec fn spec_join(dir: Seq<char>, p: Seq<char>) -> Seq<char> {
    dir + "/"@ + p
}

/// Joins the alignment file's directory with a candidate name.
fn join_path(dir: &str, p: &str) -> (r: String)
    ensures
        r@ == spec_join(dir@, p@),
{
    let mut r = String::from_str(dir);
    r.append("/");
    r.append(p);
    r
}

/// Concatenates a path and a suffix.
fn with_suffix(p: &str, suffix: &str) -> (r: String)
    ensures
        r@ == p@ + suffix@,
{
    let mut r = String::from_str(p);
    r.append(suffix);
    r
}

/// The ordered candidate paths for one reference declaration: the path as
/// given; the path with a database suffix; the suffix-stripped path with a
/// database suffix; then, under the alignment file's directory, first the
/// stripped-then-suffixed forms (so a raw sequence file is not matched in
/// place of its database), then the suffixed forms, and the path as given
/// last.  The first candidate that exists on disk wins; probing is the
/// caller's side of the boundary.
pub open spec fn spec_gdb_candidates(ref_path: Seq<char>, aln_dir: Seq<char>) -> Seq<Seq<char>> {
    let base = spec_strip_fasta(ref_path);
    seq![ref_path, ref_path + ".1gdb"@, ref_path + ".gdb"@] + (if base != ref_path {
        seq![
            base + ".1gdb"@,
            base + ".gdb"@,
            spec_join(aln_dir, base + ".1gdb"@),
            spec_join(aln_dir, base + ".gdb"@),
        ]
    } else {
        Seq::empty()
    }) + seq![
        spec_join(aln_dir, ref_path + ".1gdb"@),
        spec_join(aln_dir, ref_path + ".gdb"@),
        spec_join(aln_dir, ref_path),
    ]
}

/// Builds the ordered candidate list for one reference declaration.
pub fn gdb_candidates(ref_path: &str, aln_dir: &str) -> (cands: Vec<String>)
    ensures
        cands@.map_values(|c: String| c@) =~= spec_gdb_candidates(ref_path@, aln_dir@),
{
    let base = strip_fasta_ext(ref_path);
    let mut cands: Vec<String> = Vec::new();
    cands.push(String::from_str(ref_path));
    cands.push(with_suffix(ref_path, ".1gdb"));
    cands.push(with_suffix(ref_path, ".gdb"));
    let stripped = !str_equal(base.as_str(), ref_path);
    if stripped {
        cands.push(with_suffix(base.as_str(), ".1gdb"));
        cands.push(with_suffix(base.as_str(), ".gdb"));
        cands.push(join_path(aln_dir, with_suffix(base.as_str(), ".1gdb").as_str()));
        cands.push(join_path(aln_dir, with_suffix(base.as_str(), ".gdb").as_str()));
    }
    cands.push(join_path(aln_dir, with_suffix(ref_path, ".1gdb").as_str()));
    cands.push(join_path(aln_dir, with_suffix(ref_path, ".gdb").as_str()));
    cands.push(join_path(aln_dir, ref_path));
    cands
}

} // verus!
