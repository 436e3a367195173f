//! The sidecar index file codec: plain text, one integer per line —
//! line 1 the trace spacing, line 2 the record count, then one stream
//! position per primary record.  Rendering and parsing are both fully
//! specified, and parsing is proved to invert rendering, so a persisted
//! index reloads to the same value.

use vstd::prelude::*;
use crate::assembler::{
    assemble, count_primaries, kth_primary_index, lemma_count_primaries_le_len,
    lemma_random_access_agrees,
};
use crate::error::AlnError;
use crate::index::{
    lemma_position_of_kth_primary, lemma_primary_positions_len, primary_positions, spec_trace_spacing,
    AccessIndex, IndexV,
};
use crate::normalize::in_i64;
use crate::numfmt::{digit_byte, spec_int_bytes, spec_nat_bytes};
use crate::record::RecordV;

verus! {

/// The line separator of the sidecar file.
pub const NL: u8 = 0x0a;

/// Whether a byte is a decimal digit.
pub open spec fn is_ascii_digit(b: u8) -> bool {
    0x30 <= b <= 0x39
}

/// Whether every byte of a run is a decimal digit.
pub open spec fn all_digits(s: Seq<u8>) -> bool {
    forall|i: int| 0 <= i < s.len() ==> is_ascii_digit(s[i])
}

/// The value of a digit run read left to right onto an accumulator.
pub open spec fn spec_digits_value(s: Seq<u8>, acc: int) -> int
    decreases s.len(),
{
    if s.len() == 0 {
        acc
    } else {
        spec_digits_value(s.drop_first(), acc * 10 + (s[0] - 0x30))
    }
}

/// What one sidecar line means: an optional '-' followed by one or more
/// digits, or nothing.
pub open spec fn spec_parse_int(s: Seq<u8>) -> Option<int> {
    if s.len() >= 2 && s[0] == 0x2d && all_digits(s.skip(1)) {
        Some(-spec_digits_value(s.skip(1), 0))
    } else if s.len() >= 1 && all_digits(s) {
        Some(spec_digits_value(s, 0))
    } else {
        None
    }
}

/// Appends the decimal digits of a natural number.
pub fn push_nat_bytes(out: &mut Vec<u8>, n: u64)
    ensures
        final(out)@ == old(out)@ + spec_nat_bytes(n as nat),
    decreases n,
{
    if n < 10 {
        out.push(0x30 + n as u8);
        proof {
            assert(out@ =~= old(out)@ + spec_nat_bytes(n as nat));
        }
    } else {
        push_nat_bytes(out, n / 10);
        out.push(0x30 + (n % 10) as u8);
        proof {
            assert(out@ =~= old(out)@ + spec_nat_bytes(n as nat));
        }
    }
}

/// Appends the decimal rendering of a signed 64-bit integer.
pub fn push_int_bytes(out: &mut Vec<u8>, v: i64)
    ensures
        final(out)@ == old(out)@ + spec_int_bytes(v as int),
{
    if v >= 0 {
        push_nat_bytes(out, v as u64);
    } else {
        out.push(0x2d);
        let magnitude: i128 = -(v as i128);
        push_nat_bytes(out, magnitude as u64);
        proof {
            assert(out@ =~= old(out)@ + spec_int_bytes(v as int));
        }
    }
}

/// A digit run's value only grows from its accumulator.
proof fn lemma_digits_value_lower(s: Seq<u8>, acc: int)
    requires
        acc >= 0,
        all_digits(s),
    ensures
        spec_digits_value(s, acc) >= acc,
    decreases s.len(),
{
    if s.len() == 0 {
    } else {
        assert(is_ascii_digit(s[0]));
        lemma_digits_value_lower(s.drop_first(), acc * 10 + (s[0] - 0x30));
    }
}

/// Parses one sidecar line as a signed 64-bit integer; malformed lines and
/// values outside the 64-bit range give nothing.
pub fn parse_i64_line(s: &Vec<u8>) -> (r: Option<i64>)
    ensures
        spec_parse_int(s@) is None ==> r is None,
        spec_parse_int(s@) matches Some(v) ==> (if in_i64(v) {
            r == Some(v as i64)
        } else {
            r is None
        }),
{
    let n = s.len();
    if n == 0 {
        return None;
    }
    let neg = s[0] == 0x2d;
    let start: usize = if neg {
        1
    } else {
        0
    };
    if start == n {
        return None;
    }
    let ghost run: Seq<u8> = s@.skip(start as int);
    proof {
        assert(run.skip(0) =~= run);
    }
    let mut acc: u64 = 0;
    let mut i: usize = start;
    while i < n
        invariant
            start <= i <= n,
            n == s@.len(),
            start == if neg {
                1int
            } else {
                0int
            },
            neg ==> s@[0] == 0x2d,
            !neg ==> s@[0] != 0x2d,
            run == s@.skip(start as int),
            run.len() > 0,
            forall|q: int| 0 <= q < i - start ==> is_ascii_digit(#[trigger] run[q]),
            spec_digits_value(run, 0) == spec_digits_value(run.skip(i - start), acc as int),
        decreases n - i,
    {
        let b = s[i];
        proof {
            assert(run[i - start] == s@[i as int]);
        }
        if b < 0x30 || b > 0x39 {
            proof {
                assert(!is_ascii_digit(run[i - start]));
                assert(!all_digits(run));
                assert(!all_digits(s@)) by {
                    assert(s@[i as int] == run[i - start]);
                }
            }
            return None;
        }
        let d = (b - 0x30) as u64;
        proof {
            assert(run.skip(i - start)[0] == run[i - start]);
            assert(run.skip(i - start).drop_first() =~= run.skip(i - start + 1));
        }
        let next = match acc.checked_mul(10) {
            Some(a) => a.checked_add(d),
            None => None,
        };
        acc = match next {
            Some(a) => a,
            None => {
                proof {
                    if neg {
                        assert(run =~= s@.skip(1));
                        assert(!all_digits(s@)) by {
                            assert(!is_ascii_digit(s@[0]));
                        }
                    } else {
                        assert(run =~= s@);
                    }
                    if all_digits(run) {
                        assert(forall|q: int| 0 <= q < run.skip(i - start + 1).len()
                            ==> is_ascii_digit(#[trigger] run.skip(i - start + 1)[q]));
                        lemma_digits_value_lower(run.skip(i - start + 1), acc as int * 10 + d);
                        assert(spec_digits_value(run, 0) > u64::MAX);
                    }
                }
                return None;
            },
        };
        i = i + 1;
    }
    proof {
        assert(run.skip(n - start) =~= Seq::<u8>::empty());
        assert(spec_digits_value(run, 0) == acc as int);
        assert(all_digits(run));
        if !neg {
            assert(run =~= s@);
        } else {
            assert(run =~= s@.skip(1));
        }
    }
    if neg {
        if acc <= 0x7fff_ffff_ffff_ffffu64 {
            Some(-(acc as i64))
        } else if acc == 0x8000_0000_0000_0000u64 {
            Some(i64::MIN)
        } else {
            None
        }
    } else {
        if acc <= 0x7fff_ffff_ffff_ffffu64 {
            Some(acc as i64)
        } else {
            None
        }
    }
}

/// The index of the first newline of a run, or the run's length if none.
pub open spec fn first_nl(s: Seq<u8>) -> int
    decreases s.len(),
{
    if s.len() == 0 {
        0
    } else if s[0] == NL {
        0
    } else {
        1 + first_nl(s.drop_first())
    }
}

/// `first_nl` points at the first newline: nothing before it is one, and
/// it stays within the run.
pub proof fn lemma_first_nl_bounds(s: Seq<u8>)
    ensures
        0 <= first_nl(s) <= s.len(),
        forall|i: int| 0 <= i < first_nl(s) ==> s[i] != NL,
        first_nl(s) < s.len() ==> s[first_nl(s)] == NL,
    decreases s.len(),
{
    if s.len() == 0 {
    } else if s[0] == NL {
    } else {
        lemma_first_nl_bounds(s.drop_first());
        assert forall|i: int| 0 <= i < first_nl(s) implies s[i] != NL by {
            if i >= 1 {
                assert(s[i] == s.drop_first()[i - 1]);
            }
        }
    }
}

/// A run without newlines has none to find.
pub proof fn lemma_first_nl_none(s: Seq<u8>)
    requires
        forall|i: int| 0 <= i < s.len() ==> s[i] != NL,
    ensures
        first_nl(s) == s.len(),
    decreases s.len(),
{
    if s.len() == 0 {
    } else {
        lemma_first_nl_none(s.drop_first());
    }
}

/// The lines of a byte run, split at newlines; a trailing newline closes
/// the last line rather than opening an empty one.
pub open spec fn spec_lines(s: Seq<u8>) -> Seq<Seq<u8>>
    decreases s.len(),
    via spec_lines_decreases
{
    if s.len() == 0 {
        Seq::empty()
    } else {
        let j = first_nl(s);
        if j == s.len() {
            seq![s]
        } else {
            seq![s.take(j)] + spec_lines(s.skip(j + 1))
        }
    }
}

#[via_fn]
proof fn spec_lines_decreases(s: Seq<u8>) {
    lemma_first_nl_bounds(s);
}

/// Splitting takes one newline-free line off the front.
pub proof fn lemma_lines_prepend(line: Seq<u8>, rest: Seq<u8>)
    requires
        forall|i: int| 0 <= i < line.len() ==> line[i] != NL,
    ensures
        spec_lines(line + seq![NL] + rest) =~= seq![line] + spec_lines(rest),
    decreases line.len(),
{
    let s = line + seq![NL] + rest;
    if line.len() == 0 {
        assert(s[0] == NL);
        assert(first_nl(s) == 0);
        assert(s.take(0) =~= line);
        assert(s.skip(1) =~= rest);
    } else {
        assert(s[0] == line[0]);
        assert(s.drop_first() =~= line.drop_first() + seq![NL] + rest);
        lemma_lines_prepend(line.drop_first(), rest);
        assert(first_nl(s) == 1 + first_nl(line.drop_first() + seq![NL] + rest));
        lemma_first_nl_bounds(line.drop_first() + seq![NL] + rest);
        assert(first_nl(line.drop_first() + seq![NL] + rest) == line.len() - 1) by {
            lemma_first_nl_prefix(line.drop_first(), rest);
        }
        assert(first_nl(s) == line.len());
        assert(s.take(line.len() as int) =~= line);
        assert(s.skip(line.len() as int + 1) =~= rest);
    }
}

/// The first newline of `line + [NL] + rest` sits right after `line`.
proof fn lemma_first_nl_prefix(line: Seq<u8>, rest: Seq<u8>)
    requires
        forall|i: int| 0 <= i < line.len() ==> line[i] != NL,
    ensures
        first_nl(line + seq![NL] + rest) == line.len(),
    decreases line.len(),
{
    let s = line + seq![NL] + rest;
    if line.len() == 0 {
        assert(s[0] == NL);
    } else {
        assert(s[0] == line[0]);
        assert(s.drop_first() =~= line.drop_first() + seq![NL] + rest);
        lemma_first_nl_prefix(line.drop_first(), rest);
    }
}

/// A non-empty run without newlines is one line.
pub proof fn lemma_lines_single(s: Seq<u8>)
    requires
        s.len() > 0,
        forall|i: int| 0 <= i < s.len() ==> s[i] != NL,
    ensures
        spec_lines(s) =~= seq![s],
{
    lemma_first_nl_none(s);
}

/// View of a split line list.
pub open spec fn lines_view(ls: Seq<Vec<u8>>) -> Seq<Seq<u8>> {
    ls.map_values(|l: Vec<u8>| l@)
}

/// Splits a byte run into its lines.
pub fn split_lines(text: &Vec<u8>) -> (lines: Vec<Vec<u8>>)
    ensures
        lines_view(lines@) =~= spec_lines(text@),
{
    let mut lines: Vec<Vec<u8>> = Vec::new();
    let mut cur: Vec<u8> = Vec::new();
    let n = text.len();
    let mut i: usize = 0;
    proof {
        assert(cur@ + text@.skip(0) =~= text@);
        assert(lines_view(lines@) + spec_lines(cur@ + text@.skip(0)) =~= spec_lines(text@));
    }
    while i < n
        invariant
            i <= n,
            n == text@.len(),
            forall|q: int| 0 <= q < cur@.len() ==> cur@[q] != NL,
            lines_view(lines@) + spec_lines(cur@ + text@.skip(i as int)) =~= spec_lines(text@),
        decreases n - i,
    {
        let b = text[i];
        if b == NL {
            proof {
                assert(cur@ + text@.skip(i as int) =~= cur@ + seq![NL] + text@.skip(i as int + 1));
                lemma_lines_prepend(cur@, text@.skip(i as int + 1));
            }
            let ghost lines_before = lines@;
            let ghost cur_view = cur@;
            lines.push(cur);
            cur = Vec::new();
            proof {
                assert(lines_view(lines@) =~= lines_view(lines_before).push(cur_view));
                assert(cur@ + text@.skip(i as int + 1) =~= text@.skip(i as int + 1));
                assert(lines_view(lines@) + spec_lines(text@.skip(i as int + 1)) =~= spec_lines(
                    text@,
                ));
            }
        } else {
            proof {
                assert(cur@.push(b) + text@.skip(i as int + 1) =~= cur@ + text@.skip(i as int));
            }
            cur.push(b);
        }
        i = i + 1;
    }
    proof {
        assert(cur@ + text@.skip(n as int) =~= cur@);
    }
    if cur.len() > 0 {
        proof {
            lemma_lines_single(cur@);
        }
        let ghost lines_before = lines@;
        let ghost cur_view = cur@;
        lines.push(cur);
        proof {
            assert(lines_view(lines@) =~= lines_view(lines_before).push(cur_view));
        }
    } else {
        proof {
            assert(spec_lines(cur@) =~= Seq::<Seq<u8>>::empty());
            assert(lines_view(lines@) =~= spec_lines(text@));
        }
    }
    lines
}

/// The position lines of the sidecar, one rendered integer per line.
pub open spec fn spec_positions_bytes(ps: Seq<int>) -> Seq<u8>
    decreases ps.len(),
{
    if ps.len() == 0 {
        Seq::empty()
    } else {
        spec_int_bytes(ps[0]) + seq![NL] + spec_positions_bytes(ps.drop_first())
    }
}

/// The whole sidecar file: spacing, count, then the positions.
pub open spec fn spec_render_sidecar(idx: IndexV) -> Seq<u8> {
    spec_int_bytes(idx.spacing) + seq![NL] + spec_int_bytes(idx.positions.len() as int) + seq![NL]
        + spec_positions_bytes(idx.positions)
}

/// Renders the derived index as its sidecar file.
pub fn render_sidecar(idx: &AccessIndex) -> (out: Vec<u8>)
    ensures
        out@ =~= spec_render_sidecar(idx@),
{
    let ghost ps = idx@.positions;
    let mut out: Vec<u8> = Vec::new();
    push_int_bytes(&mut out, idx.spacing);
    out.push(NL);
    let count = idx.positions.len();
    push_nat_bytes(&mut out, count as u64);
    out.push(NL);
    let ghost header = out@;
    proof {
        assert(spec_int_bytes(count as int) == spec_nat_bytes(count as nat));
        assert(ps.skip(0) =~= ps);
        assert(header + spec_positions_bytes(ps.skip(0)) =~= header + spec_positions_bytes(ps));
    }
    let n = idx.positions.len();
    let mut i: usize = 0;
    while i < n
        invariant
            i <= n,
            n == idx.positions@.len(),
            ps == idx@.positions,
            ps.len() == n,
            out@ + spec_positions_bytes(ps.skip(i as int)) =~= header + spec_positions_bytes(ps),
        decreases n - i,
    {
        proof {
            assert(ps.skip(i as int)[0] == ps[i as int]);
            assert(ps.skip(i as int).drop_first() =~= ps.skip(i as int + 1));
        }
        let ghost out_before = out@;
        push_int_bytes(&mut out, idx.positions[i]);
        out.push(NL);
        proof {
            assert(out@ =~= out_before + spec_int_bytes(ps[i as int]) + seq![NL]);
            assert(out@ + spec_positions_bytes(ps.skip(i as int + 1)) =~= out_before
                + spec_positions_bytes(ps.skip(i as int)));
        }
        i = i + 1;
    }
    proof {
        assert(ps.skip(n as int) =~= Seq::<int>::empty());
        assert(out@ =~= header + spec_positions_bytes(ps));
        assert(header + spec_positions_bytes(ps) =~= spec_render_sidecar(idx@));
    }
    out
}

/// What the position lines mean: every line must be an integer in the
/// signed 64-bit range.
pub open spec fn spec_parse_positions(ls: Seq<Seq<u8>>) -> Option<Seq<int>>
    decreases ls.len(),
{
    if ls.len() == 0 {
        Some(Seq::empty())
    } else {
        match spec_parse_int(ls[0]) {
            None => None,
            Some(v) => if !in_i64(v) {
                None
            } else {
                match spec_parse_positions(ls.drop_first()) {
                    None => None,
                    Some(t) => Some(seq![v] + t),
                }
            },
        }
    }
}

/// What parsing a sidecar file returns: the index it declares, or a
/// corrupt-index error when the file has fewer than two lines, a line is
/// not an integer in range, or the declared count differs from the number
/// of position lines actually present.
pub open spec fn spec_parse_sidecar(s: Seq<u8>) -> Result<IndexV, AlnError> {
    let ls = spec_lines(s);
    if ls.len() < 2 {
        Err(AlnError::CorruptIndex)
    } else {
        match spec_parse_int(ls[0]) {
            None => Err(AlnError::CorruptIndex),
            Some(sp) => if !in_i64(sp) {
                Err(AlnError::CorruptIndex)
            } else {
                match spec_parse_int(ls[1]) {
                    None => Err(AlnError::CorruptIndex),
                    Some(cnt) => if !in_i64(cnt) || cnt != ls.len() - 2 {
                        Err(AlnError::CorruptIndex)
                    } else {
                        match spec_parse_positions(ls.skip(2)) {
                            None => Err(AlnError::CorruptIndex),
                            Some(ps) => Ok(IndexV { spacing: sp, positions: ps }),
                        }
                    },
                }
            },
        }
    }
}

/// View of the parser's executable result.
pub open spec fn index_result_view(r: Result<AccessIndex, AlnError>) -> Result<IndexV, AlnError> {
    match r {
        Ok(idx) => Ok(idx@),
        Err(e) => Err(e),
    }
}

/// Parses a sidecar file back into the derived index.
pub fn parse_sidecar(text: &Vec<u8>) -> (r: Result<AccessIndex, AlnError>)
    ensures
        index_result_view(r) == spec_parse_sidecar(text@),
{
    let lines = split_lines(text);
    let ghost lsv = spec_lines(text@);
    proof {
        assert(lines_view(lines@) == lsv);
    }
    if lines.len() < 2 {
        return Err(AlnError::CorruptIndex);
    }
    let spacing = match parse_i64_line(&lines[0]) {
        Some(v) => v,
        None => {
            return Err(AlnError::CorruptIndex);
        },
    };
    let cnt = match parse_i64_line(&lines[1]) {
        Some(v) => v,
        None => {
            return Err(AlnError::CorruptIndex);
        },
    };
    let rem = lines.len() - 2;
    if cnt < 0 || (cnt as u64) != (rem as u64) {
        return Err(AlnError::CorruptIndex);
    }
    let mut positions: Vec<i64> = Vec::new();
    let n = lines.len();
    let mut k: usize = 2;
    proof {
        assert(positions@.map_values(|p: i64| p as int) =~= Seq::<int>::empty());
    }
    while k < n
        invariant
            2 <= k <= n,
            n == lines@.len(),
            lsv == lines_view(lines@),
            lsv.len() == n,
            positions@.len() == k - 2,
            match spec_parse_positions(lsv.skip(k as int)) {
                Some(t) => spec_parse_positions(lsv.skip(2)) == Some(
                    positions@.map_values(|p: i64| p as int) + t,
                ),
                None => spec_parse_positions(lsv.skip(2)) is None,
            },
            match spec_parse_positions(lsv.skip(2)) {
                Some(ps) => spec_parse_sidecar(text@) == Ok::<IndexV, AlnError>(
                    (IndexV { spacing: spacing as int, positions: ps }),
                ),
                None => spec_parse_sidecar(text@) == Err::<IndexV, AlnError>(AlnError::CorruptIndex),
            },
        decreases n - k,
    {
        proof {
            assert(lsv.skip(k as int)[0] == lsv[k as int]);
            assert(lsv.skip(k as int).drop_first() =~= lsv.skip(k as int + 1));
            assert(lines@[k as int]@ == lsv[k as int]);
        }
        let p = match parse_i64_line(&lines[k]) {
            Some(v) => v,
            None => {
                proof {
                    assert(spec_parse_positions(lsv.skip(k as int)) is None);
                    assert(spec_parse_positions(lsv.skip(2)) is None);
                }
                return Err(AlnError::CorruptIndex);
            },
        };
        let ghost pos_before = positions@;
        positions.push(p);
        proof {
            assert(positions@.map_values(|q: i64| q as int) =~= pos_before.map_values(
                |q: i64| q as int,
            ).push(p as int));
            match spec_parse_positions(lsv.skip(k as int + 1)) {
                Some(t) => {
                    assert(pos_before.map_values(|q: i64| q as int) + (seq![p as int] + t)
                        =~= positions@.map_values(|q: i64| q as int) + t);
                },
                None => {},
            }
        }
        k = k + 1;
    }
    proof {
        assert(lsv.skip(n as int) =~= Seq::<Seq<u8>>::empty());
        assert(positions@.map_values(|p: i64| p as int) + Seq::<int>::empty() =~= positions@.map_values(
            |p: i64| p as int,
        ));
    }
    let idx = AccessIndex { spacing, positions };
    proof {
        assert(idx@ =~= spec_parse_sidecar(text@)->Ok_0);
    }
    Ok(idx)
}

/// A rendered natural number is one or more digits.
proof fn lemma_nat_bytes_digits(n: nat)
    ensures
        all_digits(spec_nat_bytes(n)),
        spec_nat_bytes(n).len() >= 1,
    decreases n,
{
    if n < 10 {
    } else {
        lemma_nat_bytes_digits(n / 10);
    }
}

/// A rendered integer is non-empty and holds no newline.
proof fn lemma_int_bytes_no_nl(v: int)
    ensures
        spec_int_bytes(v).len() >= 1,
        forall|i: int| 0 <= i < spec_int_bytes(v).len() ==> spec_int_bytes(v)[i] != NL,
{
    if v < 0 {
        lemma_nat_bytes_digits((-v) as nat);
    } else {
        lemma_nat_bytes_digits(v as nat);
    }
}

/// How far one more digit column shifts the accumulator: ten to the number
/// of digits of `n`.
spec fn pow10_len(n: nat) -> int
    decreases n,
{
    if n < 10 {
        10
    } else {
        10 * pow10_len(n / 10)
    }
}

/// Reading one more digit multiplies the run's value by ten and adds it.
proof fn lemma_digits_value_push(s: Seq<u8>, b: u8, acc: int)
    ensures
        spec_digits_value(s.push(b), acc) == spec_digits_value(s, acc) * 10 + (b - 0x30),
    decreases s.len(),
{
    if s.len() == 0 {
        assert(s.push(b)[0] == b);
        assert(s.push(b).drop_first() =~= Seq::<u8>::empty());
        assert(spec_digits_value(Seq::<u8>::empty(), acc * 10 + (b - 0x30)) == acc * 10 + (b
            - 0x30));
        assert(spec_digits_value(s.push(b), acc) == spec_digits_value(s.push(b).drop_first(), acc
            * 10 + (b - 0x30)));
    } else {
        assert(s.push(b)[0] == s[0]);
        assert(s.push(b).drop_first() =~= s.drop_first().push(b));
        lemma_digits_value_push(s.drop_first(), b, acc * 10 + (s[0] - 0x30));
        assert(spec_digits_value(s, acc) == spec_digits_value(s.drop_first(), acc * 10 + (s[0]
            - 0x30)));
        assert(spec_digits_value(s.push(b), acc) == spec_digits_value(s.drop_first().push(b), acc
            * 10 + (s[0] - 0x30)));
    }
}

/// The value of a rendered natural number under any accumulator.
proof fn lemma_digits_value_nat_bytes(n: nat, acc: int)
    ensures
        spec_digits_value(spec_nat_bytes(n), acc) == acc * pow10_len(n) + n,
    decreases n,
{
    if n < 10 {
        assert(spec_nat_bytes(n) =~= Seq::<u8>::empty().push(digit_byte(n as int)));
        lemma_digits_value_push(Seq::<u8>::empty(), digit_byte(n as int), acc);
    } else {
        lemma_digits_value_push(spec_nat_bytes(n / 10), digit_byte((n % 10) as int), acc);
        lemma_digits_value_nat_bytes(n / 10, acc);
        vstd::arithmetic::div_mod::lemma_fundamental_div_mod(n as int, 10);
        assert((acc * pow10_len(n / 10)) * 10 == acc * (10 * pow10_len(n / 10))) by (nonlinear_arith);
    }
}

/// Parsing inverts rendering for one integer line.
pub proof fn lemma_parse_int_bytes(v: int)
    ensures
        spec_parse_int(spec_int_bytes(v)) == Some(v),
{
    if v >= 0 {
        let s = spec_nat_bytes(v as nat);
        lemma_nat_bytes_digits(v as nat);
        assert(is_ascii_digit(s[0]));
        lemma_digits_value_nat_bytes(v as nat, 0);
    } else {
        let m = spec_nat_bytes((-v) as nat);
        let s = spec_int_bytes(v);
        lemma_nat_bytes_digits((-v) as nat);
        assert(s[0] == 0x2d);
        assert(s.skip(1) =~= m);
        lemma_digits_value_nat_bytes((-v) as nat, 0);
    }
}

/// The position block splits back into one line per position.
proof fn lemma_lines_positions(ps: Seq<int>)
    ensures
        spec_lines(spec_positions_bytes(ps)) =~= ps.map_values(|p: int| spec_int_bytes(p)),
    decreases ps.len(),
{
    if ps.len() == 0 {
    } else {
        let head = spec_int_bytes(ps[0]);
        let rest = spec_positions_bytes(ps.drop_first());
        lemma_int_bytes_no_nl(ps[0]);
        lemma_lines_prepend(head, rest);
        lemma_lines_positions(ps.drop_first());
        assert(ps.map_values(|p: int| spec_int_bytes(p)) =~= seq![head] + ps.drop_first().map_values(
            |p: int| spec_int_bytes(p),
        ));
    }
}

/// Parsing inverts rendering for the position block.
proof fn lemma_parse_positions_inverse(ps: Seq<int>)
    requires
        forall|i: int| 0 <= i < ps.len() ==> in_i64(#[trigger] ps[i]),
    ensures
        spec_parse_positions(ps.map_values(|p: int| spec_int_bytes(p))) == Some(ps),
    decreases ps.len(),
{
    let ls = ps.map_values(|p: int| spec_int_bytes(p));
    if ps.len() == 0 {
        assert(ls.len() == 0);
    } else {
        lemma_parse_int_bytes(ps[0]);
        assert(ls[0] == spec_int_bytes(ps[0]));
        assert(ls.drop_first() =~= ps.drop_first().map_values(|p: int| spec_int_bytes(p)));
        lemma_parse_positions_inverse(ps.drop_first());
        assert(seq![ps[0]] + ps.drop_first() =~= ps);
    }
}

/// Persist and reload is the identity: parsing a rendered sidecar gives
/// back exactly the index that was rendered, so an index fetched through
/// the sidecar equals the one a fresh full scan would build.
pub proof fn lemma_sidecar_round_trip(idx: IndexV)
    requires
        in_i64(idx.spacing),
        forall|i: int| 0 <= i < idx.positions.len() ==> in_i64(#[trigger] idx.positions[i]),
        idx.positions.len() <= i64::MAX,
    ensures
        spec_parse_sidecar(spec_render_sidecar(idx)) == Ok::<IndexV, AlnError>(idx),
{
    let a = spec_int_bytes(idx.spacing);
    let c = spec_int_bytes(idx.positions.len() as int);
    let pb = spec_positions_bytes(idx.positions);
    let pmap = idx.positions.map_values(|p: int| spec_int_bytes(p));
    let s = spec_render_sidecar(idx);
    lemma_int_bytes_no_nl(idx.spacing);
    lemma_int_bytes_no_nl(idx.positions.len() as int);
    assert(s =~= a + seq![NL] + (c + seq![NL] + pb));
    lemma_lines_prepend(a, c + seq![NL] + pb);
    lemma_lines_prepend(c, pb);
    lemma_lines_positions(idx.positions);
    let ls = spec_lines(s);
    assert(ls =~= seq![a] + (seq![c] + pmap));
    assert(ls.len() == 2 + idx.positions.len());
    assert(ls[0] == a);
    assert(ls[1] == c);
    assert(ls.skip(2) =~= pmap);
    lemma_parse_int_bytes(idx.spacing);
    lemma_parse_int_bytes(idx.positions.len() as int);
    lemma_parse_positions_inverse(idx.positions);
    assert(spec_parse_sidecar(s) == Ok::<IndexV, AlnError>(
        (IndexV { spacing: idx.spacing, positions: idx.positions }),
    ));
    assert((IndexV { spacing: idx.spacing, positions: idx.positions }) =~= idx);
}

/// The derived-index path as a whole: the index a full forward scan
/// builds survives persisting and reloading unchanged, its entry k is the
/// stream position of the k-th primary record, and the unit found by
/// scanning to that record is the very unit the full scan yields as
/// number k.
pub proof fn lemma_persist_reload_fetch(recs: Seq<RecordV>, poss: Seq<int>, k: int)
    requires
        recs.len() == poss.len(),
        recs.len() <= i64::MAX,
        forall|i: int| 0 <= i < poss.len() ==> in_i64(#[trigger] poss[i]),
        in_i64(spec_trace_spacing(recs)),
    ensures
        ({
            let idx = IndexV {
                spacing: spec_trace_spacing(recs),
                positions: primary_positions(recs, poss),
            };
            &&& spec_parse_sidecar(spec_render_sidecar(idx)) == Ok::<IndexV, AlnError>(idx)
            &&& idx.positions.len() == count_primaries(recs)
            &&& (0 <= k < count_primaries(recs) ==> {
                &&& idx.positions[k] == poss[kth_primary_index(recs, k)]
                &&& assemble(recs)[k] == assemble(recs.skip(kth_primary_index(recs, k)))[0]
            })
        }),
{
    let idx = IndexV { spacing: spec_trace_spacing(recs), positions: primary_positions(recs, poss) };
    lemma_primary_positions_len(recs, poss);
    lemma_count_primaries_le_len(recs);
    assert forall|j: int| 0 <= j < idx.positions.len() implies in_i64(
        #[trigger] idx.positions[j],
    ) by {
        lemma_position_of_kth_primary(recs, poss, j);
    }
    lemma_sidecar_round_trip(idx);
    if 0 <= k < count_primaries(recs) {
        lemma_position_of_kth_primary(recs, poss, k);
        lemma_random_access_agrees(recs, k);
    }
}

} // verus!
