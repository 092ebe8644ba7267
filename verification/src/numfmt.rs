//! Decimal rendering of integers and left-padding of strings.

use vstd::prelude::*;

verus! {

/// The character for a single decimal digit.
pub open spec fn digit_char(d: nat) -> char {
    if d == 0 {
        '0'
    } else if d == 1 {
        '1'
    } else if d == 2 {
        '2'
    } else if d == 3 {
        '3'
    } else if d == 4 {
        '4'
    } else if d == 5 {
        '5'
    } else if d == 6 {
        '6'
    } else if d == 7 {
        '7'
    } else if d == 8 {
        '8'
    } else {
        '9'
    }
}

/// The usual decimal notation of a natural number, most significant digit
/// first, without leading zeros (except for zero itself).
pub open spec fn dec_rep(n: nat) -> Seq<char>
    decreases n,
{
    if n < 10 {
        seq![digit_char(n)]
    } else {
        dec_rep(n / 10) + seq![digit_char(n % 10)]
    }
}

/// Decimal notation of an integer: a minus sign before the digits when the
/// value is negative.
pub open spec fn dec_rep_int(n: int) -> Seq<char> {
    if n < 0 {
        seq!['-'] + dec_rep((-n) as nat)
    } else {
        dec_rep(n as nat)
    }
}

/// `count` copies of the space character.
pub open spec fn spaces(count: nat) -> Seq<char>
    decreases count,
{
    if count == 0 {
        Seq::empty()
    } else {
        spaces((count - 1) as nat) + seq![' ']
    }
}

fn digit_str(d: u64) -> (r: &'static str)
    requires
        d < 10,
    ensures
        r@ == seq![digit_char(d as nat)],
{
    let digits = "0123456789";
    proof {
        reveal_strlit("0123456789");
        assert(digits@ =~= seq!['0', '1', '2', '3', '4', '5', '6', '7', '8', '9']);
    }
    let r = digits.substring_ascii(d as usize, d as usize + 1);
    proof {
        assert(r@ =~= seq![digit_char(d as nat)]);
    }
    r
}

/// Renders a natural number in decimal.
pub fn to_decimal(n: u64) -> (r: String)
    ensures
        r@ == dec_rep(n as nat),
    decreases n,
{
    if n < 10 {
        digit_str(n).to_owned()
    } else {
        let mut r = to_decimal(n / 10);
        r.append(digit_str(n % 10));
        r
    }
}

/// Renders a signed integer in decimal, with a leading minus sign when
/// negative.
pub fn to_decimal_i64(n: i64) -> (r: String)
    ensures
        r@ == dec_rep_int(n as int),
{
    if n >= 0 {
        to_decimal(n as u64)
    } else {
        let magnitude: u64 = ((-(n + 1)) as u64) + 1;
        assert(magnitude == -(n as int));
        let mut r = String::new();
        r.append("-");
        proof {
            reveal_strlit("-");
            assert(r@ =~= seq!['-']);
        }
        r.append(to_decimal(magnitude).as_str());
        r
    }
}

/// Pads `s` on the left with spaces up to `width` characters; a string at
/// least `width` characters long is returned unchanged.
pub fn pad_left(s: &str, width: usize) -> (r: String)
    ensures
        s@.len() >= width ==> r@ == s@,
        s@.len() < width ==> r@ == spaces((width - s@.len()) as nat) + s@,
{
    let len = s.unicode_len();
    if len >= width {
        return s.to_owned();
    }
    let mut pad = String::new();
    let mut i: usize = 0;
    while i < width - len
        invariant
            i <= width - len,
            len == s@.len(),
            len < width,
            pad@ == spaces(i as nat),
        decreases width - len - i,
    {
        pad.append(" ");
        proof {
            reveal_strlit(" ");
            assert(pad@ =~= spaces((i + 1) as nat));
        }
        i += 1;
    }
    pad.append(s);
    pad
}

} // verus!
