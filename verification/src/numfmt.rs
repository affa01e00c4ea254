//! Decimal rendering of the integers that appear in supervisor messages:
//! ports, exit codes and signal numbers.

use vstd::prelude::*;
use vstd::string::StringExecFns;

verus! {

/// The character for one decimal digit.
pub open spec fn digit_char(d: int) -> char {
    if d == 0 {
        '0'
    } else if d == 1 {
        '1'
    } else if d == 2 {
        '2'
    } else if d == 3 {
        '3'
    } else if d == 4 {
        '4'
    } else if d == 5 {
        '5'
    } else if d == 6 {
        '6'
    } else if d == 7 {
        '7'
    } else if d == 8 {
        '8'
    } else {
        '9'
    }
}

/// Decimal representation of a non-negative integer, most significant
/// digit first, without leading zeros (`0` itself is `"0"`).
pub open spec fn dec_str(n: int) -> Seq<char>
    recommends
        n >= 0,
    decreases n,
{
    if n < 10 {
        seq![digit_char(n)]
    } else {
        dec_str(n / 10).push(digit_char(n % 10))
    }
}

/// Decimal representation of a signed integer: a leading `-` for
/// negative values, then the digits of the magnitude.
pub open spec fn dec_str_i(n: int) -> Seq<char> {
    if n < 0 {
        seq!['-'] + dec_str(-n)
    } else {
        dec_str(n)
    }
}

fn digit_str(d: u64) -> (r: &'static str)
    requires
        d < 10,
    ensures
        r@ == seq![digit_char(d as int)],
{
    proof {
        reveal_strlit("0");
        reveal_strlit("1");
        reveal_strlit("2");
        reveal_strlit("3");
        reveal_strlit("4");
        reveal_strlit("5");
        reveal_strlit("6");
        reveal_strlit("7");
        reveal_strlit("8");
        reveal_strlit("9");
    }
    let r = if d == 0 {
        "0"
    } else if d == 1 {
        "1"
    } else if d == 2 {
        "2"
    } else if d == 3 {
        "3"
    } else if d == 4 {
        "4"
    } else if d == 5 {
        "5"
    } else if d == 6 {
        "6"
    } else if d == 7 {
        "7"
    } else if d == 8 {
        "8"
    } else {
        "9"
    };
    proof {
        assert(r@ =~= seq![digit_char(d as int)]);
    }
    r
}

/// Renders an unsigned integer in decimal.
pub fn fmt_u64(n: u64) -> (r: String)
    ensures
        r@ == dec_str(n as int),
    decreases n,
{
    if n < 10 {
        String::from_str(digit_str(n))
    } else {
        let mut s = fmt_u64(n / 10);
        s.append(digit_str(n % 10));
        proof {
            assert(s@ =~= dec_str(n as int));
        }
        s
    }
}

/// Renders a signed integer in decimal.
pub fn fmt_i32(n: i32) -> (r: String)
    ensures
        r@ == dec_str_i(n as int),
{
    if n >= 0 {
        fmt_u64(n as u64)
    } else {
        let mag: u64 = (-(n as i64)) as u64;
        let mut s = String::from_str("-");
        let digits = fmt_u64(mag);
        s.append(digits.as_str());
        proof {
            reveal_strlit("-");
            assert(s@ =~= dec_str_i(n as int));
        }
        s
    }
}

/// Renders an optional signed integer the way a debug listing would:
/// `Some(n)` or `None`.
pub open spec fn opt_i32_debug(o: Option<i32>) -> Seq<char> {
    match o {
        Option::None => "None"@,
        Option::Some(n) => "Some("@ + dec_str_i(n as int) + ")"@,
    }
}

/// Renders an optional signed integer as `Some(n)` or `None`.
pub fn fmt_opt_i32(o: &Option<i32>) -> (r: String)
    ensures
        r@ == opt_i32_debug(*o),
{
    match o {
        Option::None => String::from_str("None"),
        Option::Some(n) => {
            let mut s = String::from_str("Some(");
            let digits = fmt_i32(*n);
            s.append(digits.as_str());
            s.append(")");
            proof {
                assert(s@ =~= opt_i32_debug(*o));
            }
            s
        },
    }
}

} // verus!
