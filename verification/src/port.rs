//! Port detection: deciding whether a line of child output announces the
//! TCP port the child bound to, and turning raw output bytes into a log
//! line first.

use vstd::prelude::*;
use vstd::slice::{slice_index_get, slice_subrange};
use vstd::string::StrSliceExecFns;
use crate::strutil::{char_is_space, is_space, lemma_trim_all_space, lemma_trim_range, starts_with,
    trim};

verus! {

/// The exact stdout prefix by which the child announces its port.
pub open spec fn port_prefix() -> Seq<char> {
    "DEVWATCHMAN_PORT="@
}

/// `c` is a decimal digit.
pub open spec fn is_digit(c: char) -> bool {
    48 <= c as int && c as int <= 57
}

/// The value of one decimal digit.
pub open spec fn digit_val(c: char) -> int {
    c as int - 48
}

/// Every character of `s` is a decimal digit.
pub open spec fn all_digits(s: Seq<char>) -> bool {
    forall|i: int| 0 <= i < s.len() ==> is_digit(s[i])
}

/// The number the digit string `s` denotes, most significant digit first.
pub open spec fn dec_val(s: Seq<char>) -> int
    decreases s.len(),
{
    if s.len() == 0 {
        0
    } else {
        dec_val(s.drop_last()) * 10 + digit_val(s.last())
    }
}

/// The digit part of the trimmed remainder: an unsigned decimal numeral
/// may carry one leading plus sign, which the digits follow.
pub open spec fn port_digits(rest: Seq<char>) -> Seq<char> {
    if rest.len() > 0 && rest[0] == '+' {
        rest.skip(1)
    } else {
        rest
    }
}

/// What port, if any, a line of child stdout announces: after trimming
/// surrounding whitespace the line must begin with `DEVWATCHMAN_PORT=`,
/// and the remainder, trimmed again, must parse as an unsigned 16-bit
/// decimal numeral (at most one leading `+`) with a value between 1 and
/// 65535.  Port 0 and malformed remainders announce nothing.
pub open spec fn parse_port_spec(line: Seq<char>) -> Option<u16> {
    let t = trim(line);
    if !starts_with(t, port_prefix()) {
        Option::None
    } else {
        let digits = port_digits(trim(t.skip(port_prefix().len() as int)));
        if digits.len() > 0 && all_digits(digits) && 1 <= dec_val(digits) && dec_val(digits)
            <= 65535 {
            Option::Some(dec_val(digits) as u16)
        } else {
            Option::None
        }
    }
}

/// A digit string denotes a non-negative number.
pub proof fn lemma_dec_val_nonneg(s: Seq<char>)
    requires
        all_digits(s),
    ensures
        dec_val(s) >= 0,
    decreases s.len(),
{
    if s.len() > 0 {
        assert(forall|i: int|
            0 <= i < s.drop_last().len() ==> is_digit(#[trigger] s.drop_last()[i]));
        lemma_dec_val_nonneg(s.drop_last());
    }
}

/// A prefix of a digit string denotes at most what the whole denotes.
pub proof fn lemma_dec_val_prefix(s: Seq<char>, m: int)
    requires
        0 <= m <= s.len(),
        all_digits(s),
    ensures
        dec_val(s.take(m)) <= dec_val(s),
    decreases s.len() - m,
{
    if m == s.len() {
        assert(s.take(m) =~= s);
    } else {
        lemma_dec_val_prefix(s, m + 1);
        assert(s.take(m + 1).drop_last() =~= s.take(m));
        assert(s.take(m + 1).last() == s[m]);
        assert(forall|i: int| 0 <= i < s.take(m).len() ==> is_digit(#[trigger] s.take(m)[i]));
        lemma_dec_val_nonneg(s.take(m));
        assert(dec_val(s.take(m + 1)) == dec_val(s.take(m)) * 10 + digit_val(s[m]));
        assert(dec_val(s.take(m)) * 10 >= dec_val(s.take(m)));
    }
}

/// A line whose trimmed form does not begin with the port prefix never
/// announces a port.
pub proof fn lemma_no_prefix_no_port(line: Seq<char>)
    requires
        !starts_with(trim(line), port_prefix()),
    ensures
        parse_port_spec(line) is None,
{
}

/// A line that is exactly the prefix followed by a remainder with no
/// whitespace at its edges announces the remainder's decimal value when
/// its digit part is a number between 1 and 65535, and nothing
/// otherwise — in particular nothing for the value 0 or for a
/// non-numeric remainder.
pub proof fn lemma_prefixed_line(line: Seq<char>, rest: Seq<char>)
    requires
        line == port_prefix() + rest,
        rest.len() > 0,
        !is_space(rest[0]),
        !is_space(rest[rest.len() - 1]),
    ensures
        parse_port_spec(line) == if port_digits(rest).len() > 0 && all_digits(port_digits(rest))
            && 1 <= dec_val(port_digits(rest)) && dec_val(port_digits(rest)) <= 65535 {
            Option::Some(dec_val(port_digits(rest)) as u16)
        } else {
            Option::<u16>::None
        },
{
    reveal_strlit("DEVWATCHMAN_PORT=");
    assert(line[0] == 'D');
    assert(!is_space('D'));
    assert(line[line.len() - 1] == rest[rest.len() - 1]);
    lemma_trim_range(line, 0, line.len() as int);
    assert(line.subrange(0, line.len() as int) =~= line);
    assert(line.subrange(0, 17) =~= port_prefix());
    assert(starts_with(line, port_prefix()));
    assert(line.skip(17) =~= rest);
    lemma_trim_range(rest, 0, rest.len() as int);
    assert(rest.subrange(0, rest.len() as int) =~= rest);
}

/// Decides whether `line` announces the child's listening port.
pub fn parse_port_from_stdout_line(line: &str) -> (r: Option<u16>)
    ensures
        r == parse_port_spec(line@),
{
    proof {
        reveal_strlit("DEVWATCHMAN_PORT=");
    }
    let prefix: &str = "DEVWATCHMAN_PORT=";
    let n = line.unicode_len();
    let ghost lv = line@;

    // Scan past leading whitespace.
    let mut i: usize = 0;
    loop
        invariant
            i <= n,
            n == lv.len(),
            lv == line@,
            forall|k: int| 0 <= k < i ==> is_space(lv[k]),
        ensures
            i <= n,
            forall|k: int| 0 <= k < i ==> is_space(lv[k]),
            i == n || !is_space(lv[i as int]),
        decreases n - i,
    {
        if i >= n {
            break ;
        }
        if !char_is_space(line.get_char(i)) {
            break ;
        }
        i += 1;
    }

    if i == n {
        proof {
            lemma_trim_all_space(lv);
        }
        return Option::None;
    }

    // Scan back past trailing whitespace; the character at `i` bounds it.
    let mut j: usize = n;
    loop
        invariant
            i < j <= n,
            n == lv.len(),
            lv == line@,
            !is_space(lv[i as int]),
            forall|k: int| j <= k < n ==> is_space(lv[k]),
        ensures
            i < j <= n,
            forall|k: int| j <= k < n ==> is_space(lv[k]),
            !is_space(lv[j - 1]),
        decreases j,
    {
        if !char_is_space(line.get_char(j - 1)) {
            break ;
        }
        assert(j - 1 > i);
        j -= 1;
    }

    proof {
        lemma_trim_range(lv, i as int, j as int);
    }
    let ghost t = lv.subrange(i as int, j as int);

    if j - i < 17 {
        return Option::None;
    }

    // Match the prefix character by character.
    let mut k: usize = 0;
    let mut mismatch = false;
    loop
        invariant_except_break
            !mismatch,
        invariant
            k <= 17,
            n == lv.len(),
            lv == line@,
            i + 17 <= j <= n,
            prefix@ == port_prefix(),
            port_prefix().len() == 17,
            forall|m: int| 0 <= m < k ==> lv[i + m] == port_prefix()[m],
        ensures
            mismatch ==> exists|m: int| 0 <= m < 17 && lv[i + m] != port_prefix()[m],
            !mismatch ==> forall|m: int| 0 <= m < 17 ==> lv[i + m] == port_prefix()[m],
        decreases 17 - k,
    {
        if k >= 17 {
            break ;
        }
        if line.get_char(i + k) != prefix.get_char(k) {
            mismatch = true;
            break ;
        }
        k += 1;
    }
    if mismatch {
        proof {
            let m = choose|m: int| 0 <= m < 17 && lv[i + m] != port_prefix()[m];
            assert(t[m] != port_prefix()[m]);
            if starts_with(t, port_prefix()) {
                assert(t.subrange(0, 17)[m] == t[m]);
            }
        }
        return Option::None;
    }
    proof {
        assert(t.subrange(0, 17) =~= port_prefix());
    }

    // Skip whitespace between the prefix and the number.
    let ghost restfull = t.skip(17);
    proof {
        assert(restfull =~= lv.subrange(i as int + 17, j as int));
    }
    let mut i2: usize = i + 17;
    loop
        invariant
            i + 17 <= i2 <= j,
            j <= n,
            n == lv.len(),
            lv == line@,
            forall|k2: int| i + 17 <= k2 < i2 ==> is_space(lv[k2]),
        ensures
            i + 17 <= i2 <= j,
            forall|k2: int| i + 17 <= k2 < i2 ==> is_space(lv[k2]),
            i2 == j || !is_space(lv[i2 as int]),
        decreases j - i2,
    {
        if i2 >= j {
            break ;
        }
        if !char_is_space(line.get_char(i2)) {
            break ;
        }
        i2 += 1;
    }

    if i2 == j {
        proof {
            lemma_trim_all_space(restfull);
        }
        return Option::None;
    }
    proof {
        lemma_trim_range(restfull, i2 - (i + 17), j - (i + 17));
        assert(restfull.subrange(i2 - (i + 17), j - (i + 17)) =~= lv.subrange(
            i2 as int,
            j as int,
        ));
    }
    let ghost rest = lv.subrange(i2 as int, j as int);

    // One leading plus sign is part of an unsigned numeral.
    let d_start: usize = if (line.get_char(i2) as u32) == 43 {
        i2 + 1
    } else {
        i2
    };
    proof {
        if rest[0] == '+' {
            assert(rest.skip(1) =~= lv.subrange(i2 + 1, j as int));
        }
    }
    let ghost digits = lv.subrange(d_start as int, j as int);

    if d_start == j {
        return Option::None;
    }

    // Accumulate the decimal value, rejecting non-digits and overflow.
    let mut acc: u32 = 0;
    let mut k2: usize = d_start;
    let mut bad = false;
    let mut over = false;
    loop
        invariant_except_break
            !bad,
            !over,
        invariant
            d_start <= k2 <= j,
            j <= n,
            n == lv.len(),
            lv == line@,
            digits == lv.subrange(d_start as int, j as int),
            acc <= 65535,
            all_digits(digits.take(k2 - d_start)),
            acc == dec_val(digits.take(k2 - d_start)),
        ensures
            bad ==> !all_digits(digits),
            over ==> (all_digits(digits) ==> dec_val(digits) > 65535),
            (!bad && !over) ==> (acc <= 65535 && all_digits(digits) && acc == dec_val(digits)),
        decreases j - k2,
    {
        if k2 >= j {
            proof {
                assert(digits.take(k2 - d_start) =~= digits);
            }
            break ;
        }
        let c = line.get_char(k2);
        let cu = c as u32;
        if cu < 48 || cu > 57 {
            proof {
                assert(digits[(k2 - d_start) as int] == c);
            }
            bad = true;
            break ;
        }
        let d = cu - 48;
        let new_acc = acc * 10 + d;
        proof {
            assert(digits.take(k2 - d_start + 1).drop_last() =~= digits.take(k2 - d_start));
            assert(digits.take(k2 - d_start + 1).last() == digits[(k2 - d_start) as int]);
            assert(all_digits(digits.take(k2 - d_start + 1)));
            assert(new_acc == dec_val(digits.take(k2 - d_start + 1)));
        }
        if new_acc > 65535 {
            proof {
                if all_digits(digits) {
                    lemma_dec_val_prefix(digits, k2 - d_start + 1);
                }
            }
            over = true;
            break ;
        }
        acc = new_acc;
        k2 += 1;
    }
    if bad || over {
        return Option::None;
    }

    if acc == 0 {
        return Option::None;
    }
    Option::Some(acc as u16)
}

/// What the raw output bytes of one line decode to; the result depends on
/// the bytes alone.
pub uninterp spec fn utf8_lossy_of(bytes: Seq<u8>) -> Seq<char>;

/// Relies on String::from_utf8_lossy: decodes the bytes as UTF-8,
/// substituting the replacement character for invalid sequences; no bytes
/// decode to the empty string.
#[verifier::external_body]
fn utf8_lossy(bytes: &[u8]) -> (r: String)
    ensures
        r@ == utf8_lossy_of(bytes@),
        bytes@.len() == 0 ==> r@.len() == 0,
{
    String::from_utf8_lossy(bytes).into_owned()
}

/// The bytes of one output line with the trailing carriage returns and
/// line feeds removed.
pub open spec fn trim_line_ends(bytes: Seq<u8>) -> Seq<u8>
    decreases bytes.len(),
{
    if bytes.len() == 0 {
        bytes
    } else if bytes.last() == 13 || bytes.last() == 10 {
        trim_line_ends(bytes.drop_last())
    } else {
        bytes
    }
}

/// Turns the raw bytes of one output line into the string that is logged
/// and scanned: the line-ending bytes go, the rest is decoded as UTF-8.
pub fn bytes_to_line(bytes: &[u8]) -> (r: String)
    ensures
        r@ == utf8_lossy_of(trim_line_ends(bytes@)),
        trim_line_ends(bytes@).len() == 0 ==> r@.len() == 0,
{
    let mut end: usize = bytes.len();
    proof {
        assert(bytes@.take(end as int) =~= bytes@);
    }
    loop
        invariant
            end <= bytes@.len(),
            trim_line_ends(bytes@) == trim_line_ends(bytes@.take(end as int)),
        ensures
            end <= bytes@.len(),
            trim_line_ends(bytes@) == bytes@.take(end as int),
        decreases end,
    {
        if end == 0 {
            break ;
        }
        let b = *slice_index_get(bytes, end - 1);
        if b != 13 && b != 10 {
            break ;
        }
        proof {
            assert(bytes@.take(end as int).drop_last() =~= bytes@.take(end - 1));
        }
        end -= 1;
    }
    utf8_lossy(slice_subrange(bytes, 0, end))
}

} // verus!
