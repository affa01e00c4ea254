//! Health probing logic: judging one HTTP health response, and the
//! bounded-exponential-backoff state the polling loop carries.  The
//! network I/O of a probe happens outside; this module decides what a
//! response means and when to give up.

use vstd::prelude::*;
use vstd::string::{StrSliceExecFns, StringExecFns};
use crate::strutil::{char_is_space, is_space, lemma_trim_all_space, lemma_trim_range, starts_with,
    trim};

verus! {

/// First retry delay of the polling loop, in milliseconds.
pub const HEALTH_INITIAL_DELAY_MS: u64 = 250;

/// Cap on the retry delay, in milliseconds.
pub const HEALTH_MAX_DELAY_MS: u64 = 1000;

/// Absolute polling deadline, measured from the start of polling, in
/// milliseconds.
pub const HEALTH_TIMEOUT_MS: u64 = 45000;

/// Position `i` in `s` holds the blank line that separates an HTTP head
/// from its body.
pub open spec fn sep_at(s: Seq<char>, i: int) -> bool {
    &&& 0 <= i
    &&& i + 4 <= s.len()
    &&& s[i] == '\r'
    &&& s[i + 1] == '\n'
    &&& s[i + 2] == '\r'
    &&& s[i + 3] == '\n'
}

/// The position of the first head/body separator at or after `from`, if
/// any.
pub open spec fn first_sep_from(s: Seq<char>, from: int) -> Option<int>
    recommends
        0 <= from,
    decreases s.len() - from when 0 <= from <= s.len()
{
    if from + 4 > s.len() {
        Option::None
    } else if sep_at(s, from) {
        Option::Some(from)
    } else {
        first_sep_from(s, from + 1)
    }
}

/// The characters of `s` that are not the space character, in order.
pub open spec fn remove_spaces(s: Seq<char>) -> Seq<char>
    decreases s.len(),
{
    if s.len() == 0 {
        s
    } else if s.last() == ' ' {
        remove_spaces(s.drop_last())
    } else {
        remove_spaces(s.drop_last()).push(s.last())
    }
}

/// `p` occurs in `s` at position `i`.
pub open spec fn match_at(s: Seq<char>, p: Seq<char>, i: int) -> bool {
    0 <= i && i + p.len() <= s.len() && (forall|k: int| 0 <= k < p.len() ==> s[i + k] == p[k])
}

/// `p` occurs somewhere in `s`.
pub open spec fn contains_seq(s: Seq<char>, p: Seq<char>) -> bool {
    exists|i: int| match_at(s, p, i)
}

/// A response is healthy exactly when a head/body separator exists, the
/// head starts with an HTTP/1.1 or HTTP/1.0 status of 200, and the body
/// — trimmed, and with every space character removed — is non-empty and
/// contains `"ok":true`.
pub open spec fn healthy_response_spec(resp: Seq<char>) -> bool {
    match first_sep_from(resp, 0) {
        Option::None => false,
        Option::Some(i) => {
            let head = resp.take(i);
            let body = resp.skip(i + 4);
            &&& (starts_with(head, "HTTP/1.1 200"@) || starts_with(head, "HTTP/1.0 200"@))
            &&& trim(body).len() > 0
            &&& contains_seq(remove_spaces(trim(body)), "\"ok\":true"@)
        },
    }
}

/// A scan that saw no separator before `i` pins down `first_sep_from`.
proof fn lemma_first_sep(s: Seq<char>, from: int, i: int)
    requires
        0 <= from <= i <= s.len(),
        forall|m: int| from <= m < i ==> !sep_at(s, m),
    ensures
        sep_at(s, i) ==> first_sep_from(s, from) == Option::Some(i),
        i + 4 > s.len() ==> first_sep_from(s, from) is None,
    decreases i - from,
{
    if from < i {
        lemma_first_sep(s, from + 1, i);
    }
}

/// The characters of `s`, as a vector.
fn str_chars(s: &str) -> (v: Vec<char>)
    ensures
        v@ == s@,
{
    let n = s.unicode_len();
    let mut v: Vec<char> = Vec::new();
    let mut i: usize = 0;
    while i < n
        invariant
            i <= n,
            n == s@.len(),
            v@ =~= s@.take(i as int),
        decreases n - i,
    {
        v.push(s.get_char(i));
        proof {
            assert(v@ =~= s@.take(i + 1));
        }
        i += 1;
    }
    proof {
        assert(s@.take(n as int) =~= s@);
    }
    v
}

/// Whether the first `upto` characters of `cs` begin with `pat`.
fn chars_start_with(cs: &Vec<char>, upto: usize, pat: &str) -> (r: bool)
    requires
        upto <= cs@.len(),
    ensures
        r == starts_with(cs@.take(upto as int), pat@),
{
    let plen = pat.unicode_len();
    if upto < plen {
        return false;
    }
    let mut k: usize = 0;
    let mut mismatch = false;
    loop
        invariant_except_break
            !mismatch,
        invariant
            k <= plen,
            plen == pat@.len(),
            plen <= upto <= cs@.len(),
            forall|m: int| 0 <= m < k ==> cs@[m] == pat@[m],
        ensures
            mismatch ==> exists|m: int| 0 <= m < plen && cs@[m] != pat@[m],
            !mismatch ==> forall|m: int| 0 <= m < plen ==> cs@[m] == pat@[m],
        decreases plen - k,
    {
        if k >= plen {
            break ;
        }
        if cs[k] != pat.get_char(k) {
            mismatch = true;
            break ;
        }
        k += 1;
    }
    if mismatch {
        proof {
            let m = choose|m: int| 0 <= m < plen && cs@[m] != pat@[m];
            assert(cs@.take(upto as int)[m] != pat@[m]);
            if starts_with(cs@.take(upto as int), pat@) {
                assert(cs@.take(upto as int).subrange(0, plen as int)[m] == cs@.take(
                    upto as int,
                )[m]);
            }
        }
        false
    } else {
        proof {
            assert(cs@.take(upto as int).subrange(0, plen as int) =~= pat@);
        }
        true
    }
}

/// Whether `pat` occurs in `hay` at position `at`.
fn chars_match_at(hay: &Vec<char>, pat: &str, at: usize) -> (r: bool)
    requires
        at + pat@.len() <= hay@.len(),
    ensures
        r == match_at(hay@, pat@, at as int),
{
    let plen = pat.unicode_len();
    let hn = hay.len();
    let mut k: usize = 0;
    let mut mismatch = false;
    loop
        invariant_except_break
            !mismatch,
        invariant
            k <= plen,
            plen == pat@.len(),
            hn == hay@.len(),
            at + plen <= hn,
            forall|m: int| 0 <= m < k ==> hay@[at + m] == pat@[m],
        ensures
            mismatch ==> exists|m: int| 0 <= m < plen && hay@[at + m] != pat@[m],
            !mismatch ==> forall|m: int| 0 <= m < plen ==> hay@[at + m] == pat@[m],
        decreases plen - k,
    {
        if k >= plen {
            break ;
        }
        if hay[at + k] != pat.get_char(k) {
            mismatch = true;
            break ;
        }
        k += 1;
    }
    !mismatch
}

/// Whether `pat` occurs anywhere in `hay`.
fn chars_contains(hay: &Vec<char>, pat: &str) -> (r: bool)
    ensures
        r == contains_seq(hay@, pat@),
{
    let plen = pat.unicode_len();
    let n = hay.len();
    if n < plen {
        return false;
    }
    let mut i: usize = 0;
    let mut found = false;
    loop
        invariant_except_break
            !found,
        invariant
            i <= n - plen + 1,
            plen == pat@.len(),
            plen <= n,
            n == hay@.len(),
            forall|m: int| 0 <= m < i ==> !match_at(hay@, pat@, m),
        ensures
            found ==> contains_seq(hay@, pat@),
            !found ==> forall|m: int| 0 <= m < i ==> !match_at(hay@, pat@, m),
            found || i == n - plen + 1,
        decreases n - plen + 1 - i,
    {
        if i > n - plen {
            break ;
        }
        if chars_match_at(hay, pat, i) {
            found = true;
            break ;
        }
        i += 1;
    }
    if found {
        true
    } else {
        proof {
            assert forall|m: int| !match_at(hay@, pat@, m) by {
                if m >= n - plen + 1 {
                    assert(!match_at(hay@, pat@, m));
                }
            }
        }
        false
    }
}

/// Judges one complete HTTP health response.
pub fn interpret_health_response(resp: &str) -> (r: bool)
    ensures
        r == healthy_response_spec(resp@),
{
    let cs = str_chars(resp);
    let n = cs.len();
    let ghost rv = resp@;

    // Find the first head/body separator.
    let mut i: usize = 0;
    let mut found = false;
    loop
        invariant_except_break
            !found,
        invariant
            i <= n,
            n == rv.len(),
            cs@ == rv,
            forall|m: int| 0 <= m < i ==> !sep_at(rv, m),
        ensures
            i <= n,
            cs@ == rv,
            found ==> sep_at(rv, i as int) && (forall|m: int| 0 <= m < i ==> !sep_at(rv, m)),
            !found ==> (i as int) + 4 > rv.len() && (forall|m: int| 0 <= m < i ==> !sep_at(rv, m)),
        decreases n - i,
    {
        if i >= n || n - i < 4 {
            break ;
        }
        if cs[i] == '\r' && cs[i + 1] == '\n' && cs[i + 2] == '\r' && cs[i + 3] == '\n' {
            found = true;
            break ;
        }
        i += 1;
    }
    if !found {
        proof {
            lemma_first_sep(rv, 0, i as int);
            assert forall|m: int| 0 <= m < rv.len() implies !sep_at(rv, m) by {
                if m >= i {
                    assert(!sep_at(rv, m));
                }
            }
            lemma_first_sep(rv, 0, rv.len() as int);
        }
        return false;
    }
    proof {
        lemma_first_sep(rv, 0, i as int);
    }

    // Status line: the head must report 200.
    let ok11 = chars_start_with(&cs, i, "HTTP/1.1 200");
    let ok10 = chars_start_with(&cs, i, "HTTP/1.0 200");
    if !ok11 && !ok10 {
        return false;
    }

    // Body bounds after trimming.
    let ghost body = rv.skip(i + 4);
    let mut b0: usize = i + 4;
    loop
        invariant
            i + 4 <= b0 <= n,
            n == rv.len(),
            cs@ == rv,
            forall|m: int| i + 4 <= m < b0 ==> is_space(rv[m]),
        ensures
            i + 4 <= b0 <= n,
            forall|m: int| i + 4 <= m < b0 ==> is_space(rv[m]),
            b0 == n || !is_space(rv[b0 as int]),
        decreases n - b0,
    {
        if b0 >= n {
            break ;
        }
        if !char_is_space(cs[b0]) {
            break ;
        }
        b0 += 1;
    }
    if b0 == n {
        proof {
            lemma_trim_all_space(body);
        }
        return false;
    }
    let mut b1: usize = n;
    loop
        invariant
            b0 < b1 <= n,
            n == rv.len(),
            cs@ == rv,
            !is_space(rv[b0 as int]),
            forall|m: int| b1 <= m < n ==> is_space(rv[m]),
        ensures
            b0 < b1 <= n,
            forall|m: int| b1 <= m < n ==> is_space(rv[m]),
            !is_space(rv[b1 - 1]),
        decreases b1,
    {
        if !char_is_space(cs[b1 - 1]) {
            break ;
        }
        assert(b1 - 1 > b0);
        b1 -= 1;
    }
    proof {
        lemma_trim_range(body, b0 - (i + 4), b1 - (i + 4));
        assert(body.subrange(b0 - (i + 4), b1 - (i + 4)) =~= rv.subrange(b0 as int, b1 as int));
    }
    let ghost tbody = rv.subrange(b0 as int, b1 as int);

    // The trimmed body with every space removed.
    let mut fv: Vec<char> = Vec::new();
    let mut k: usize = b0;
    while k < b1
        invariant
            b0 <= k <= b1 <= n,
            n == rv.len(),
            cs@ == rv,
            tbody == rv.subrange(b0 as int, b1 as int),
            fv@ == remove_spaces(tbody.take(k - b0)),
        decreases b1 - k,
    {
        proof {
            assert(tbody.take(k - b0 + 1).drop_last() =~= tbody.take(k - b0));
            assert(tbody.take(k - b0 + 1).last() == rv[k as int]);
        }
        let c = cs[k];
        if c != ' ' {
            fv.push(c);
        }
        k += 1;
    }
    proof {
        assert(tbody.take((b1 - b0) as int) =~= tbody);
    }

    chars_contains(&fv, "\"ok\":true")
}

/// Why one health probe did not report the backend healthy.
pub enum ProbeFailure {
    /// The probe got a response that is not a healthy one.
    Unhealthy,
    /// The probe itself failed, with a description of the failure.
    Failed(String),
}

/// The retry state the polling loop carries: how long to sleep before
/// the next probe, and the last failure's description for diagnostics.
pub struct HealthBackoff {
    pub delay_ms: u64,
    pub last_err: String,
}

/// The diagnostic recorded for one failed probe.
pub open spec fn probe_failure_text(f: ProbeFailure) -> Seq<char> {
    match f {
        ProbeFailure::Unhealthy => "unhealthy response"@,
        ProbeFailure::Failed(e) => e@,
    }
}

/// The diagnostic the polling loop reports for its last failed probe:
/// what it recorded, or `no response` when no probe reported anything.
pub open spec fn probe_diagnostic_text(last_err: Seq<char>) -> Seq<char> {
    if last_err.len() == 0 {
        "no response"@
    } else {
        last_err
    }
}

/// The failure text reported when the deadline passes, carrying the
/// last diagnostic.
pub open spec fn health_timeout_text(last_err: Seq<char>) -> Seq<char> {
    "Backend didn't become healthy within 45s ("@ + probe_diagnostic_text(last_err) + ")"@
}

/// The one fixed request a health probe sends for the given port.
pub open spec fn health_request_text(port: u16) -> Seq<char> {
    "GET /api/health HTTP/1.1\r\nHost: 127.0.0.1:"@ + crate::numfmt::dec_str(port as int)
        + "\r\nConnection: close\r\nAccept: application/json\r\n\r\n"@
}

/// Builds the health request; the host only writes it to the socket.
pub fn health_request(port: u16) -> (r: String)
    ensures
        r@ == health_request_text(port),
{
    let mut r = String::from_str("GET /api/health HTTP/1.1\r\nHost: 127.0.0.1:");
    let digits = crate::numfmt::fmt_u64(port as u64);
    r.append(digits.as_str());
    r.append("\r\nConnection: close\r\nAccept: application/json\r\n\r\n");
    proof {
        assert(r@ =~= health_request_text(port));
    }
    r
}

impl HealthBackoff {
    /// Fresh polling state: the first retry waits 250 ms and nothing has
    /// failed yet.
    pub fn new() -> (r: HealthBackoff)
        ensures
            r.delay_ms == HEALTH_INITIAL_DELAY_MS,
            r.last_err@ == Seq::<char>::empty(),
    {
        HealthBackoff { delay_ms: HEALTH_INITIAL_DELAY_MS, last_err: String::new() }
    }

    /// Whether the absolute polling deadline has passed; once it has, no
    /// further probe is started.
    pub fn deadline_exceeded(&self, elapsed_ms: u64) -> (r: bool)
        ensures
            r == (elapsed_ms >= HEALTH_TIMEOUT_MS),
    {
        elapsed_ms >= HEALTH_TIMEOUT_MS
    }

    /// Records one failed probe and yields how long to sleep before the
    /// next: the current delay, which then doubles, capped at one
    /// second.
    pub fn on_probe_failure(&mut self, failure: ProbeFailure) -> (sleep_ms: u64)
        ensures
            sleep_ms == old(self).delay_ms,
            final(self).delay_ms == if 2 * old(self).delay_ms <= HEALTH_MAX_DELAY_MS {
                2 * old(self).delay_ms
            } else {
                HEALTH_MAX_DELAY_MS as int
            },
            final(self).last_err@ == probe_failure_text(failure),
    {
        let sleep_ms = self.delay_ms;
        self.delay_ms = if self.delay_ms >= HEALTH_MAX_DELAY_MS / 2 {
            HEALTH_MAX_DELAY_MS
        } else {
            2 * self.delay_ms
        };
        self.last_err = match failure {
            ProbeFailure::Unhealthy => String::from_str("unhealthy response"),
            ProbeFailure::Failed(e) => e,
        };
        sleep_ms
    }

    /// The failure text for a run whose polling deadline passed.
    pub fn timeout_text(&self) -> (r: String)
        ensures
            r@ == health_timeout_text(self.last_err@),
    {
        let mut r = String::from_str("Backend didn't become healthy within 45s (");
        if self.last_err.as_str().is_empty() {
            r.append("no response");
        } else {
            r.append(self.last_err.as_str());
        }
        r.append(")");
        proof {
            assert(r@ =~= health_timeout_text(self.last_err@));
        }
        r
    }
}

} // verus!
