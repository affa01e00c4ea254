//! Character-sequence helpers shared by the parsing code: the whitespace
//! predicate, trimming, and prefix tests, with the lemmas that connect
//! index-based scans to the recursive trimming definitions.

use vstd::prelude::*;

verus! {

/// `c` has Unicode's White_Space property — the set that surrounding-
/// whitespace trimming removes.
pub open spec fn is_space(c: char) -> bool {
    let n = c as int;
    n == 0x20 || (0x9 <= n && n <= 0xD) || n == 0x85 || n == 0xA0 || n == 0x1680 || (0x2000 <= n
        && n <= 0x200A) || n == 0x2028 || n == 0x2029 || n == 0x202F || n == 0x205F || n == 0x3000
}

/// Runtime test for [`is_space`].
pub fn char_is_space(c: char) -> (r: bool)
    ensures
        r == is_space(c),
{
    let n = c as u32;
    n == 0x20 || (0x9 <= n && n <= 0xD) || n == 0x85 || n == 0xA0 || n == 0x1680 || (0x2000 <= n
        && n <= 0x200A) || n == 0x2028 || n == 0x2029 || n == 0x202F || n == 0x205F || n == 0x3000
}

/// `s` with leading whitespace removed.
pub open spec fn trim_front(s: Seq<char>) -> Seq<char>
    decreases s.len(),
{
    if s.len() == 0 {
        s
    } else if is_space(s[0]) {
        trim_front(s.skip(1))
    } else {
        s
    }
}

/// `s` with trailing whitespace removed.
pub open spec fn trim_back(s: Seq<char>) -> Seq<char>
    decreases s.len(),
{
    if s.len() == 0 {
        s
    } else if is_space(s[s.len() - 1]) {
        trim_back(s.take(s.len() - 1))
    } else {
        s
    }
}

/// `s` with surrounding whitespace removed.
pub open spec fn trim(s: Seq<char>) -> Seq<char> {
    trim_back(trim_front(s))
}

/// `s` begins with `p`.
pub open spec fn starts_with(s: Seq<char>, p: Seq<char>) -> bool {
    s.len() >= p.len() && s.subrange(0, p.len() as int) == p
}

/// Trimming the front removes exactly the leading run of whitespace.
pub proof fn lemma_trim_front_range(s: Seq<char>, i: int)
    requires
        0 <= i <= s.len(),
        forall|k: int| 0 <= k < i ==> is_space(s[k]),
        i == s.len() || !is_space(s[i]),
    ensures
        trim_front(s) =~= s.skip(i),
    decreases i,
{
    if i == 0 {
        if s.len() == 0 {
            assert(trim_front(s) =~= s.skip(0));
        } else {
            assert(!is_space(s[0]));
            assert(trim_front(s) =~= s.skip(0));
        }
    } else {
        assert(is_space(s[0]));
        let t = s.skip(1);
        assert(forall|k: int| 0 <= k < i - 1 ==> is_space(#[trigger] t[k]));
        assert(i - 1 == t.len() || !is_space(t[i - 1]));
        lemma_trim_front_range(t, i - 1);
        assert(t.skip(i - 1) =~= s.skip(i));
    }
}

/// Trimming the back removes exactly the trailing run of whitespace.
pub proof fn lemma_trim_back_range(s: Seq<char>, j: int)
    requires
        0 <= j <= s.len(),
        forall|k: int| j <= k < s.len() ==> is_space(s[k]),
        j == 0 || !is_space(s[j - 1]),
    ensures
        trim_back(s) =~= s.take(j),
    decreases s.len() - j,
{
    if j == s.len() {
        if s.len() == 0 {
            assert(trim_back(s) =~= s.take(j));
        } else {
            assert(!is_space(s[s.len() - 1]));
            assert(trim_back(s) =~= s.take(j));
        }
    } else {
        assert(is_space(s[s.len() - 1]));
        let t = s.take(s.len() - 1);
        assert(forall|k: int| j <= k < t.len() ==> is_space(#[trigger] t[k]));
        lemma_trim_back_range(t, j);
        assert(t.take(j) =~= s.take(j));
    }
}

/// Trimming a sequence that is whitespace everywhere outside `[i, j)`,
/// with non-whitespace at both edges of that window, yields the window.
pub proof fn lemma_trim_range(s: Seq<char>, i: int, j: int)
    requires
        0 <= i < j <= s.len(),
        forall|k: int| 0 <= k < i ==> is_space(s[k]),
        forall|k: int| j <= k < s.len() ==> is_space(s[k]),
        !is_space(s[i]),
        !is_space(s[j - 1]),
    ensures
        trim(s) =~= s.subrange(i, j),
{
    lemma_trim_front_range(s, i);
    let t = s.skip(i);
    assert(forall|k: int| j - i <= k < t.len() ==> is_space(#[trigger] t[k]));
    assert(!is_space(t[j - i - 1]));
    lemma_trim_back_range(t, j - i);
    assert(t.take(j - i) =~= s.subrange(i, j));
}

/// Trimming an all-whitespace sequence leaves nothing.
pub proof fn lemma_trim_all_space(s: Seq<char>)
    requires
        forall|k: int| 0 <= k < s.len() ==> is_space(s[k]),
    ensures
        trim(s) =~= Seq::<char>::empty(),
{
    lemma_trim_front_range(s, s.len() as int);
    assert(s.skip(s.len() as int) =~= Seq::<char>::empty());
    assert(trim_back(Seq::<char>::empty()) =~= Seq::<char>::empty());
}

} // verus!
