use vstd::prelude::*;

verus! {

// ---------------------------------------------------------------------------
// Character classes
// ---------------------------------------------------------------------------
/// A character with the Unicode `White_Space` property, the set that
/// `str::trim` removes at both ends.
pub open spec fn is_ws_char(c: char) -> bool {
    let u = c as u32;
    u == 0x09 || u == 0x0A || u == 0x0B || u == 0x0C || u == 0x0D || u == 0x20 || u == 0x85
        || u == 0xA0 || u == 0x1680 || (0x2000 <= u && u <= 0x200A) || u == 0x2028 || u == 0x2029
        || u == 0x202F || u == 0x205F || u == 0x3000
}

/// Runtime test for [`is_ws_char`].
pub fn is_ws(c: char) -> (r: bool)
    ensures
        r == is_ws_char(c),
{
    let u = c as u32;
    u == 0x09 || u == 0x0A || u == 0x0B || u == 0x0C || u == 0x0D || u == 0x20 || u == 0x85
        || u == 0xA0 || u == 0x1680 || (0x2000 <= u && u <= 0x200A) || u == 0x2028 || u == 0x2029
        || u == 0x202F || u == 0x205F || u == 0x3000
}

/// An ASCII decimal digit.
pub open spec fn is_digit(c: char) -> bool {
    0x30 <= (c as u32) && (c as u32) <= 0x39
}

/// Runtime test for [`is_digit`].
pub fn digit(c: char) -> (r: bool)
    ensures
        r == is_digit(c),
{
    let u = c as u32;
    0x30 <= u && u <= 0x39
}

/// The numeric value of an ASCII decimal digit.
pub open spec fn digit_of(c: char) -> int {
    (c as u32) - 0x30
}

/// Every character of the sequence is an ASCII decimal digit.
pub open spec fn all_digits(s: Seq<char>) -> bool {
    forall|i: int| 0 <= i < s.len() ==> is_digit(#[trigger] s[i])
}

// ---------------------------------------------------------------------------
// Leading runs of a character class
// ---------------------------------------------------------------------------
/// The length of the longest prefix of `s` whose characters all satisfy `p`.
pub open spec fn leading_count(s: Seq<char>, p: spec_fn(char) -> bool) -> int
    decreases s.len(),
{
    if s.len() == 0 {
        0
    } else if !p(s[0]) {
        0
    } else {
        1 + leading_count(s.drop_first(), p)
    }
}

/// A forward scan that stops at the first character failing `p` has found
/// exactly the leading run.
pub proof fn lemma_leading_count_at(s: Seq<char>, p: spec_fn(char) -> bool, i: int)
    requires
        0 <= i <= s.len(),
        forall|k: int| 0 <= k < i ==> p(#[trigger] s[k]),
        i < s.len() ==> !p(s[i]),
    ensures
        leading_count(s, p) == i,
    decreases i,
{
    if s.len() == 0 {
    } else if i == 0 {
    } else {
        assert(p(s[0]));
        let t = s.drop_first();
        assert(forall|k: int| 0 <= k < i - 1 ==> p(#[trigger] t[k]) == p(s[k + 1]));
        lemma_leading_count_at(t, p, i - 1);
    }
}

// ---------------------------------------------------------------------------
// Trimming
// ---------------------------------------------------------------------------
/// The length of the run of whitespace at the start of `s`.
pub open spec fn leading_ws(s: Seq<char>) -> int {
    leading_count(s, |c: char| is_ws_char(c))
}

/// The length of the run of whitespace at the end of `s`.
pub open spec fn trailing_ws(s: Seq<char>) -> int {
    leading_count(s.reverse(), |c: char| is_ws_char(c))
}

/// What `str::trim` returns: `s` without its leading and trailing
/// whitespace runs.
pub open spec fn trim_spec(s: Seq<char>) -> Seq<char> {
    if leading_ws(s) == s.len() {
        Seq::empty()
    } else {
        s.subrange(leading_ws(s), s.len() - trailing_ws(s))
    }
}

/// Removes leading and trailing Unicode whitespace, as `str::trim` does.
pub fn trim_str(s: &str) -> (r: String)
    ensures
        r@ == trim_spec(s@),
{
    let ghost p = |c: char| is_ws_char(c);
    let n = s.unicode_len();
    let mut i: usize = 0;
    while i < n && is_ws(s.get_char(i))
        invariant
            0 <= i <= n,
            n == s@.len(),
            forall|k: int| 0 <= k < i ==> is_ws_char(#[trigger] s@[k]),
        decreases n - i,
    {
        i += 1;
    }
    proof {
        lemma_leading_count_at(s@, p, i as int);
        assert(leading_ws(s@) == i);
    }
    if i == n {
        proof {
            assert(trim_spec(s@) == Seq::<char>::empty());
        }
        let r = String::new();
        return r;
    }
    // There is a non-whitespace character at index i, so the backward scan
    // stops at or after it.
    let mut j: usize = n;
    while j > 0 && is_ws(s.get_char(j - 1))
        invariant
            0 <= j <= n,
            n == s@.len(),
            forall|k: int| j <= k < n ==> is_ws_char(#[trigger] s@[k]),
            i < n,
            !is_ws_char(s@[i as int]),
            j > i,
        decreases j,
    {
        j -= 1;
    }
    proof {
        let rev = s@.reverse();
        assert(forall|k: int| 0 <= k < n - j ==> is_ws_char(#[trigger] rev[k]) == is_ws_char(
            s@[n - 1 - k],
        ));
        lemma_leading_count_at(rev, p, n - j);
        assert(trailing_ws(s@) == n - j);
        assert(trim_spec(s@) == s@.subrange(i as int, j as int));
    }
    let r = s.substring_char(i, j);
    r.to_owned()
}

// ---------------------------------------------------------------------------
// Plain string comparisons
// ---------------------------------------------------------------------------
/// Character-for-character equality of two string slices.
pub fn str_eq_str(a: &str, b: &str) -> (r: bool)
    ensures
        r == (a@ == b@),
{
    let alen = a.unicode_len();
    let blen = b.unicode_len();
    if alen != blen {
        return false;
    }
    let mut i: usize = 0;
    while i < alen
        invariant
            0 <= i <= alen,
            alen == a@.len(),
            alen == b@.len(),
            forall|k: int| 0 <= k < i ==> a@[k] == b@[k],
        decreases alen - i,
    {
        if a.get_char(i) != b.get_char(i) {
            return false;
        }
        i += 1;
    }
    proof {
        assert(a@ =~= b@);
    }
    true
}

/// Whether `p` is a prefix of `s`.
pub open spec fn has_prefix(s: Seq<char>, p: Seq<char>) -> bool {
    p.len() <= s.len() && s.subrange(0, p.len() as int) == p
}

/// Character-for-character prefix test.
pub fn str_has_prefix(s: &str, p: &str) -> (r: bool)
    ensures
        r == has_prefix(s@, p@),
{
    let slen = s.unicode_len();
    let plen = p.unicode_len();
    if plen > slen {
        return false;
    }
    let mut i: usize = 0;
    while i < plen
        invariant
            0 <= i <= plen,
            plen <= slen,
            slen == s@.len(),
            plen == p@.len(),
            forall|k: int| 0 <= k < i ==> s@[k] == p@[k],
        decreases plen - i,
    {
        if s.get_char(i) != p.get_char(i) {
            proof {
                assert(s@.subrange(0, p@.len() as int)[i as int] == s@[i as int]);
            }
            return false;
        }
        i += 1;
    }
    proof {
        assert(s@.subrange(0, p@.len() as int) =~= p@);
    }
    true
}

// ---------------------------------------------------------------------------
// Path segments
// ---------------------------------------------------------------------------
/// The suffix of `s` after its last `/`, or all of `s` when it has none:
/// what splitting on `/` and taking the last piece yields.
pub open spec fn last_segment(s: Seq<char>) -> Seq<char> {
    s.subrange(s.len() - leading_count(s.reverse(), |c: char| c != '/'), s.len() as int)
}

/// Returns the final `/`-separated segment of `s`.
pub fn last_path_segment(s: &str) -> (r: String)
    ensures
        r@ == last_segment(s@),
{
    let ghost p = |c: char| c != '/';
    let n = s.unicode_len();
    let mut j: usize = n;
    while j > 0 && s.get_char(j - 1) != '/'
        invariant
            0 <= j <= n,
            n == s@.len(),
            forall|k: int| j <= k < n ==> s@[k] != '/',
        decreases j,
    {
        j -= 1;
    }
    proof {
        let rev = s@.reverse();
        assert(forall|k: int| 0 <= k < n - j ==> (#[trigger] rev[k] != '/') == (s@[n - 1 - k]
            != '/'));
        if j > 0 {
            assert(rev[(n - j) as int] == s@[j - 1]);
        }
        lemma_leading_count_at(rev, p, n - j);
        assert(last_segment(s@) == s@.subrange(j as int, n as int));
    }
    let r = s.substring_char(j, n);
    r.to_owned()
}

} // verus!
