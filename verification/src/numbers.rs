use vstd::prelude::*;

use crate::text::{all_digits, digit, digit_of, is_digit, leading_count, lemma_leading_count_at};

verus! {

// ---------------------------------------------------------------------------
// Decimal digit strings and their values
// ---------------------------------------------------------------------------
/// The integer value of a string of decimal digits, most significant first.
pub open spec fn dec_val(s: Seq<char>) -> int
    decreases s.len(),
{
    if s.len() == 0 {
        0
    } else {
        dec_val(s.drop_last()) * 10 + digit_of(s.last())
    }
}

/// A digit string's value is never negative.
pub proof fn lemma_dec_val_nonneg(s: Seq<char>)
    requires
        all_digits(s),
    ensures
        dec_val(s) >= 0,
    decreases s.len(),
{
    if s.len() > 0 {
        assert(is_digit(s[s.len() - 1]));
        lemma_dec_val_nonneg(s.drop_last());
    }
}

/// Reading one more digit can only increase a digit string's value: the
/// value of any prefix is a lower bound for the whole.
pub proof fn lemma_dec_val_prefix(s: Seq<char>, k: int)
    requires
        0 <= k <= s.len(),
        all_digits(s),
    ensures
        dec_val(s.subrange(0, k)) <= dec_val(s),
    decreases s.len() - k,
{
    if k == s.len() {
        assert(s.subrange(0, k) =~= s);
    } else {
        assert(s.subrange(0, k + 1).drop_last() =~= s.subrange(0, k));
        assert(s.subrange(0, k + 1).last() == s[k]);
        assert(is_digit(s[k]));
        let v = dec_val(s.subrange(0, k));
        assert(forall|i: int| 0 <= i < k ==> s.subrange(0, k)[i] == s[i]);
        lemma_dec_val_nonneg_sub(s, 0, k);
        assert(dec_val(s.subrange(0, k + 1)) == v * 10 + digit_of(s[k]));
        assert(v * 10 >= v);
        lemma_dec_val_prefix(s, k + 1);
    }
}

/// Helper: any subrange of an all-digit string has a nonnegative value.
proof fn lemma_dec_val_nonneg_sub(s: Seq<char>, lo: int, hi: int)
    requires
        0 <= lo <= hi <= s.len(),
        all_digits(s),
    ensures
        dec_val(s.subrange(lo, hi)) >= 0,
{
    let t = s.subrange(lo, hi);
    assert(forall|i: int| 0 <= i < t.len() ==> is_digit(#[trigger] t[i]) == is_digit(s[lo + i]));
    lemma_dec_val_nonneg(t);
}

/// Ten to the `n`.
pub open spec fn pow10(n: nat) -> int
    decreases n,
{
    if n == 0 {
        1
    } else {
        10 * pow10((n - 1) as nat)
    }
}

/// A string of `n` digits has a value below ten to the `n`.
pub proof fn lemma_dec_val_bound(s: Seq<char>)
    requires
        all_digits(s),
    ensures
        0 <= dec_val(s) < pow10(s.len()),
    decreases s.len(),
{
    if s.len() == 0 {
    } else {
        lemma_dec_val_bound(s.drop_last());
        assert(is_digit(s[s.len() - 1]));
        assert(digit_of(s.last()) <= 9);
    }
}

// ---------------------------------------------------------------------------
// Parsing fixed-width digit windows (catalog year and month prefixes)
// ---------------------------------------------------------------------------
/// Reads the window `s[from..to]` as an unsigned decimal number of at most
/// four digits; `None` when the window is empty or holds a non-digit.
pub fn parse_digits_window(s: &str, from: usize, to: usize) -> (r: Option<u32>)
    requires
        from <= to <= s@.len(),
        to - from <= 4,
    ensures
        match r {
            Some(v) => from < to && all_digits(s@.subrange(from as int, to as int)) && v
                == dec_val(s@.subrange(from as int, to as int)),
            None => from == to || !all_digits(s@.subrange(from as int, to as int)),
        },
{
    if from == to {
        return None;
    }
    let ghost w = s@.subrange(from as int, to as int);
    let mut acc: u32 = 0;
    let mut i: usize = from;
    while i < to
        invariant
            from <= i <= to,
            to <= s@.len(),
            to - from <= 4,
            w == s@.subrange(from as int, to as int),
            forall|k: int| from <= k < i ==> is_digit(#[trigger] s@[k]),
            acc == dec_val(s@.subrange(from as int, i as int)),
            0 <= acc < pow10((i - from) as nat),
        decreases to - i,
    {
        let c = s.get_char(i);
        if !digit(c) {
            proof {
                assert(w[i - from] == s@[i as int]);
                assert(!all_digits(w));
            }
            return None;
        }
        let d = (c as u32) - 0x30;
        proof {
            assert(pow10((i - from) as nat) <= pow10(4)) by {
                lemma_pow10_mono((i - from) as nat, 4);
            }
            assert(pow10(4) == 10000) by {
                lemma_pow10_4();
            }
            assert(s@.subrange(from as int, i as int + 1).drop_last() =~= s@.subrange(
                from as int,
                i as int,
            ));
        }
        acc = acc * 10 + d;
        i += 1;
    }
    proof {
        assert(w =~= s@.subrange(from as int, i as int));
    }
    Some(acc)
}

/// Ten-to-the stays within the four-digit bound for small exponents.
pub proof fn lemma_pow10_le_10000(n: nat)
    requires
        n <= 4,
    ensures
        pow10(n) <= 10000,
{
    lemma_pow10_mono(n, 4);
    lemma_pow10_4();
}

/// Ten-to-the is monotone in the exponent.
proof fn lemma_pow10_mono(a: nat, b: nat)
    requires
        a <= b,
    ensures
        pow10(a) <= pow10(b),
        pow10(a) >= 1,
    decreases b,
{
    if a == b {
        lemma_pow10_pos(a);
    } else {
        lemma_pow10_mono(a, (b - 1) as nat);
    }
}

proof fn lemma_pow10_pos(a: nat)
    ensures
        pow10(a) >= 1,
    decreases a,
{
    if a > 0 {
        lemma_pow10_pos((a - 1) as nat);
    }
}

proof fn lemma_pow10_4()
    ensures
        pow10(4) == 10000,
{
    assert(pow10(0) == 1);
    assert(pow10(1) == 10);
    assert(pow10(2) == 100);
    assert(pow10(3) == 1000);
    assert(pow10(4) == 10000);
}

// ---------------------------------------------------------------------------
// Parsing signed 64-bit integers, as `i64::from_str` does
// ---------------------------------------------------------------------------
/// What `str::parse::<i64>` accepts and returns: an optional sign followed
/// by at least one ASCII digit, with the value in the type's range.
pub open spec fn parse_i64_spec(s: Seq<char>) -> Option<i64> {
    let digits = if s.len() > 0 && (s[0] == '-' || s[0] == '+') {
        s.drop_first()
    } else {
        s
    };
    let neg = s.len() > 0 && s[0] == '-';
    if digits.len() == 0 || !all_digits(digits) {
        None
    } else {
        let v = if neg {
            -dec_val(digits)
        } else {
            dec_val(digits)
        };
        if i64::MIN <= v <= i64::MAX {
            Some(v as i64)
        } else {
            None
        }
    }
}

/// Parses a decimal integer exactly as `str::parse::<i64>` would.
pub fn parse_i64(s: &str) -> (r: Option<i64>)
    ensures
        r == parse_i64_spec(s@),
{
    let n = s.unicode_len();
    if n == 0 {
        return None;
    }
    let c0 = s.get_char(0);
    let neg = c0 == '-';
    let start: usize = if c0 == '-' || c0 == '+' {
        1
    } else {
        0
    };
    if start == n {
        return None;
    }
    let ghost digits = if start == 1 {
        s@.drop_first()
    } else {
        s@
    };
    proof {
        assert(digits =~= s@.subrange(start as int, n as int));
    }
    // Accumulate the negated value so that i64::MIN parses without overflow.
    let mut acc: i64 = 0;
    let mut i: usize = start;
    while i < n
        invariant
            start <= i <= n,
            n == s@.len(),
            n > 0,
            start < n,
            start == 0 || start == 1,
            (start == 1) == (s@[0] == '-' || s@[0] == '+'),
            neg == (s@[0] == '-'),
            digits == s@.subrange(start as int, n as int),
            forall|k: int| start <= k < i ==> is_digit(#[trigger] s@[k]),
            acc == -dec_val(s@.subrange(start as int, i as int)),
            acc <= 0,
        decreases n - i,
    {
        let c = s.get_char(i);
        if !digit(c) {
            proof {
                assert(digits[i - start] == s@[i as int]);
                assert(!is_digit(digits[i - start]));
                assert(!all_digits(digits));
            }
            return None;
        }
        let d = ((c as u32) - 0x30) as i64;
        let ghost pref = s@.subrange(start as int, i as int);
        let ghost pref2 = s@.subrange(start as int, i as int + 1);
        proof {
            assert(pref2.drop_last() =~= pref);
            assert(pref2.last() == s@[i as int]);
        }
        let overflowed: bool;
        let mut next: i64 = 0;
        match acc.checked_mul(10) {
            Some(m) => {
                match m.checked_sub(d) {
                    Some(v) => {
                        overflowed = false;
                        next = v;
                    },
                    None => {
                        overflowed = true;
                    },
                }
            },
            None => {
                overflowed = true;
            },
        }
        if overflowed {
            proof {
                // The value of the digits seen so far, one more digit
                // included, already exceeds the i64 range; any further
                // digits only increase it.
                assert(dec_val(pref2) == dec_val(pref) * 10 + digit_of(s@[i as int]));
                assert(-dec_val(pref2) < i64::MIN);
                if all_digits(digits) {
                    assert(pref2 =~= digits.subrange(0, i - start + 1));
                    lemma_dec_val_prefix(digits, i - start + 1);
                    assert(dec_val(digits) >= dec_val(pref2));
                    lemma_dec_val_nonneg(digits);
                    assert(dec_val(digits) > i64::MAX);
                    assert(-dec_val(digits) < i64::MIN);
                    assert(digits.len() > 0);
                    assert(digits == if s@.len() > 0 && (s@[0] == '-' || s@[0] == '+') {
                        s@.drop_first()
                    } else {
                        s@
                    });
                    assert(parse_i64_spec(s@) is None);
                } else {
                    assert(parse_i64_spec(s@) is None);
                }
            }
            return None;
        }
        acc = next;
        i += 1;
    }
    proof {
        assert(digits =~= s@.subrange(start as int, i as int));
        assert(forall|j: int| 0 <= j < digits.len() ==> is_digit(#[trigger] digits[j])) by {
            assert(forall|j: int|
                0 <= j < digits.len() ==> #[trigger] digits[j] == s@[start + j]);
        };
        lemma_dec_val_nonneg(digits);
    }
    if neg {
        Some(acc)
    } else {
        if acc == i64::MIN {
            proof {
                assert(dec_val(digits) == -(acc as int));
                assert(dec_val(digits) > i64::MAX);
                assert(parse_i64_spec(s@) is None);
            }
            return None;
        }
        Some(-acc)
    }
}

} // verus!

verus! {

// ---------------------------------------------------------------------------
// Rendering integers as decimal text
// ---------------------------------------------------------------------------
/// The character for a single decimal digit value.
pub open spec fn digit_char(d: int) -> char {
    if d == 0 {
        '0'
    } else if d == 1 {
        '1'
    } else if d == 2 {
        '2'
    } else if d == 3 {
        '3'
    } else if d == 4 {
        '4'
    } else if d == 5 {
        '5'
    } else if d == 6 {
        '6'
    } else if d == 7 {
        '7'
    } else if d == 8 {
        '8'
    } else {
        '9'
    }
}

/// The decimal text of a nonnegative integer, without sign or padding.
pub open spec fn dec_text(n: int) -> Seq<char>
    decreases n,
{
    if n < 10 {
        seq![digit_char(n)]
    } else {
        dec_text(n / 10).push(digit_char(n % 10))
    }
}

/// The decimal text of a signed integer, as `i64`'s `Display` writes it.
pub open spec fn i64_text(i: int) -> Seq<char> {
    if i < 0 {
        seq!['-'] + dec_text(-i)
    } else {
        dec_text(i)
    }
}

/// The one-character string for a decimal digit value.
fn digit_str(d: u64) -> (r: &'static str)
    requires
        d < 10,
    ensures
        r@ == seq![digit_char(d as int)],
{
    proof {
        reveal_strlit("0");
        reveal_strlit("1");
        reveal_strlit("2");
        reveal_strlit("3");
        reveal_strlit("4");
        reveal_strlit("5");
        reveal_strlit("6");
        reveal_strlit("7");
        reveal_strlit("8");
        reveal_strlit("9");
    }
    let r: &'static str = if d == 0 {
        "0"
    } else if d == 1 {
        "1"
    } else if d == 2 {
        "2"
    } else if d == 3 {
        "3"
    } else if d == 4 {
        "4"
    } else if d == 5 {
        "5"
    } else if d == 6 {
        "6"
    } else if d == 7 {
        "7"
    } else if d == 8 {
        "8"
    } else {
        "9"
    };
    proof {
        assert(r@ =~= seq![digit_char(d as int)]);
    }
    r
}

/// Renders a nonnegative number as decimal text.
pub fn render_u64(n: u64) -> (r: String)
    ensures
        r@ == dec_text(n as int),
    decreases n,
{
    if n < 10 {
        digit_str(n).to_owned()
    } else {
        let mut s = render_u64(n / 10);
        s.append(digit_str(n % 10));
        proof {
            assert(s@ =~= dec_text(n as int));
        }
        s
    }
}

/// Renders a signed number as decimal text, as its `Display` does.
pub fn render_i64(i: i64) -> (r: String)
    ensures
        r@ == i64_text(i as int),
{
    if i >= 0 {
        render_u64(i as u64)
    } else {
        let mag: u64 = (-(i as i128)) as u64;
        let mut s = String::new();
        proof {
            reveal_strlit("-");
        }
        s.append("-");
        let tail = render_u64(mag);
        s.append(tail.as_str());
        proof {
            assert("-"@ =~= seq!['-']);
            assert(s@ =~= i64_text(i as int));
        }
        s
    }
}

} // verus!

verus! {

// ---------------------------------------------------------------------------
// The text grammar that `str::parse::<f64>` accepts
// ---------------------------------------------------------------------------
/// Case-insensitive match of `c` against a lowercase ASCII letter.
pub open spec fn eq_ci(c: char, lower: char) -> bool {
    c == lower || (c as u32) + 0x20 == (lower as u32)
}

/// Runtime test for [`eq_ci`].
pub fn ci(c: char, lower: char) -> (r: bool)
    ensures
        r == eq_ci(c, lower),
{
    let u = c as u32;
    let l = lower as u32;
    c == lower || u + 0x20 == l
}

/// The sequence without one leading sign character, if any.
pub open spec fn strip_sign(s: Seq<char>) -> Seq<char> {
    if s.len() > 0 && (s[0] == '+' || s[0] == '-') {
        s.drop_first()
    } else {
        s
    }
}

/// `inf`, ignoring case.
pub open spec fn is_inf_word(s: Seq<char>) -> bool {
    s.len() == 3 && eq_ci(s[0], 'i') && eq_ci(s[1], 'n') && eq_ci(s[2], 'f')
}

/// `infinity`, ignoring case.
pub open spec fn is_infinity_word(s: Seq<char>) -> bool {
    s.len() == 8 && eq_ci(s[0], 'i') && eq_ci(s[1], 'n') && eq_ci(s[2], 'f') && eq_ci(s[3], 'i')
        && eq_ci(s[4], 'n') && eq_ci(s[5], 'i') && eq_ci(s[6], 't') && eq_ci(s[7], 'y')
}

/// `nan`, ignoring case.
pub open spec fn is_nan_word(s: Seq<char>) -> bool {
    s.len() == 3 && eq_ci(s[0], 'n') && eq_ci(s[1], 'a') && eq_ci(s[2], 'n')
}

/// The longest all-digit prefix of `s`.
pub open spec fn leading_digits(s: Seq<char>) -> int {
    leading_count(s, |c: char| is_digit(c))
}

/// An exponent part: empty, or `e`/`E`, an optional sign, and digits.
pub open spec fn exp_part_ok(s: Seq<char>) -> bool {
    if s.len() == 0 {
        true
    } else if s[0] == 'e' || s[0] == 'E' {
        let t = strip_sign(s.drop_first());
        t.len() > 0 && all_digits(t)
    } else {
        false
    }
}

/// An unsigned number: digits with an optional point, optional fraction
/// digits and an optional exponent, or a point followed by digits and an
/// optional exponent.
pub open spec fn number_ok(s: Seq<char>) -> bool {
    let d1 = leading_digits(s);
    if d1 > 0 {
        let rest = s.subrange(d1, s.len() as int);
        if rest.len() > 0 && rest[0] == '.' {
            let r2 = rest.drop_first();
            let d2 = leading_digits(r2);
            exp_part_ok(r2.subrange(d2, r2.len() as int))
        } else {
            exp_part_ok(rest)
        }
    } else if s.len() > 0 && s[0] == '.' {
        let r2 = s.drop_first();
        let d2 = leading_digits(r2);
        d2 > 0 && exp_part_ok(r2.subrange(d2, r2.len() as int))
    } else {
        false
    }
}

/// What `str::parse::<f64>` accepts: an optional sign followed by an
/// infinity or not-a-number word or by a decimal number.  Acceptance never
/// depends on range; out-of-range magnitudes parse to infinities or zero.
pub open spec fn is_float_text(s: Seq<char>) -> bool {
    let b = strip_sign(s);
    is_inf_word(b) || is_infinity_word(b) || is_nan_word(b) || number_ok(b)
}

/// Scans forward from `from` over decimal digits; stops at the first
/// non-digit or the end.
fn scan_digits(s: &str, from: usize) -> (r: usize)
    requires
        from <= s@.len(),
    ensures
        from <= r <= s@.len(),
        forall|k: int| from <= k < r ==> is_digit(#[trigger] s@[k]),
        r < s@.len() ==> !is_digit(s@[r as int]),
{
    let n = s.unicode_len();
    let mut i: usize = from;
    while i < n && digit(s.get_char(i))
        invariant
            from <= i <= n,
            n == s@.len(),
            forall|k: int| from <= k < i ==> is_digit(#[trigger] s@[k]),
        decreases n - i,
    {
        i += 1;
    }
    i
}

/// Checks the exponent-part grammar from position `t` to the end.
fn exp_tail_ok(s: &str, t: usize) -> (r: bool)
    requires
        t <= s@.len(),
    ensures
        r == exp_part_ok(s@.subrange(t as int, s@.len() as int)),
{
    let n = s.unicode_len();
    let ghost tail = s@.subrange(t as int, n as int);
    if t == n {
        return true;
    }
    let c = s.get_char(t);
    proof {
        assert(tail[0] == s@[t as int]);
    }
    if !(c == 'e' || c == 'E') {
        return false;
    }
    let ghost u = tail.drop_first();
    proof {
        assert(u =~= s@.subrange(t as int + 1, n as int));
    }
    let mut t3: usize = t + 1;
    if t3 < n {
        let c2 = s.get_char(t3);
        if c2 == '+' || c2 == '-' {
            t3 = t3 + 1;
        }
    }
    let ghost st = strip_sign(u);
    proof {
        assert(st =~= s@.subrange(t3 as int, n as int));
    }
    if t3 == n {
        proof {
            assert(st.len() == 0);
        }
        return false;
    }
    let j = scan_digits(s, t3);
    if j == n {
        proof {
            assert(forall|k: int| 0 <= k < st.len() ==> is_digit(#[trigger] st[k]) == is_digit(
                s@[t3 + k],
            ));
        }
        true
    } else {
        proof {
            assert(st[j - t3] == s@[j as int]);
            assert(!is_digit(st[j - t3]));
            assert(!all_digits(st));
        }
        false
    }
}

/// Tests whether `str::parse::<f64>` would accept `s`, by the grammar the
/// standard library documents; no floating-point value is computed.
#[verifier::rlimit(60)]
pub fn is_float_str(s: &str) -> (r: bool)
    ensures
        r == is_float_text(s@),
{
    let n = s.unicode_len();
    let mut sgn: usize = 0;
    if n > 0 {
        let c0 = s.get_char(0);
        if c0 == '+' || c0 == '-' {
            sgn = 1;
        }
    }
    let ghost b = strip_sign(s@);
    proof {
        assert(b =~= s@.subrange(sgn as int, n as int));
    }
    let m = n - sgn;
    if m == 3 {
        let a0 = s.get_char(sgn);
        let a1 = s.get_char(sgn + 1);
        let a2 = s.get_char(sgn + 2);
        proof {
            assert(b[0] == s@[sgn as int]);
            assert(b[1] == s@[sgn as int + 1]);
            assert(b[2] == s@[sgn as int + 2]);
        }
        if ci(a0, 'i') && ci(a1, 'n') && ci(a2, 'f') {
            return true;
        }
        if ci(a0, 'n') && ci(a1, 'a') && ci(a2, 'n') {
            return true;
        }
    }
    if m == 8 {
        let a0 = s.get_char(sgn);
        let a1 = s.get_char(sgn + 1);
        let a2 = s.get_char(sgn + 2);
        let a3 = s.get_char(sgn + 3);
        let a4 = s.get_char(sgn + 4);
        let a5 = s.get_char(sgn + 5);
        let a6 = s.get_char(sgn + 6);
        let a7 = s.get_char(sgn + 7);
        proof {
            assert(forall|k: int| 0 <= k < 8 ==> #[trigger] b[k] == s@[sgn + k]);
        }
        if ci(a0, 'i') && ci(a1, 'n') && ci(a2, 'f') && ci(a3, 'i') && ci(a4, 'n') && ci(a5, 'i')
            && ci(a6, 't') && ci(a7, 'y') {
            return true;
        }
    }
    // Not one of the words: decide by the number grammar.
    let ghost dp = |c: char| is_digit(c);
    let j1 = scan_digits(s, sgn);
    proof {
        assert(forall|k: int| 0 <= k < j1 - sgn ==> is_digit(#[trigger] b[k]) == is_digit(
            s@[sgn + k],
        ));
        if j1 < n {
            assert(b[j1 - sgn] == s@[j1 as int]);
        }
        lemma_leading_count_at(b, dp, j1 - sgn);
        assert(leading_digits(b) == j1 - sgn);
    }
    if j1 > sgn {
        let ghost rest = b.subrange(j1 - sgn, b.len() as int);
        proof {
            assert(rest =~= s@.subrange(j1 as int, n as int));
        }
        if j1 < n && s.get_char(j1) == '.' {
            let ghost r2 = rest.drop_first();
            proof {
                assert(rest[0] == s@[j1 as int]);
                assert(r2 =~= s@.subrange(j1 as int + 1, n as int));
            }
            let j2 = scan_digits(s, j1 + 1);
            proof {
                assert(forall|k: int| 0 <= k < j2 - (j1 + 1) ==> is_digit(#[trigger] r2[k])
                    == is_digit(s@[j1 + 1 + k]));
                if j2 < n {
                    assert(r2[j2 - (j1 + 1)] == s@[j2 as int]);
                }
                lemma_leading_count_at(r2, dp, j2 - (j1 + 1));
                assert(r2.subrange(leading_digits(r2), r2.len() as int) =~= s@.subrange(
                    j2 as int,
                    n as int,
                ));
            }
            let ok = exp_tail_ok(s, j2);
            return ok;
        } else {
            proof {
                if j1 < n {
                    assert(rest[0] == s@[j1 as int]);
                }
            }
            let ok = exp_tail_ok(s, j1);
            return ok;
        }
    } else {
        if sgn < n && s.get_char(sgn) == '.' {
            let ghost r2 = b.drop_first();
            proof {
                assert(b[0] == s@[sgn as int]);
                assert(r2 =~= s@.subrange(sgn as int + 1, n as int));
            }
            let j2 = scan_digits(s, sgn + 1);
            proof {
                assert(forall|k: int| 0 <= k < j2 - (sgn + 1) ==> is_digit(#[trigger] r2[k])
                    == is_digit(s@[sgn + 1 + k]));
                if j2 < n {
                    assert(r2[j2 - (sgn + 1)] == s@[j2 as int]);
                }
                lemma_leading_count_at(r2, dp, j2 - (sgn + 1));
                assert(r2.subrange(leading_digits(r2), r2.len() as int) =~= s@.subrange(
                    j2 as int,
                    n as int,
                ));
            }
            if j2 == sgn + 1 {
                return false;
            }
            let ok = exp_tail_ok(s, j2);
            return ok;
        }
        if sgn < n {
            proof {
                assert(b[0] == s@[sgn as int]);
            }
        }
        return false;
    }
}

} // verus!
