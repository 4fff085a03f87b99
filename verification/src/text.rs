//! Character and digit-string helpers shared by the address, option and
//! cell-value parsers: class scanning, decimal values, decimal rendering,
//! and recognizers for integer and floating-point literals.

use vstd::prelude::*;

verus! {

/// The character classes the parsers scan over.
pub enum CharClass {
    /// An ASCII decimal digit.
    Digit,
    /// An ASCII letter, either case.
    AsciiAlpha,
    /// Whitespace as the option grammar accepts it: the ASCII spacing
    /// characters and the Unicode space separators.
    Space,
    /// Any character but a single or double quote.
    NotQuote,
    /// Any character but a path-segment divider or the end of a URL path.
    PathSeg,
}

pub open spec fn class_holds(cl: CharClass, c: char) -> bool {
    match cl {
        CharClass::Digit => '0' <= c && c <= '9',
        CharClass::AsciiAlpha => ('A' <= c && c <= 'Z') || ('a' <= c && c <= 'z'),
        CharClass::Space => c == ' ' || c == '\t' || c == '\n' || c == '\r' || c == '\u{b}'
            || c == '\u{c}' || c == '\u{85}' || c == '\u{a0}' || c == '\u{1680}' || ('\u{2000}'
            <= c && c <= '\u{200a}') || c == '\u{2028}' || c == '\u{2029}' || c == '\u{202f}'
            || c == '\u{205f}' || c == '\u{3000}',
        CharClass::NotQuote => c != '\'' && c != '"',
        CharClass::PathSeg => c != '/' && c != '?' && c != '#',
    }
}

/// First index at or after `i` whose character is not in the class (or the
/// end of `s`).
pub open spec fn scan_cl(s: Seq<char>, i: int, cl: CharClass) -> int
    decreases s.len() - i,
{
    if 0 <= i < s.len() && class_holds(cl, s[i]) {
        scan_cl(s, i + 1, cl)
    } else {
        i
    }
}

pub proof fn lemma_scan_cl(s: Seq<char>, i: int, cl: CharClass)
    requires
        0 <= i <= s.len(),
    ensures
        i <= scan_cl(s, i, cl) <= s.len(),
        forall|j: int| i <= j < scan_cl(s, i, cl) ==> class_holds(cl, #[trigger] s[j]),
        scan_cl(s, i, cl) < s.len() ==> !class_holds(cl, s[scan_cl(s, i, cl)]),
    decreases s.len() - i,
{
    if i < s.len() && class_holds(cl, s[i]) {
        lemma_scan_cl(s, i + 1, cl);
    }
}

/// Exec counterpart of `scan_cl`.
pub fn scan_class(s: &str, from: usize, cl: &CharClass) -> (r: usize)
    requires
        from <= s@.len(),
    ensures
        r == scan_cl(s@, from as int, *cl),
        from <= r <= s@.len(),
{
    let n = s.unicode_len();
    let mut j = from;
    loop
        invariant
            from <= j <= n,
            n == s@.len(),
            scan_cl(s@, from as int, *cl) == scan_cl(s@, j as int, *cl),
        ensures
            j == scan_cl(s@, from as int, *cl),
            from <= j <= n,
        decreases n - j,
    {
        if j >= n {
            break ;
        }
        let c = s.get_char(j);
        let inside = match cl {
            CharClass::Digit => c >= '0' && c <= '9',
            CharClass::AsciiAlpha => (c >= 'A' && c <= 'Z') || (c >= 'a' && c <= 'z'),
            CharClass::Space => c == ' ' || c == '\t' || c == '\n' || c == '\r' || c == '\u{b}'
                || c == '\u{c}' || c == '\u{85}' || c == '\u{a0}' || c == '\u{1680}' || (c
                >= '\u{2000}' && c <= '\u{200a}') || c == '\u{2028}' || c == '\u{2029}' || c
                == '\u{202f}' || c == '\u{205f}' || c == '\u{3000}',
            CharClass::NotQuote => c != '\'' && c != '"',
            CharClass::PathSeg => c != '/' && c != '?' && c != '#',
        };
        if !inside {
            break ;
        }
        j = j + 1;
    }
    j
}

pub open spec fn is_ascii_digit_char(c: char) -> bool {
    '0' <= c && c <= '9'
}

pub open spec fn digit_val(c: char) -> int {
    c as int - '0' as int
}

/// Numeric value of a string of decimal digits, most significant first.
pub open spec fn dec_val(s: Seq<char>) -> int
    decreases s.len(),
{
    if s.len() == 0 {
        0
    } else {
        dec_val(s.drop_last()) * 10 + digit_val(s.last())
    }
}

pub open spec fn all_digits(s: Seq<char>) -> bool {
    forall|i: int| 0 <= i < s.len() ==> is_ascii_digit_char(#[trigger] s[i])
}

pub proof fn lemma_dec_val_nonneg(s: Seq<char>)
    requires
        all_digits(s),
    ensures
        dec_val(s) >= 0,
    decreases s.len(),
{
    if s.len() > 0 {
        assert(all_digits(s.drop_last())) by {
            assert(forall|i: int|
                0 <= i < s.len() - 1 ==> s.drop_last()[i] == #[trigger] s[i]);
        }
        lemma_dec_val_nonneg(s.drop_last());
    }
}

/// Appends one character to a string.
/// Relies on String::push: it adds exactly the given character at the end.
#[verifier::external_body]
pub fn push_char(s: &mut String, c: char)
    ensures
        final(s)@ == old(s)@.push(c),
{
    s.push(c);
}

/// The decimal rendering of a non-negative integer, without sign or padding.
pub open spec fn spec_dec_digits(n: int) -> Seq<char>
    decreases n,
{
    if n < 10 {
        seq![digit_char(n)]
    } else {
        spec_dec_digits(n / 10).push(digit_char(n % 10))
    }
}

pub open spec fn digit_char(n: int) -> char {
    ('0' as int + n) as char
}

/// Renders `n` in decimal, as `to_string` on an unsigned integer does.
pub fn u64_to_dec_string(n: u64) -> (r: String)
    ensures
        r@ == spec_dec_digits(n as int),
{
    let mut ds: Vec<u8> = Vec::new();
    let mut m = n;
    loop
        invariant_except_break
            spec_dec_digits(n as int) == spec_dec_digits(m as int) + rev_digit_chars(ds@),
        invariant
            forall|k: int| 0 <= k < ds@.len() ==> #[trigger] ds@[k] <= 9,
        ensures
            spec_dec_digits(n as int) == rev_digit_chars(ds@),
            ds@.len() >= 1,
            forall|k: int| 0 <= k < ds@.len() ==> #[trigger] ds@[k] <= 9,
        decreases m,
    {
        let ghost old_ds = ds@;
        let ghost old_m = m as int;
        let d = (m % 10) as u8;
        ds.push(d);
        m = m / 10;
        proof {
            assert(rev_digit_chars(old_ds.push(d)) =~= seq![digit_char(old_m % 10)]
                + rev_digit_chars(old_ds));
            if old_m < 10 {
                assert(spec_dec_digits(old_m) == seq![digit_char(old_m)]);
                assert(old_m % 10 == old_m);
                assert(spec_dec_digits(n as int) =~= rev_digit_chars(ds@));
            } else {
                assert(spec_dec_digits(old_m) == spec_dec_digits(old_m / 10).push(
                    digit_char(old_m % 10)));
                assert(spec_dec_digits(old_m / 10).push(digit_char(old_m % 10))
                    + rev_digit_chars(old_ds) =~= spec_dec_digits(old_m / 10)
                    + rev_digit_chars(ds@));
                assert(spec_dec_digits(n as int) =~= spec_dec_digits(m as int)
                    + rev_digit_chars(ds@));
            }
        }
        if m == 0 {
            break ;
        }
    }
    let mut out = String::new();
    let mut i = ds.len();
    while i > 0
        invariant
            i <= ds@.len(),
            forall|k: int| 0 <= k < ds@.len() ==> #[trigger] ds@[k] <= 9,
            out@ =~= rev_digit_chars(ds@).subrange(0, ds@.len() - i),
        decreases i,
    {
        i = i - 1;
        let c = (48u8 + ds[i]) as char;
        proof {
            assert(c == digit_char(ds@[i as int] as int));
        }
        push_char(&mut out, c);
        proof {
            assert(out@ =~= rev_digit_chars(ds@).subrange(0, ds@.len() - i));
        }
    }
    proof {
        assert(out@ =~= rev_digit_chars(ds@));
    }
    out
}

/// The digits of `ds`, least significant first, read back as characters in
/// most-significant-first order.
pub open spec fn rev_digit_chars(ds: Seq<u8>) -> Seq<char> {
    Seq::new(ds.len(), |i: int| digit_char(ds[ds.len() - 1 - i] as int))
}

/// Whether `s` holds `c` anywhere.
pub fn contains_char(s: &str, c: char) -> (r: bool)
    ensures
        r == s@.contains(c),
{
    let n = s.unicode_len();
    let mut j: usize = 0;
    loop
        invariant
            j <= n,
            n == s@.len(),
            forall|k: int| 0 <= k < j ==> #[trigger] s@[k] != c,
        ensures
            (j < n && s@[j as int] == c) || (j == n && forall|k: int|
                0 <= k < n ==> #[trigger] s@[k] != c),
        decreases n - j,
    {
        if j >= n {
            break ;
        }
        if s.get_char(j) == c {
            break ;
        }
        j = j + 1;
    }
    if j < n {
        proof {
            assert(s@.contains(c)) by {
                assert(s@[j as int] == c);
            }
        }
        true
    } else {
        false
    }
}

/// The value of the digit span `[from, to)` of `s`, unless it exceeds `cap`.
pub fn dec_value_capped(s: &str, from: usize, to: usize, cap: u64) -> (r: Option<u64>)
    requires
        from <= to <= s@.len(),
        forall|j: int| from <= j < to ==> is_ascii_digit_char(#[trigger] s@[j]),
    ensures
        match r {
            Some(v) => v == dec_val(s@.subrange(from as int, to as int)) && v <= cap,
            None => dec_val(s@.subrange(from as int, to as int)) > cap,
        },
{
    let mut acc: u64 = 0;
    let mut over = false;
    let mut j = from;
    while j < to
        invariant
            from <= j <= to <= s@.len(),
            forall|k: int| from <= k < to ==> is_ascii_digit_char(#[trigger] s@[k]),
            !over ==> acc == dec_val(s@.subrange(from as int, j as int)) && acc <= cap,
            over ==> dec_val(s@.subrange(from as int, j as int)) > cap,
        decreases to - j,
    {
        let ghost pre = s@.subrange(from as int, j as int);
        let ghost post = s@.subrange(from as int, j as int + 1);
        proof {
            assert(post.drop_last() =~= pre);
            assert(post.last() == s@[j as int]);
        }
        let c = s.get_char(j);
        let d: u64 = ((c as u32) - 48) as u64;
        proof {
            assert(d == digit_val(s@[j as int]));
            assert(dec_val(post) == dec_val(pre) * 10 + d);
        }
        if over {
            proof {
                assert(dec_val(pre) * 10 >= dec_val(pre));
            }
        } else if d > cap {
            over = true;
            proof {
                lemma_dec_val_nonneg(pre);
            }
        } else if acc > (cap - d) / 10 {
            over = true;
            proof {
                let q = (cap - d) / 10;
                assert(cap - d == 10 * q + (cap - d) % 10);
                assert(acc * 10 + d > cap) by (nonlinear_arith)
                    requires
                        acc > q,
                        cap - d == 10 * q + (cap - d) % 10,
                        (cap - d) % 10 < 10,
                ;
            }
        } else {
            proof {
                let q = (cap - d) / 10;
                assert(cap - d == 10 * q + (cap - d) % 10);
                assert(acc * 10 + d <= cap) by (nonlinear_arith)
                    requires
                        acc <= q,
                        cap - d == 10 * q + (cap - d) % 10,
                        (cap - d) % 10 >= 0,
                ;
            }
            acc = acc * 10 + d;
        }
        j = j + 1;
    }
    if over {
        None
    } else {
        Some(acc)
    }
}

/// What `str::parse::<i64>` accepts: an optional sign, then one or more
/// decimal digits, with the value inside the 64-bit signed range.
pub open spec fn spec_parse_i64(s: Seq<char>) -> Option<int> {
    if s.len() > 0 && (s[0] == '+' || s[0] == '-') {
        spec_signed_digits(s.skip(1), s[0] == '-')
    } else {
        spec_signed_digits(s, false)
    }
}

pub open spec fn spec_signed_digits(t: Seq<char>, neg: bool) -> Option<int> {
    if t.len() >= 1 && all_digits(t) {
        let v: int = if neg {
            -dec_val(t)
        } else {
            dec_val(t)
        };
        if i64::MIN <= v <= i64::MAX {
            Some(v)
        } else {
            None
        }
    } else {
        None
    }
}

/// Parses `s` as a 64-bit signed integer, exactly as `str::parse::<i64>` does.
pub fn parse_i64(s: &str) -> (r: Option<i64>)
    ensures
        match r {
            Some(v) => spec_parse_i64(s@) == Some(v as int),
            None => spec_parse_i64(s@) is None,
        },
{
    let n = s.unicode_len();
    if n == 0 {
        return None;
    }
    let c0 = s.get_char(0);
    let neg = c0 == '-';
    let start: usize = if c0 == '+' || c0 == '-' {
        1
    } else {
        0
    };
    let ghost t = if start == 1 {
        s@.skip(1)
    } else {
        s@
    };
    proof {
        assert(t =~= s@.subrange(start as int, n as int));
    }
    if start >= n {
        return None;
    }
    let e = scan_class(s, start, &CharClass::Digit);
    proof {
        lemma_scan_cl(s@, start as int, CharClass::Digit);
    }
    if e < n {
        proof {
            assert(!is_ascii_digit_char(t[e - start]));
        }
        return None;
    }
    proof {
        assert(all_digits(t)) by {
            assert(forall|k: int|
                0 <= k < t.len() ==> t[k] == #[trigger] s@[k + start]);
        }
        lemma_dec_val_nonneg(t);
    }
    let cap: u64 = if neg {
        9223372036854775808
    } else {
        9223372036854775807
    };
    match dec_value_capped(s, start, n, cap) {
        None => None,
        Some(v) => {
            if neg {
                if v == 9223372036854775808 {
                    Some(i64::MIN)
                } else {
                    Some(-(v as i64))
                }
            } else {
                Some(v as i64)
            }
        },
    }
}

/// `s` with one leading sign character removed, if any.
pub open spec fn strip_sign(s: Seq<char>) -> Seq<char> {
    if s.len() > 0 && (s[0] == '+' || s[0] == '-') {
        s.skip(1)
    } else {
        s
    }
}

/// The special words `str::parse::<f64>` accepts besides numbers,
/// compared without regard to letter case.
pub open spec fn is_special_float_word(t: Seq<char>) -> bool {
    ||| (t.len() == 3 && ci(t[0], 'i') && ci(t[1], 'n') && ci(t[2], 'f'))
    ||| (t.len() == 8 && ci(t[0], 'i') && ci(t[1], 'n') && ci(t[2], 'f') && ci(t[3], 'i') && ci(
        t[4],
        'n',
    ) && ci(t[5], 'i') && ci(t[6], 't') && ci(t[7], 'y'))
    ||| (t.len() == 3 && ci(t[0], 'n') && ci(t[1], 'a') && ci(t[2], 'n'))
}

/// Case-insensitive match of `c` against the lowercase ASCII letter `l`.
pub open spec fn ci(c: char, l: char) -> bool {
    c as int == l as int || c as int == l as int - 32
}

/// A decimal mantissa with an optional exponent, as `str::parse::<f64>`
/// accepts after the sign: digits with an optional point, at least one digit
/// on one side of it.
pub open spec fn is_f64_number(t: Seq<char>) -> bool {
    let a = scan_cl(t, 0, CharClass::Digit);
    let has_dot = a < t.len() && t[a] == '.';
    let m_end = if has_dot {
        scan_cl(t, a + 1, CharClass::Digit)
    } else {
        a
    };
    let m_ok = if has_dot {
        a >= 1 || m_end > a + 1
    } else {
        a >= 1
    };
    m_ok && (m_end == t.len() || is_f64_exponent(t, m_end))
}

/// An exponent part starting at `i`: `e` or `E`, an optional sign, then one
/// or more digits reaching the end of `t`.
pub open spec fn is_f64_exponent(t: Seq<char>, i: int) -> bool {
    0 <= i < t.len() && (t[i] == 'e' || t[i] == 'E') && {
        let j = if i + 1 < t.len() && (t[i + 1] == '+' || t[i + 1] == '-') {
            i + 2
        } else {
            i + 1
        };
        let k = scan_cl(t, j, CharClass::Digit);
        k > j && k == t.len()
    }
}

/// What `str::parse::<f64>` accepts: an optional sign, then a special word
/// or a decimal number.
pub open spec fn is_f64_literal(s: Seq<char>) -> bool {
    is_special_float_word(strip_sign(s)) || is_f64_number(strip_sign(s))
}

/// Decides whether `s` is a well-formed floating-point literal, exactly as
/// far as `str::parse::<f64>` would accept it.
pub fn is_f64_literal_str(s: &str) -> (r: bool)
    ensures
        r == is_f64_literal(s@),
{
    let n = s.unicode_len();
    let mut off: usize = 0;
    if n > 0 {
        let c0 = s.get_char(0);
        if c0 == '+' || c0 == '-' {
            off = 1;
        }
    }
    let t = s.substring_char(off, n);
    proof {
        assert(t@ =~= strip_sign(s@));
    }
    if is_special_word(t) {
        return true;
    }
    is_f64_number_str(t)
}

fn is_special_word(t: &str) -> (r: bool)
    ensures
        r == is_special_float_word(t@),
{
    let n = t.unicode_len();
    if n == 3 {
        let a = t.get_char(0);
        let b = t.get_char(1);
        let c = t.get_char(2);
        ((a == 'i' || a == 'I') && (b == 'n' || b == 'N') && (c == 'f' || c == 'F')) || ((a == 'n'
            || a == 'N') && (b == 'a' || b == 'A') && (c == 'n' || c == 'N'))
    } else if n == 8 {
        let a = t.get_char(0);
        let b = t.get_char(1);
        let c = t.get_char(2);
        let d = t.get_char(3);
        let e = t.get_char(4);
        let f = t.get_char(5);
        let g = t.get_char(6);
        let h = t.get_char(7);
        (a == 'i' || a == 'I') && (b == 'n' || b == 'N') && (c == 'f' || c == 'F') && (d == 'i'
            || d == 'I') && (e == 'n' || e == 'N') && (f == 'i' || f == 'I') && (g == 't' || g
            == 'T') && (h == 'y' || h == 'Y')
    } else {
        false
    }
}

fn is_f64_number_str(t: &str) -> (r: bool)
    ensures
        r == is_f64_number(t@),
{
    let n = t.unicode_len();
    let a = scan_class(t, 0, &CharClass::Digit);
    proof {
        lemma_scan_cl(t@, 0, CharClass::Digit);
    }
    let has_dot = a < n && t.get_char(a) == '.';
    let m_end = if has_dot {
        scan_class(t, a + 1, &CharClass::Digit)
    } else {
        a
    };
    let m_ok = if has_dot {
        a >= 1 || m_end > a + 1
    } else {
        a >= 1
    };
    if !m_ok {
        return false;
    }
    if m_end == n {
        return true;
    }
    let ec = t.get_char(m_end);
    if !(ec == 'e' || ec == 'E') {
        return false;
    }
    let mut j = m_end + 1;
    if j < n {
        let sc = t.get_char(j);
        if sc == '+' || sc == '-' {
            j = j + 1;
        }
    }
    let k = scan_class(t, j, &CharClass::Digit);
    k > j && k == n
}

} // verus!
