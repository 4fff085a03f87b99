//! A rectangular cell-address span such as `A2:F5`.
//!
//! Parsing never fails: any string that does not match the shape
//! `letters digits ':' letters digits` yields the canonical invalid
//! sentinel `A0:A0`, and validity (both rows non-zero) is checked later
//! by the caller.

use vstd::prelude::*;
use crate::text::{
    scan_cl, scan_class, lemma_scan_cl, CharClass, dec_val, dec_value_capped, spec_dec_digits,
    u64_to_dec_string, push_char, is_ascii_digit_char,
};

verus! {

#[derive(Debug, PartialEq)]
pub struct Range {
    pub c1: String,
    pub r1: usize,
    pub c2: String,
    pub r2: usize,
}

/// End of the first letter run.
pub open spec fn l1_end(s: Seq<char>) -> int {
    scan_cl(s, 0, CharClass::AsciiAlpha)
}

/// End of the first digit run.
pub open spec fn d1_end(s: Seq<char>) -> int {
    scan_cl(s, l1_end(s), CharClass::Digit)
}

/// End of the second letter run, after the colon.
pub open spec fn l2_end(s: Seq<char>) -> int {
    scan_cl(s, d1_end(s) + 1, CharClass::AsciiAlpha)
}

/// End of the second digit run.
pub open spec fn d2_end(s: Seq<char>) -> int {
    scan_cl(s, l2_end(s), CharClass::Digit)
}

/// Whether `s` matches `letters digits ':' letters digits` exactly.
pub open spec fn range_shape(s: Seq<char>) -> bool {
    &&& l1_end(s) >= 1
    &&& d1_end(s) > l1_end(s)
    &&& d1_end(s) < s.len() && s[d1_end(s)] == ':'
    &&& l2_end(s) > d1_end(s) + 1
    &&& d2_end(s) > l2_end(s)
    &&& d2_end(s) == s.len()
}

pub open spec fn upper_char(c: char) -> char {
    if 'a' <= c && c <= 'z' {
        (c as int - 32) as char
    } else {
        c
    }
}

pub open spec fn upper_seq(s: Seq<char>) -> Seq<char> {
    Seq::new(s.len(), |i: int| upper_char(s[i]))
}

/// A digit run read as a row number; a value too large for `usize` falls
/// back to zero, which no valid range holds.
pub open spec fn row_or_zero(ds: Seq<char>) -> int {
    if dec_val(ds) <= usize::MAX {
        dec_val(ds)
    } else {
        0
    }
}

pub open spec fn spec_c1(s: Seq<char>) -> Seq<char> {
    if range_shape(s) {
        upper_seq(s.subrange(0, l1_end(s)))
    } else {
        seq!['A']
    }
}

pub open spec fn spec_r1(s: Seq<char>) -> int {
    if range_shape(s) {
        row_or_zero(s.subrange(l1_end(s), d1_end(s)))
    } else {
        0
    }
}

pub open spec fn spec_c2(s: Seq<char>) -> Seq<char> {
    if range_shape(s) {
        upper_seq(s.subrange(d1_end(s) + 1, l2_end(s)))
    } else {
        seq!['A']
    }
}

pub open spec fn spec_r2(s: Seq<char>) -> int {
    if range_shape(s) {
        row_or_zero(s.subrange(l2_end(s), d2_end(s)))
    } else {
        0
    }
}

impl Range {
    /// The invalid sentinel `A0:A0`.
    pub fn invalid() -> (r: Range)
        ensures
            r.c1@ == seq!['A'],
            r.r1 == 0,
            r.c2@ == seq!['A'],
            r.r2 == 0,
    {
        let mut a1 = String::new();
        push_char(&mut a1, 'A');
        let mut a2 = String::new();
        push_char(&mut a2, 'A');
        proof {
            assert(a1@ =~= seq!['A']);
            assert(a2@ =~= seq!['A']);
        }
        Range { c1: a1, r1: 0, c2: a2, r2: 0 }
    }

    /// Parses a range expression; letters are uppercased and any mismatch
    /// yields the invalid sentinel instead of an error.
    pub fn parse(s: &str) -> (r: Range)
        ensures
            r.c1@ == spec_c1(s@),
            r.r1 == spec_r1(s@),
            r.c2@ == spec_c2(s@),
            r.r2 == spec_r2(s@),
    {
        let n = s.unicode_len();
        let a = scan_class(s, 0, &CharClass::AsciiAlpha);
        proof {
            lemma_scan_cl(s@, 0, CharClass::AsciiAlpha);
        }
        if a < 1 {
            return Self::invalid();
        }
        let b = scan_class(s, a, &CharClass::Digit);
        proof {
            lemma_scan_cl(s@, a as int, CharClass::Digit);
        }
        if b <= a || b >= n {
            return Self::invalid();
        }
        if s.get_char(b) != ':' {
            return Self::invalid();
        }
        let c = scan_class(s, b + 1, &CharClass::AsciiAlpha);
        proof {
            lemma_scan_cl(s@, b + 1 as int, CharClass::AsciiAlpha);
        }
        if c <= b + 1 {
            return Self::invalid();
        }
        let d = scan_class(s, c, &CharClass::Digit);
        proof {
            lemma_scan_cl(s@, c as int, CharClass::Digit);
        }
        if d <= c || d < n {
            return Self::invalid();
        }
        let c1 = upper_substring(s, 0, a);
        let r1 = row_value(s, a, b);
        let c2 = upper_substring(s, b + 1, c);
        let r2 = row_value(s, c, d);
        Range { c1, r1, c2, r2 }
    }

    /// Writes the range back as letters, row, colon, letters, row.
    pub fn to_string(&self) -> (r: String)
        ensures
            r@ == self.c1@ + spec_dec_digits(self.r1 as int) + seq![':'] + self.c2@
                + spec_dec_digits(self.r2 as int),
    {
        let mut out = self.c1.clone();
        let r1s = u64_to_dec_string(self.r1 as u64);
        out.append(r1s.as_str());
        push_char(&mut out, ':');
        let mut tail = self.c2.clone();
        let r2s = u64_to_dec_string(self.r2 as u64);
        tail.append(r2s.as_str());
        out.append(tail.as_str());
        proof {
            assert(out@ =~= self.c1@ + spec_dec_digits(self.r1 as int) + seq![':'] + self.c2@
                + spec_dec_digits(self.r2 as int));
        }
        out
    }
}

/// Copies the span `[from, to)` of `s`, uppercasing ASCII letters.
fn upper_substring(s: &str, from: usize, to: usize) -> (r: String)
    requires
        from <= to <= s@.len(),
    ensures
        r@ == upper_seq(s@.subrange(from as int, to as int)),
{
    let mut out = String::new();
    let mut j = from;
    while j < to
        invariant
            from <= j <= to <= s@.len(),
            out@ =~= upper_seq(s@.subrange(from as int, j as int)),
        decreases to - j,
    {
        let c = s.get_char(j);
        let u: char = if c >= 'a' && c <= 'z' {
            (((c as u32) - 32) as u8) as char
        } else {
            c
        };
        proof {
            assert(u == upper_char(s@[j as int]));
        }
        push_char(&mut out, u);
        j = j + 1;
        proof {
            assert(out@ =~= upper_seq(s@.subrange(from as int, j as int)));
        }
    }
    out
}

/// Reads the digit span `[from, to)` as a row number, zero on overflow.
fn row_value(s: &str, from: usize, to: usize) -> (r: usize)
    requires
        from <= to <= s@.len(),
        forall|j: int| from <= j < to ==> is_ascii_digit_char(#[trigger] s@[j]),
    ensures
        r == row_or_zero(s@.subrange(from as int, to as int)),
{
    match dec_value_capped(s, from, to, usize::MAX as u64) {
        Some(v) => v as usize,
        None => 0,
    }
}

} // verus!
