//! The table over one fetched range: its identity, its rows, and the
//! column-letter arithmetic that names its columns.

use vstd::prelude::*;
use vstd::arithmetic::div_mod::lemma_fundamental_div_mod_converse;
use crate::client::GoogleSheetsReadOnlyClient;
use crate::data::{RowData, Spreadsheet, RowModel, rows_model, clone_rows};
use crate::error::SheetError;
use crate::range::Range;
use crate::reader::SheetReader;
use crate::text::push_char;

verus! {

/// `'A'` counts as 1, `'Z'` as 26.
pub open spec fn letter_val(c: char) -> int {
    c as int - 64
}

/// The column index a letter sequence names: base 26 with digits 1 to 26.
pub open spec fn spec_letters_to_number(s: Seq<char>) -> int
    decreases s.len(),
{
    if s.len() == 0 {
        0
    } else {
        spec_letters_to_number(s.drop_last()) * 26 + letter_val(s.last())
    }
}

pub open spec fn is_upper_letters(s: Seq<char>) -> bool {
    forall|i: int| 0 <= i < s.len() ==> 'A' <= #[trigger] s[i] && s[i] <= 'Z'
}

/// The letter sequence that names a positive column index; zero and below
/// name the empty sequence.
pub open spec fn spec_number_to_letters(n: int) -> Seq<char>
    decreases n,
{
    if n <= 0 {
        Seq::empty()
    } else {
        spec_number_to_letters((n - 1) / 26).push((65 + (n - 1) % 26) as char)
    }
}

pub proof fn lemma_letters_to_number_nonneg(s: Seq<char>)
    requires
        is_upper_letters(s),
    ensures
        spec_letters_to_number(s) >= 0,
        s.len() > 0 ==> spec_letters_to_number(s) >= 1,
    decreases s.len(),
{
    if s.len() > 0 {
        assert(is_upper_letters(s.drop_last())) by {
            assert(forall|i: int|
                0 <= i < s.len() - 1 ==> s.drop_last()[i] == #[trigger] s[i]);
        }
        lemma_letters_to_number_nonneg(s.drop_last());
    }
}

/// Every prefix of a letter sequence names a column no further right than
/// the whole sequence does.
pub proof fn lemma_letters_prefix_le(s: Seq<char>, j: int)
    requires
        is_upper_letters(s),
        0 <= j <= s.len(),
    ensures
        spec_letters_to_number(s.take(j)) <= spec_letters_to_number(s),
    decreases s.len() - j,
{
    if j < s.len() {
        assert(is_upper_letters(s.take(j))) by {
            assert(forall|i: int| 0 <= i < j ==> s.take(j)[i] == #[trigger] s[i]);
        }
        lemma_letters_to_number_nonneg(s.take(j));
        assert(s.take(j + 1).drop_last() =~= s.take(j));
        assert(s.take(j + 1).last() == s[j]);
        assert(spec_letters_to_number(s.take(j + 1)) == spec_letters_to_number(s.take(j)) * 26
            + letter_val(s[j]));
        assert(spec_letters_to_number(s.take(j)) * 26 >= spec_letters_to_number(s.take(j)));
        lemma_letters_prefix_le(s, j + 1);
    } else {
        assert(s.take(j) =~= s);
    }
}

/// Converting a positive column index to letters and back returns the
/// index: the two conversions are mutually inverse, number side.
pub proof fn lemma_column_number_round_trip(n: int)
    requires
        n >= 1,
    ensures
        spec_letters_to_number(spec_number_to_letters(n)) == n,
    decreases n,
{
    let q = (n - 1) / 26;
    let m = (n - 1) % 26;
    let c = (65 + m) as char;
    assert(n - 1 == 26 * q + m);
    if q > 0 {
        lemma_column_number_round_trip(q);
    } else {
        assert(spec_number_to_letters(0) =~= Seq::<char>::empty());
    }
    let t = spec_number_to_letters(q);
    assert(spec_number_to_letters(n) == t.push(c));
    assert(t.push(c).drop_last() =~= t);
    assert(t.push(c).last() == c);
    assert(letter_val(c) == m + 1);
    assert(spec_letters_to_number(t.push(c)) == spec_letters_to_number(t) * 26 + (m + 1));
}

/// Converting an uppercase letter sequence to its column index and back
/// returns the sequence: the two conversions are mutually inverse, letter
/// side.
pub proof fn lemma_column_letters_round_trip(s: Seq<char>)
    requires
        is_upper_letters(s),
    ensures
        spec_number_to_letters(spec_letters_to_number(s)) == s,
    decreases s.len(),
{
    if s.len() == 0 {
        assert(spec_number_to_letters(0) =~= s);
    } else {
        let t = s.drop_last();
        let c = s.last();
        assert(is_upper_letters(t)) by {
            assert(forall|i: int| 0 <= i < s.len() - 1 ==> t[i] == #[trigger] s[i]);
        }
        lemma_letters_to_number_nonneg(t);
        let v = spec_letters_to_number(s);
        assert(v == spec_letters_to_number(t) * 26 + letter_val(c));
        assert(1 <= letter_val(c) <= 26);
        lemma_fundamental_div_mod_converse(v - 1, 26, spec_letters_to_number(t), letter_val(c) - 1);
        assert((v - 1) / 26 == spec_letters_to_number(t));
        assert((v - 1) % 26 == letter_val(c) - 1);
        lemma_column_letters_round_trip(t);
        assert((65 + (v - 1) % 26) as char == c) by {
            assert(65 + letter_val(c) - 1 == c as int);
        }
        assert(spec_number_to_letters(v) == t.push(c));
        assert(t.push(c) =~= s);
    }
}

/// The column index named by a run of uppercase letters, accumulated left
/// to right in base 26.
pub fn column_name_to_number(name: &str) -> (num: usize)
    requires
        is_upper_letters(name@),
        spec_letters_to_number(name@) <= usize::MAX,
    ensures
        num == spec_letters_to_number(name@),
{
    let n = name.unicode_len();
    let mut num: usize = 0;
    let mut j: usize = 0;
    while j < n
        invariant
            j <= n,
            n == name@.len(),
            is_upper_letters(name@),
            spec_letters_to_number(name@) <= usize::MAX,
            num == spec_letters_to_number(name@.take(j as int)),
        decreases n - j,
    {
        let c = name.get_char(j);
        let v = ((c as u32) - 64) as usize;
        proof {
            assert(name@.take(j + 1).drop_last() =~= name@.take(j as int));
            assert(name@.take(j + 1).last() == name@[j as int]);
            lemma_letters_prefix_le(name@, j + 1);
            lemma_letters_to_number_nonneg(name@.take(j as int));
        }
        num = num * 26 + v;
        j = j + 1;
    }
    proof {
        assert(name@.take(n as int) =~= name@);
    }
    num
}

/// The letters of column index `num`, built least significant first and
/// then reversed; index zero names the empty string.
pub fn number_to_column_name(num: usize) -> (name: String)
    ensures
        name@ == spec_number_to_letters(num as int),
{
    let mut ls: Vec<u8> = Vec::new();
    let mut m = num;
    while m > 0
        invariant
            forall|k: int| 0 <= k < ls@.len() ==> 65 <= #[trigger] ls@[k] <= 90,
            spec_number_to_letters(num as int) == spec_number_to_letters(m as int)
                + rev_letter_chars(ls@),
        decreases m,
    {
        let ghost old_ls = ls@;
        let ghost old_m = m as int;
        let modulo = (m - 1) % 26;
        let b = (65 + modulo) as u8;
        ls.push(b);
        m = (m - modulo) / 26;
        proof {
            assert(m as int == (old_m - 1) / 26) by {
                let q = (old_m - 1) / 26;
                let r = (old_m - 1) % 26;
                assert(old_m - 1 == 26 * q + r);
                assert(old_m - r == 26 * q + 1);
                lemma_fundamental_div_mod_converse(old_m - r, 26, q, 1);
            }
            assert(rev_letter_chars(old_ls.push(b)) =~= seq![(65 + (old_m - 1) % 26) as char]
                + rev_letter_chars(old_ls));
            assert(spec_number_to_letters(old_m) == spec_number_to_letters((old_m - 1) / 26).push(
                (65 + (old_m - 1) % 26) as char));
            assert(spec_number_to_letters((old_m - 1) / 26).push((65 + (old_m - 1) % 26) as char)
                + rev_letter_chars(old_ls) =~= spec_number_to_letters((old_m - 1) / 26)
                + rev_letter_chars(ls@));
        }
    }
    let mut out = String::new();
    let mut i = ls.len();
    proof {
        assert(spec_number_to_letters(0) =~= Seq::<char>::empty());
        assert(spec_number_to_letters(num as int) =~= rev_letter_chars(ls@));
    }
    while i > 0
        invariant
            i <= ls@.len(),
            forall|k: int| 0 <= k < ls@.len() ==> 65 <= #[trigger] ls@[k] <= 90,
            out@ =~= rev_letter_chars(ls@).subrange(0, ls@.len() - i),
        decreases i,
    {
        i = i - 1;
        let c = ls[i] as char;
        push_char(&mut out, c);
        proof {
            assert(out@ =~= rev_letter_chars(ls@).subrange(0, ls@.len() - i));
        }
    }
    proof {
        assert(out@ =~= rev_letter_chars(ls@));
    }
    out
}

/// The letters of `ls`, least significant first, read back as characters
/// in most-significant-first order.
pub open spec fn rev_letter_chars(ls: Seq<u8>) -> Seq<char> {
    Seq::new(ls.len(), |i: int| (ls[ls.len() - 1 - i] as int) as char)
}

/// One table: its identity, the client that can fetch it, and the rows
/// materialized by a successful `open`.
pub struct Sheet {
    pub client: GoogleSheetsReadOnlyClient,
    pub rows: Vec<RowData>,
    pub id: String,
    pub sheet: String,
    pub range: Range,
}

/// The row sequence a structurally complete response carries: its first
/// sheet's first data block's rows. Absence of any link in that chain
/// yields nothing.
pub open spec fn spec_response_rows(resp: Spreadsheet) -> Option<Seq<RowModel>> {
    match resp.sheets {
        Some(ss) => if ss@.len() >= 1 {
            match ss@[0].data {
                Some(ds) => if ds@.len() >= 1 {
                    match ds@[0].row_data {
                        Some(rd) => Some(rows_model(rd@)),
                        None => None,
                    }
                } else {
                    None
                },
                None => None,
            }
        } else {
            None
        },
        None => None,
    }
}

/// Width of the first materialized row; the column list is derived from
/// it, not from the declared range.
pub open spec fn spec_first_row_width(rows: Seq<RowModel>) -> int {
    if rows.len() > 0 {
        match rows[0].values {
            Some(vs) => vs.len() as int,
            None => 0,
        }
    } else {
        0
    }
}

/// The column letters of a table whose range starts at `c1` and whose
/// first row holds `w` cells: the `w` letter names counted from `c1`.
pub open spec fn spec_columns(c1: Seq<char>, w: int) -> Seq<Seq<char>> {
    Seq::new(w as nat, |i: int| spec_number_to_letters(i + spec_letters_to_number(c1)))
}

impl Sheet {
    /// A table with no rows yet; rows arrive through `open`.
    pub fn new(client: GoogleSheetsReadOnlyClient, id: String, sheet: String, range: Range) -> (r:
        Sheet)
        ensures
            r.client == client,
            r.rows@.len() == 0,
            r.id == id,
            r.sheet == sheet,
            r.range == range,
    {
        Sheet { client, rows: Vec::new(), id, sheet, range }
    }

    /// Materializes the rows of an already fetched response. A response
    /// without the single expected sheet, data block and row sequence is a
    /// structural failure and leaves the table unchanged.
    pub fn open(&mut self, response: Spreadsheet) -> (r: Result<(), SheetError>)
        ensures
            match spec_response_rows(response) {
                Some(rm) => r is Ok && rows_model(final(self).rows@) == rm,
                None => r == Err::<(), SheetError>(SheetError::MalformedResponse) && *final(self)
                    == *old(self),
            },
            final(self).client == old(self).client,
            final(self).id == old(self).id,
            final(self).sheet == old(self).sheet,
            final(self).range == old(self).range,
    {
        match response.sheets {
            Some(mut ss) => {
                if ss.len() == 0 {
                    return Err(SheetError::MalformedResponse);
                }
                let sh = ss.remove(0);
                match sh.data {
                    Some(mut ds) => {
                        if ds.len() == 0 {
                            return Err(SheetError::MalformedResponse);
                        }
                        let g = ds.remove(0);
                        match g.row_data {
                            Some(rd) => {
                                self.rows = rd;
                                Ok(())
                            },
                            None => Err(SheetError::MalformedResponse),
                        }
                    },
                    None => Err(SheetError::MalformedResponse),
                }
            },
            None => Err(SheetError::MalformedResponse),
        }
    }

    /// A cursor over a snapshot of the current rows, positioned at zero.
    pub fn get_reader(&mut self) -> (r: SheetReader)
        ensures
            r.spec_rows() == rows_model(old(self).rows@),
            r.spec_pos() == 0,
            *final(self) == *old(self),
    {
        SheetReader::new(clone_rows(&self.rows))
    }

    /// The column names: one letter name per cell of the first row,
    /// counted from the range's starting column; no rows, no columns.
    pub fn get_columns(&mut self) -> (r: Vec<String>)
        requires
            is_upper_letters(old(self).range.c1@),
            spec_letters_to_number(old(self).range.c1@) + spec_first_row_width(
                rows_model(old(self).rows@),
            ) <= usize::MAX,
        ensures
            *final(self) == *old(self),
            r@.len() == spec_first_row_width(rows_model(old(self).rows@)),
            forall|i: int|
                0 <= i < r@.len() ==> #[trigger] r@[i]@ == spec_number_to_letters(
                    i + spec_letters_to_number(old(self).range.c1@),
                ),
    {
        if self.rows.len() == 0 {
            return Vec::new();
        }
        let row = &self.rows[0];
        proof {
            assert(rows_model(self.rows@)[0] == row@);
        }
        match &row.values {
            None => Vec::new(),
            Some(cd) => {
                let w = cd.len();
                proof {
                    assert(rows_model(self.rows@)[0].values matches Some(vs) && vs.len() == w);
                }
                let base = column_name_to_number(self.range.c1.as_str());
                let mut out: Vec<String> = Vec::new();
                let mut n: usize = 0;
                while n < w
                    invariant
                        n <= w,
                        base == spec_letters_to_number(self.range.c1@),
                        base + w <= usize::MAX,
                        out@.len() == n,
                        forall|i: int|
                            0 <= i < n ==> #[trigger] out@[i]@ == spec_number_to_letters(i + base),
                    decreases w - n,
                {
                    let name = number_to_column_name(n + base);
                    out.push(name);
                    n = n + 1;
                }
                out
            },
        }
    }
}

} // verus!
