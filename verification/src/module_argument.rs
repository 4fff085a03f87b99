//! Parsing of table-creation arguments: `ID '<id>'`, `SHEET '<name>'`,
//! `RANGE '<range>'`, with case-insensitive keys and single- or
//! double-quoted values. Arguments that match no option are silently
//! ignored; what is missing afterwards is reported in a fixed order.
//!
//! Keys fold only between the ASCII letter cases (`id`, `ID`, `Id`, ...);
//! exotic letters that some case-folding schemes would also accept are
//! deliberately outside this grammar. The whitespace between key and
//! value is any ASCII or Unicode space character.

use vstd::prelude::*;
use crate::error::SheetError;
use crate::range::{Range, spec_c1, spec_c2, spec_r1, spec_r2};
use crate::text::{scan_cl, scan_class, lemma_scan_cl, CharClass, ci};

verus! {

/// One recognized table-creation argument.
#[derive(Debug, PartialEq)]
pub enum ModuleArgument {
    Id(String),
    Sheet(String),
    Range(Range),
}

/// A recognized argument, at the level of the model.
pub enum ParsedOption {
    IdOpt(Seq<char>),
    SheetOpt(Seq<char>),
    RangeOpt(Seq<char>),
}

/// The quoted value that follows a key ending at `p`: one or more
/// whitespace characters, an opening quote, one or more unquoted
/// characters, and a closing quote ending the argument. The two quotes
/// need not match each other.
pub open spec fn quoted_value_after(s: Seq<char>, p: int) -> Option<Seq<char>> {
    let q = scan_cl(s, p, CharClass::Space);
    if q > p && q < s.len() && (s[q] == '\'' || s[q] == '"') {
        let e = scan_cl(s, q + 1, CharClass::NotQuote);
        if e > q + 1 && e < s.len() && e + 1 == s.len() {
            Some(s.subrange(q + 1, e))
        } else {
            None
        }
    } else {
        None
    }
}

/// The argument `s` names, if any: an `ID`, `SHEET` or `RANGE` key in any
/// letter case, then its quoted value.
pub open spec fn spec_parse_option(s: Seq<char>) -> Option<ParsedOption> {
    if s.len() >= 2 && ci(s[0], 'i') && ci(s[1], 'd') {
        match quoted_value_after(s, 2) {
            Some(v) => Some(ParsedOption::IdOpt(v)),
            None => None,
        }
    } else if s.len() >= 5 && ci(s[0], 's') && ci(s[1], 'h') && ci(s[2], 'e') && ci(s[3], 'e')
        && ci(s[4], 't') {
        match quoted_value_after(s, 5) {
            Some(v) => Some(ParsedOption::SheetOpt(v)),
            None => None,
        }
    } else if s.len() >= 5 && ci(s[0], 'r') && ci(s[1], 'a') && ci(s[2], 'n') && ci(s[3], 'g')
        && ci(s[4], 'e') {
        match quoted_value_after(s, 5) {
            Some(v) => Some(ParsedOption::RangeOpt(v)),
            None => None,
        }
    } else {
        None
    }
}

/// Reads the quoted value after a key ending at `p`.
fn read_quoted_value(input: &str, p: usize) -> (r: Option<String>)
    requires
        p <= input@.len(),
    ensures
        match quoted_value_after(input@, p as int) {
            Some(v) => r matches Some(x) && x@ == v,
            None => r is None,
        },
{
    let n = input.unicode_len();
    let q = scan_class(input, p, &CharClass::Space);
    proof {
        lemma_scan_cl(input@, p as int, CharClass::Space);
    }
    if !(q > p && q < n) {
        return None;
    }
    let qc = input.get_char(q);
    if !(qc == '\'' || qc == '"') {
        return None;
    }
    let e = scan_class(input, q + 1, &CharClass::NotQuote);
    proof {
        lemma_scan_cl(input@, q + 1 as int, CharClass::NotQuote);
    }
    if e > q + 1 && e < n && e + 1 == n {
        let v = input.substring_char(q + 1, e);
        Some(v.to_owned())
    } else {
        None
    }
}

/// Parses one creation argument; anything that matches no option is an
/// unknown option.
pub fn parse_option(input: &str) -> (r: Result<ModuleArgument, SheetError>)
    ensures
        match spec_parse_option(input@) {
            Some(ParsedOption::IdOpt(v)) => r matches Ok(ModuleArgument::Id(x)) && x@ == v,
            Some(ParsedOption::SheetOpt(v)) => r matches Ok(ModuleArgument::Sheet(x)) && x@ == v,
            Some(ParsedOption::RangeOpt(v)) => r matches Ok(ModuleArgument::Range(rg))
                && rg.c1@ == spec_c1(v) && rg.r1 == spec_r1(v) && rg.c2@ == spec_c2(v) && rg.r2
                == spec_r2(v),
            None => r == Err::<ModuleArgument, SheetError>(SheetError::UnknownOption),
        },
{
    let n = input.unicode_len();
    if n >= 2 {
        let c0 = input.get_char(0);
        let c1 = input.get_char(1);
        if (c0 == 'i' || c0 == 'I') && (c1 == 'd' || c1 == 'D') {
            return match read_quoted_value(input, 2) {
                Some(v) => Ok(ModuleArgument::Id(v)),
                None => Err(SheetError::UnknownOption),
            };
        }
        if n >= 5 {
            let c2 = input.get_char(2);
            let c3 = input.get_char(3);
            let c4 = input.get_char(4);
            if (c0 == 's' || c0 == 'S') && (c1 == 'h' || c1 == 'H') && (c2 == 'e' || c2 == 'E') && (
            c3 == 'e' || c3 == 'E') && (c4 == 't' || c4 == 'T') {
                return match read_quoted_value(input, 5) {
                    Some(v) => Ok(ModuleArgument::Sheet(v)),
                    None => Err(SheetError::UnknownOption),
                };
            }
            if (c0 == 'r' || c0 == 'R') && (c1 == 'a' || c1 == 'A') && (c2 == 'n' || c2 == 'N') && (
            c3 == 'g' || c3 == 'G') && (c4 == 'e' || c4 == 'E') {
                return match read_quoted_value(input, 5) {
                    Some(v) => Ok(ModuleArgument::Range(Range::parse(v.as_str()))),
                    None => Err(SheetError::UnknownOption),
                };
            }
        }
    }
    Err(SheetError::UnknownOption)
}

/// The creation state the argument list leaves behind: the last value each
/// option took, starting from an empty identifier, an empty sheet name and
/// the invalid range.
pub struct OptState {
    pub id: Seq<char>,
    pub sheet: Seq<char>,
    pub c1: Seq<char>,
    pub r1: int,
    pub c2: Seq<char>,
    pub r2: int,
}

pub open spec fn init_state() -> OptState {
    OptState { id: Seq::empty(), sheet: Seq::empty(), c1: seq!['A'], r1: 0, c2: seq!['A'], r2: 0 }
}

pub open spec fn step_state(st: OptState, a: Seq<char>) -> OptState {
    match spec_parse_option(a) {
        Some(ParsedOption::IdOpt(v)) => OptState { id: v, ..st },
        Some(ParsedOption::SheetOpt(v)) => OptState { sheet: v, ..st },
        Some(ParsedOption::RangeOpt(v)) => OptState {
            c1: spec_c1(v),
            r1: spec_r1(v),
            c2: spec_c2(v),
            r2: spec_r2(v),
            ..st
        },
        None => st,
    }
}

pub open spec fn collect_state(args: Seq<Seq<char>>) -> OptState
    decreases args.len(),
{
    if args.len() == 0 {
        init_state()
    } else {
        step_state(collect_state(args.drop_last()), args.last())
    }
}

pub open spec fn args_model(args: Seq<String>) -> Seq<Seq<char>> {
    Seq::new(args.len(), |i: int| args[i]@)
}

/// An argument recognized as an `ID` option.
pub open spec fn is_id_option(a: Seq<char>) -> bool {
    spec_parse_option(a) matches Some(ParsedOption::IdOpt(_))
}

/// An argument recognized as a `SHEET` option.
pub open spec fn is_sheet_option(a: Seq<char>) -> bool {
    spec_parse_option(a) matches Some(ParsedOption::SheetOpt(_))
}

/// A recognized option never carries an empty value: the quoted content
/// is one or more characters.
pub proof fn lemma_option_value_nonempty(a: Seq<char>)
    ensures
        spec_parse_option(a) matches Some(ParsedOption::IdOpt(v)) ==> v.len() >= 1,
        spec_parse_option(a) matches Some(ParsedOption::SheetOpt(v)) ==> v.len() >= 1,
        spec_parse_option(a) matches Some(ParsedOption::RangeOpt(v)) ==> v.len() >= 1,
{
}

/// The identifier the argument walk leaves behind is empty exactly when
/// no argument names an `ID` option, and the sheet name likewise for
/// `SHEET`: together with the contract of `collect_options_from_args`,
/// the missing-identifier complaint comes if and only if the list holds
/// no `ID` argument, and the missing-sheet complaint next, if and only if
/// it holds no `SHEET` argument.
pub proof fn lemma_absent_option_means_empty(args: Seq<Seq<char>>)
    ensures
        (collect_state(args).id.len() == 0) <==> (forall|i: int|
            0 <= i < args.len() ==> !is_id_option(#[trigger] args[i])),
        (collect_state(args).sheet.len() == 0) <==> (forall|i: int|
            0 <= i < args.len() ==> !is_sheet_option(#[trigger] args[i])),
    decreases args.len(),
{
    if args.len() > 0 {
        let t = args.drop_last();
        let a = args.last();
        lemma_absent_option_means_empty(t);
        lemma_option_value_nonempty(a);
        assert(forall|i: int| 0 <= i < t.len() ==> #[trigger] t[i] == args[i]);
        assert(a == args[args.len() - 1]);
        let st = collect_state(args);
        let prev = collect_state(t);
        assert(st == step_state(prev, a));
        assert((forall|i: int| 0 <= i < args.len() ==> !is_id_option(#[trigger] args[i])) <==> (
        !is_id_option(a) && (forall|i: int| 0 <= i < t.len() ==> !is_id_option(
            #[trigger] t[i],
        )))) by {
            if forall|i: int| 0 <= i < args.len() ==> !is_id_option(#[trigger] args[i]) {
                assert forall|i: int| 0 <= i < t.len() implies !is_id_option(
                    #[trigger] t[i],
                ) by {
                    assert(t[i] == args[i]);
                }
                assert(!is_id_option(args[args.len() - 1]));
            }
            if !is_id_option(a) && (forall|i: int|
                0 <= i < t.len() ==> !is_id_option(#[trigger] t[i])) {
                assert forall|i: int| 0 <= i < args.len() implies !is_id_option(
                    #[trigger] args[i],
                ) by {
                    if i < args.len() - 1 {
                        assert(args[i] == t[i]);
                    } else {
                        assert(args[i] == a);
                    }
                }
            }
        }
        assert((forall|i: int| 0 <= i < args.len() ==> !is_sheet_option(#[trigger] args[i]))
            <==> (!is_sheet_option(a) && (forall|i: int|
            0 <= i < t.len() ==> !is_sheet_option(#[trigger] t[i])))) by {
            if forall|i: int| 0 <= i < args.len() ==> !is_sheet_option(#[trigger] args[i]) {
                assert forall|i: int| 0 <= i < t.len() implies !is_sheet_option(
                    #[trigger] t[i],
                ) by {
                    assert(t[i] == args[i]);
                }
                assert(!is_sheet_option(args[args.len() - 1]));
            }
            if !is_sheet_option(a) && (forall|i: int|
                0 <= i < t.len() ==> !is_sheet_option(#[trigger] t[i])) {
                assert forall|i: int| 0 <= i < args.len() implies !is_sheet_option(
                    #[trigger] args[i],
                ) by {
                    if i < args.len() - 1 {
                        assert(args[i] == t[i]);
                    } else {
                        assert(args[i] == a);
                    }
                }
            }
        }
        match spec_parse_option(a) {
            Some(ParsedOption::IdOpt(v)) => {
                assert(st.id == v && v.len() >= 1);
                assert(is_id_option(a));
                assert(st.sheet == prev.sheet && !is_sheet_option(a));
            },
            Some(ParsedOption::SheetOpt(v)) => {
                assert(st.sheet == v && v.len() >= 1);
                assert(is_sheet_option(a));
                assert(st.id == prev.id && !is_id_option(a));
            },
            Some(ParsedOption::RangeOpt(v)) => {
                assert(st.id == prev.id && st.sheet == prev.sheet);
                assert(!is_id_option(a) && !is_sheet_option(a));
            },
            None => {
                assert(st.id == prev.id && st.sheet == prev.sheet);
                assert(!is_id_option(a) && !is_sheet_option(a));
            },
        }
    }
}

/// Walks the creation arguments, keeps the last value of each recognized
/// option, ignores the rest, and demands an identifier, a sheet name and
/// a row-valid range, in that order of complaint.
pub fn collect_options_from_args(args: &Vec<String>) -> (r: Result<
    (String, String, Range),
    SheetError,
>)
    ensures
        ({
            let st = collect_state(args_model(args@));
            if st.id.len() == 0 {
                r == Err::<(String, String, Range), SheetError>(SheetError::NoId)
            } else if st.sheet.len() == 0 {
                r == Err::<(String, String, Range), SheetError>(SheetError::NoSheet)
            } else if st.r1 == 0 || st.r2 == 0 {
                r == Err::<(String, String, Range), SheetError>(SheetError::InvalidRange)
            } else {
                r matches Ok(t) && t.0@ == st.id && t.1@ == st.sheet && t.2.c1@ == st.c1 && t.2.r1
                    == st.r1 && t.2.c2@ == st.c2 && t.2.r2 == st.r2
            }
        }),
{
    let mut id = String::new();
    let mut sheet = String::new();
    let mut range = Range::invalid();
    let mut i: usize = 0;
    while i < args.len()
        invariant
            i <= args@.len(),
            ({
                let st = collect_state(args_model(args@).take(i as int));
                id@ == st.id && sheet@ == st.sheet && range.c1@ == st.c1 && range.r1 == st.r1
                    && range.c2@ == st.c2 && range.r2 == st.r2
            }),
        decreases args@.len() - i,
    {
        proof {
            assert(args_model(args@).take(i + 1).drop_last() =~= args_model(args@).take(i as int));
            assert(args_model(args@).take(i + 1).last() == args@[i as int]@);
        }
        match parse_option(args[i].as_str()) {
            Ok(ModuleArgument::Id(v)) => {
                id = v;
            },
            Ok(ModuleArgument::Sheet(v)) => {
                sheet = v;
            },
            Ok(ModuleArgument::Range(rg)) => {
                range = rg;
            },
            Err(_) => {},
        }
        i = i + 1;
    }
    proof {
        assert(args_model(args@).take(args@.len() as int) =~= args_model(args@));
    }
    if id.unicode_len() == 0 {
        return Err(SheetError::NoId);
    }
    if sheet.unicode_len() == 0 {
        return Err(SheetError::NoSheet);
    }
    if range.r1 == 0 || range.r2 == 0 {
        return Err(SheetError::InvalidRange);
    }
    Ok((id, sheet, range))
}

} // verus!
