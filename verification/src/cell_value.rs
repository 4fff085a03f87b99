//! Cell-value type inference: mapping a raw (formatted string, effective
//! value) pair to text, integer, floating-point or null.
//!
//! The rules, in order: a missing cell, or one with neither a formatted
//! nor an effective payload, is null; a string payload always wins, with
//! or without display text; a numeric payload is read through its display
//! text — text that is neither integer-shaped nor float-shaped and holds
//! no `%` is kept as it stands (it is almost certainly a date or time
//! rendering), text that reads as a 64-bit integer wins over the raw
//! number, and otherwise the raw number is kept; display text without any
//! effective payload is kept as text. A numeric payload without display
//! text is left null. This is a deliberate, order-sensitive heuristic.

use vstd::prelude::*;
use crate::data::{CellData, CellModel};
use crate::text::{spec_parse_i64, parse_i64, is_f64_literal, is_f64_literal_str, contains_char};

verus! {

/// The inferred value of one cell. The floating-point case carries the bit
/// pattern of the 64-bit number, untouched.
#[derive(Debug, PartialEq)]
pub enum CellValue {
    Str(String),
    Float(u64),
    Int(i64),
    Empty,
}

pub enum CellValueModel {
    Str(Seq<char>),
    Float(u64),
    Int(int),
    Empty,
}

impl View for CellValue {
    type V = CellValueModel;

    open spec fn view(&self) -> CellValueModel {
        match self {
            CellValue::Str(s) => CellValueModel::Str(s@),
            CellValue::Float(b) => CellValueModel::Float(*b),
            CellValue::Int(i) => CellValueModel::Int(*i as int),
            CellValue::Empty => CellValueModel::Empty,
        }
    }
}

pub open spec fn opt_cell_model(v: Option<&CellData>) -> Option<CellModel> {
    match v {
        Some(c) => Some(c@),
        None => None,
    }
}

/// What a numeric payload becomes, read through its display text.
pub open spec fn spec_infer_from_number(f: Seq<char>, num: u64) -> CellValueModel {
    if spec_parse_i64(f) is None && !is_f64_literal(f) && !f.contains('%') {
        CellValueModel::Str(f)
    } else {
        match spec_parse_i64(f) {
            Some(iv) => CellValueModel::Int(iv),
            None => CellValueModel::Float(num),
        }
    }
}

/// The inference rules over the cell model.
pub open spec fn spec_parse_value(v: Option<CellModel>) -> CellValueModel {
    match v {
        None => CellValueModel::Empty,
        Some(cd) => match cd.effective_value {
            Some(ev) => match ev.string_value {
                Some(s) => CellValueModel::Str(s),
                None => match ev.number_value {
                    Some(num) => match cd.formatted_value {
                        Some(f) => spec_infer_from_number(f, num),
                        None => CellValueModel::Empty,
                    },
                    None => match cd.formatted_value {
                        Some(f) => CellValueModel::Str(f),
                        None => CellValueModel::Empty,
                    },
                },
            },
            None => match cd.formatted_value {
                Some(f) => CellValueModel::Str(f),
                None => CellValueModel::Empty,
            },
        },
    }
}

/// Infers the typed value of a cell from its raw display and effective
/// payloads.
pub fn parse_value(value: Option<&CellData>) -> (r: CellValue)
    ensures
        r@ == spec_parse_value(opt_cell_model(value)),
{
    match value {
        None => CellValue::Empty,
        Some(cd) => match &cd.effective_value {
            Some(ev) => match &ev.string_value {
                Some(s) => CellValue::Str(s.clone()),
                None => match &ev.number_value {
                    Some(num) => match &cd.formatted_value {
                        Some(f) => infer_from_number(f, *num),
                        None => CellValue::Empty,
                    },
                    None => match &cd.formatted_value {
                        Some(f) => CellValue::Str(f.clone()),
                        None => CellValue::Empty,
                    },
                },
            },
            None => match &cd.formatted_value {
                Some(f) => CellValue::Str(f.clone()),
                None => CellValue::Empty,
            },
        },
    }
}

fn infer_from_number(f: &String, num: u64) -> (r: CellValue)
    ensures
        r@ == spec_infer_from_number(f@, num),
{
    let as_int = parse_i64(f.as_str());
    let as_float = is_f64_literal_str(f.as_str());
    let percent = contains_char(f.as_str(), '%');
    if as_int.is_none() && !as_float && !percent {
        CellValue::Str(f.clone())
    } else {
        match as_int {
            Some(iv) => CellValue::Int(iv),
            None => CellValue::Float(num),
        }
    }
}

} // verus!
