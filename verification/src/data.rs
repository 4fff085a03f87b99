//! The shape of a fetched spreadsheet range: rows of cells, each cell an
//! optional formatted display string and an optional effective value.
//!
//! An effective value carries either a string payload or a numeric payload.
//! The numeric payload is kept as the raw bit pattern of the 64-bit
//! floating-point number the remote source reported; this logic never does
//! arithmetic on it, it only passes it through.

use vstd::prelude::*;

verus! {

/// The typed effective value of a cell.
pub struct ExtendedValue {
    pub string_value: Option<String>,
    /// Bit pattern of the 64-bit floating-point payload.
    pub number_value: Option<u64>,
}

/// One cell as the remote source reports it.
pub struct CellData {
    pub formatted_value: Option<String>,
    pub effective_value: Option<ExtendedValue>,
}

/// One row: an ordered run of cells, possibly absent altogether.
pub struct RowData {
    pub values: Option<Vec<CellData>>,
}

/// One data block of a sheet.
pub struct GridData {
    pub row_data: Option<Vec<RowData>>,
}

/// One sheet of the response: its data blocks.
pub struct GridSheet {
    pub data: Option<Vec<GridData>>,
}

/// A structurally decoded fetch response.
pub struct Spreadsheet {
    pub sheets: Option<Vec<GridSheet>>,
}

pub struct ExtendedValueModel {
    pub string_value: Option<Seq<char>>,
    pub number_value: Option<u64>,
}

pub struct CellModel {
    pub formatted_value: Option<Seq<char>>,
    pub effective_value: Option<ExtendedValueModel>,
}

pub struct RowModel {
    pub values: Option<Seq<CellModel>>,
}

impl View for ExtendedValue {
    type V = ExtendedValueModel;

    open spec fn view(&self) -> ExtendedValueModel {
        ExtendedValueModel {
            string_value: match self.string_value {
                Some(s) => Some(s@),
                None => None,
            },
            number_value: self.number_value,
        }
    }
}

impl View for CellData {
    type V = CellModel;

    open spec fn view(&self) -> CellModel {
        CellModel {
            formatted_value: match self.formatted_value {
                Some(s) => Some(s@),
                None => None,
            },
            effective_value: match self.effective_value {
                Some(e) => Some(e@),
                None => None,
            },
        }
    }
}

impl View for RowData {
    type V = RowModel;

    open spec fn view(&self) -> RowModel {
        RowModel {
            values: match self.values {
                Some(v) => Some(cells_model(v@)),
                None => None,
            },
        }
    }
}

pub open spec fn cells_model(cs: Seq<CellData>) -> Seq<CellModel> {
    Seq::new(cs.len(), |i: int| cs[i]@)
}

pub open spec fn rows_model(rs: Seq<RowData>) -> Seq<RowModel> {
    Seq::new(rs.len(), |i: int| rs[i]@)
}

impl Clone for ExtendedValue {
    fn clone(&self) -> (r: Self)
        ensures
            r@ == self@,
    {
        ExtendedValue {
            string_value: match &self.string_value {
                Some(s) => Some(s.clone()),
                None => None,
            },
            number_value: match &self.number_value {
                Some(n) => Some(*n),
                None => None,
            },
        }
    }
}

impl Clone for CellData {
    fn clone(&self) -> (r: Self)
        ensures
            r@ == self@,
    {
        CellData {
            formatted_value: match &self.formatted_value {
                Some(s) => Some(s.clone()),
                None => None,
            },
            effective_value: match &self.effective_value {
                Some(e) => Some(e.clone()),
                None => None,
            },
        }
    }
}

impl Clone for RowData {
    fn clone(&self) -> (r: Self)
        ensures
            r@ == self@,
    {
        RowData {
            values: match &self.values {
                Some(v) => Some(clone_cells(v)),
                None => None,
            },
        }
    }
}

fn clone_cells(cs: &Vec<CellData>) -> (r: Vec<CellData>)
    ensures
        cells_model(r@) =~= cells_model(cs@),
        r@.len() == cs@.len(),
{
    let mut out: Vec<CellData> = Vec::new();
    let mut i: usize = 0;
    while i < cs.len()
        invariant
            i <= cs@.len(),
            out@.len() == i,
            forall|k: int| 0 <= k < i ==> #[trigger] out@[k]@ == cs@[k]@,
        decreases cs@.len() - i,
    {
        out.push(cs[i].clone());
        i = i + 1;
    }
    proof {
        assert(cells_model(out@) =~= cells_model(cs@));
    }
    out
}

/// Copies a row sequence; the copy has the same model row by row.
pub fn clone_rows(rs: &Vec<RowData>) -> (r: Vec<RowData>)
    ensures
        rows_model(r@) =~= rows_model(rs@),
        r@.len() == rs@.len(),
{
    let mut out: Vec<RowData> = Vec::new();
    let mut i: usize = 0;
    while i < rs.len()
        invariant
            i <= rs@.len(),
            out@.len() == i,
            forall|k: int| 0 <= k < i ==> #[trigger] out@[k]@ == rs@[k]@,
        decreases rs@.len() - i,
    {
        out.push(rs[i].clone());
        i = i + 1;
    }
    proof {
        assert(rows_model(out@) =~= rows_model(rs@));
    }
    out
}

} // verus!
