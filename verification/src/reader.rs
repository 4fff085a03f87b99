//! A forward-only cursor over a materialized row sequence.
//!
//! The cursor owns a snapshot of the rows and a position starting at zero.
//! Advancing past the end is legal and keeps the cursor without a value;
//! the position doubles as the row identifier reported to the host.

use vstd::prelude::*;
use crate::data::{CellData, CellModel, RowData, RowModel, rows_model};

verus! {

pub struct SheetReader {
    rows: Vec<RowData>,
    current_row_id: usize,
}

/// The cell the cursor would report at position `pos`, column `i`: absent
/// if either axis is out of range.
pub open spec fn spec_cell_at(rows: Seq<RowModel>, pos: int, i: int) -> Option<CellModel> {
    if 0 <= pos < rows.len() {
        match rows[pos].values {
            Some(vs) => if 0 <= i < vs.len() {
                Some(vs[i])
            } else {
                None
            },
            None => None,
        }
    } else {
        None
    }
}

impl SheetReader {
    pub closed spec fn spec_rows(&self) -> Seq<RowModel> {
        rows_model(self.rows@)
    }

    pub closed spec fn spec_pos(&self) -> int {
        self.current_row_id as int
    }

    pub fn new(rows: Vec<RowData>) -> (r: SheetReader)
        ensures
            r.spec_rows() == rows_model(rows@),
            r.spec_pos() == 0,
    {
        SheetReader { rows, current_row_id: 0 }
    }

    /// The 0-based scan position, reported as the row identifier.
    pub fn get_rowid(&self) -> (r: u32)
        ensures
            r == self.spec_pos() as u32,
    {
        self.current_row_id as u32
    }

    /// Advances one row; past the end this only moves the position further.
    pub fn move_next(&mut self)
        requires
            old(self).spec_pos() < usize::MAX,
        ensures
            final(self).spec_pos() == old(self).spec_pos() + 1,
            final(self).spec_rows() == old(self).spec_rows(),
    {
        self.current_row_id = self.current_row_id + 1;
    }

    /// Whether the cursor still stands on a row.
    pub fn has_value(&self) -> (r: bool)
        ensures
            r == (self.spec_pos() < self.spec_rows().len()),
    {
        self.current_row_id < self.rows.len()
    }

    /// The cell at the current row and column `i`, absent when either the
    /// position or the column is out of range.
    pub fn get_value(&self, i: usize) -> (r: Option<&CellData>)
        ensures
            match r {
                Some(c) => spec_cell_at(self.spec_rows(), self.spec_pos(), i as int) == Some(c@),
                None => spec_cell_at(self.spec_rows(), self.spec_pos(), i as int) is None,
            },
    {
        if self.current_row_id < self.rows.len() {
            let row = &self.rows[self.current_row_id];
            proof {
                assert(self.spec_rows()[self.spec_pos()] == row@);
            }
            match &row.values {
                Some(cd) => {
                    if i < cd.len() {
                        proof {
                            assert(row@.values matches Some(vs) && vs[i as int] == cd@[i as int]@);
                        }
                        Some(&cd[i])
                    } else {
                        None
                    }
                },
                None => None,
            }
        } else {
            None
        }
    }
}

} // verus!
