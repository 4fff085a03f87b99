//! A read-only virtual-table adapter that exposes one rectangular range of a
//! remote spreadsheet as a relational table: spreadsheet-address arithmetic,
//! cell-value type inference, a row cursor, and the table lifecycle.

pub mod cell_value;
pub mod client;
pub mod data;
pub mod error;
pub mod module;
pub mod module_argument;
pub mod range;
pub mod reader;
pub mod sheet;
pub mod text;
