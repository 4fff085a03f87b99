use gsqlite::data::{CellData, RowData};
use gsqlite::reader::SheetReader;

fn text_cell(s: &str) -> CellData {
    CellData { formatted_value: Some(s.to_string()), effective_value: None }
}

fn two_rows() -> Vec<RowData> {
    vec![
        RowData { values: Some(vec![text_cell("a1"), text_cell("b1")]) },
        RowData { values: Some(vec![text_cell("a2")]) },
    ]
}

#[test]
fn test_cursor_over_two_rows() {
    let mut r = SheetReader::new(two_rows());
    assert!(r.has_value());
    assert_eq!(0, r.get_rowid());
    r.move_next();
    assert!(r.has_value());
    assert_eq!(1, r.get_rowid());
    r.move_next();
    assert!(!r.has_value());
    assert_eq!(2, r.get_rowid());
}

#[test]
fn test_cursor_move_past_end_stays_without_value() {
    let mut r = SheetReader::new(two_rows());
    r.move_next();
    r.move_next();
    r.move_next();
    assert!(!r.has_value());
    assert_eq!(3, r.get_rowid());
}

#[test]
fn test_get_value_by_column() {
    let r = SheetReader::new(two_rows());
    assert_eq!(
        Some("b1".to_string()),
        r.get_value(1).and_then(|c| c.formatted_value.clone())
    );
    assert!(r.get_value(2).is_none());
}

#[test]
fn test_get_value_out_of_range_rows() {
    let mut r = SheetReader::new(two_rows());
    r.move_next();
    assert!(r.get_value(1).is_none(), "second row has one cell");
    r.move_next();
    assert!(r.get_value(0).is_none(), "past the end");
    let empty = SheetReader::new(Vec::new());
    assert!(empty.get_value(0).is_none());
}

#[test]
fn test_get_value_on_row_without_values() {
    let r = SheetReader::new(vec![RowData { values: None }]);
    assert!(r.has_value());
    assert!(r.get_value(0).is_none());
}
