use gsqlite::client::GoogleSheetsReadOnlyClient;
use gsqlite::data::{CellData, GridData, GridSheet, RowData, Spreadsheet};
use gsqlite::error::SheetError;
use gsqlite::module::{create_declare_table_statement, Module};
use gsqlite::error::Error;
use gsqlite::module_argument::{collect_options_from_args, parse_option, ModuleArgument};
use gsqlite::range::Range;

fn client() -> GoogleSheetsReadOnlyClient {
    GoogleSheetsReadOnlyClient::builder()
        .client_id("cid".to_string())
        .client_secret("csecret".to_string())
        .cache_access_token(true)
        .build()
}

fn args(list: &[&str]) -> Vec<String> {
    list.iter().map(|s| s.to_string()).collect()
}

fn text_cell(s: &str) -> CellData {
    CellData { formatted_value: Some(s.to_string()), effective_value: None }
}

fn response(rows: Vec<RowData>) -> Spreadsheet {
    Spreadsheet {
        sheets: Some(vec![GridSheet { data: Some(vec![GridData { row_data: Some(rows) }]) }]),
    }
}

#[test]
fn test_collect_options_from_args() {
    let out = collect_options_from_args(&args(&[
        "id 'some_random_id'",
        "SHEET \"JP\"",
        "RANGE 'A2:F5'",
    ]))
    .unwrap();
    assert_eq!(
        ("some_random_id".to_string(), "JP".to_string(), Range::parse("A2:F5")),
        out
    );
}

#[test]
fn test_collect_options_reports_missing_pieces_in_order() {
    assert_eq!(
        Err(SheetError::NoId),
        collect_options_from_args(&args(&["SHEET 'x'", "RANGE 'A1:B2'"]))
    );
    assert_eq!(
        Err(SheetError::NoSheet),
        collect_options_from_args(&args(&["ID 'x'", "RANGE 'A1:B2'"]))
    );
    assert_eq!(
        Err(SheetError::InvalidRange),
        collect_options_from_args(&args(&["ID 'x'", "SHEET 'y'"]))
    );
}

#[test]
fn test_collect_options_ignores_unknown_options() {
    let out = collect_options_from_args(&args(&[
        "ID 'a'",
        "bogus input",
        "COLOR 'blue'",
        "sheet 'b'",
        "range 'c3:d4'",
    ]))
    .unwrap();
    assert_eq!(("a".to_string(), "b".to_string(), Range::parse("C3:D4")), out);
}

#[test]
fn test_create_declare_table_statement() {
    assert_eq!(
        "CREATE TABLE sheet(A, B, C)",
        create_declare_table_statement(
            &vec!["A", "B", "C"].into_iter().map(|s| s.to_string()).collect()
        )
    );
    assert_eq!("CREATE TABLE sheet()", create_declare_table_statement(&Vec::new()));
}

#[test]
fn test_create_with_zero_row_range_fails_before_any_fetch() {
    let m = Module::new();
    let r = m.create(client(), &args(&["ID 'x'", "SHEET 'y'", "RANGE 'A0:B0'"]));
    assert_eq!(SheetError::InvalidRange, r.err().unwrap());
}

#[test]
fn test_create_and_scan_end_to_end() {
    let m = Module::new();
    let mut sheet = m
        .create(client(), &args(&["ID 'sheet123'", "SHEET 'Jan'", "RANGE 'A2:D5'"]))
        .unwrap();
    let rows: Vec<RowData> = (0..2)
        .map(|r| {
            RowData {
                values: Some((0..4).map(|c| text_cell(&format!("r{}c{}", r, c))).collect()),
            }
        })
        .collect();
    sheet.open(response(rows)).unwrap();
    assert_eq!(vec!["A", "B", "C", "D"], sheet.get_columns());
    let mut reader = sheet.get_reader();
    let mut rowids = Vec::new();
    while reader.has_value() {
        rowids.push(reader.get_rowid());
        reader.move_next();
    }
    assert_eq!(vec![0, 1], rowids);
    assert!(!reader.has_value());
}

#[test]
fn test_columns_derive_from_range_start_and_first_row_width() {
    let m = Module::new();
    let mut sheet = m
        .create(client(), &args(&["ID 'i'", "SHEET 's'", "RANGE 'C1:Z9'"]))
        .unwrap();
    let row = RowData { values: Some(vec![text_cell("x"), text_cell("y"), text_cell("z")]) };
    sheet.open(response(vec![row])).unwrap();
    assert_eq!(vec!["C", "D", "E"], sheet.get_columns());
}

#[test]
fn test_columns_of_empty_table() {
    let m = Module::new();
    let mut sheet = m
        .create(client(), &args(&["ID 'i'", "SHEET 's'", "RANGE 'A1:B2'"]))
        .unwrap();
    assert!(sheet.get_columns().is_empty());
    sheet.open(response(Vec::new())).unwrap();
    assert!(sheet.get_columns().is_empty());
}

#[test]
fn test_open_rejects_structurally_deficient_responses() {
    let m = Module::new();
    let mut sheet = m
        .create(client(), &args(&["ID 'i'", "SHEET 's'", "RANGE 'A1:B2'"]))
        .unwrap();
    for resp in [
        Spreadsheet { sheets: None },
        Spreadsheet { sheets: Some(Vec::new()) },
        Spreadsheet { sheets: Some(vec![GridSheet { data: None }]) },
        Spreadsheet { sheets: Some(vec![GridSheet { data: Some(Vec::new()) }]) },
        Spreadsheet { sheets: Some(vec![GridSheet { data: Some(vec![GridData { row_data: None }]) }]) },
    ] {
        assert_eq!(Err(SheetError::MalformedResponse), sheet.open(resp));
    }
}

#[test]
fn test_parse_option_recognizes_keys_in_any_case() {
    assert!(matches!(parse_option("Id 'x'"), Ok(ModuleArgument::Id(v)) if v == "x"));
    assert!(matches!(parse_option("sHeEt \t'north'"), Ok(ModuleArgument::Sheet(v)) if v == "north"));
    assert!(matches!(parse_option("RANGE 'a1:b2'"), Ok(ModuleArgument::Range(_))));
}

#[test]
fn test_parse_option_accepts_any_space_between_key_and_value() {
    assert!(matches!(parse_option("ID \u{a0}'x'"), Ok(ModuleArgument::Id(v)) if v == "x"));
    assert!(matches!(parse_option("ID\u{2003}'x'"), Ok(ModuleArgument::Id(v)) if v == "x"));
}

#[test]
fn test_parse_option_accepts_mismatched_quotes() {
    assert!(matches!(parse_option("ID 'x\""), Ok(ModuleArgument::Id(v)) if v == "x"));
}

#[test]
fn test_parse_option_rejects_unknown_or_malformed() {
    for s in [
        "COLOR 'blue'",
        "ID",
        "ID x",
        "ID ''",
        "ID 'x' trailing",
        "IDENTITY 'x'",
        "",
    ] {
        assert_eq!(Err(SheetError::UnknownOption), parse_option(s), "input {:?}", s);
    }
}

#[test]
fn test_module_name() {
    assert_eq!("gsqlite", Module::new().name);
}

#[test]
fn test_error_messages() {
    assert_eq!("No ID is provided", SheetError::NoId.message());
    assert_eq!("No sheet name is provided", SheetError::NoSheet.message());
    assert_eq!("Invalid range is provided", SheetError::InvalidRange.message());
    assert_eq!("Unknown option is provided", SheetError::UnknownOption.message());
    assert_eq!(
        "The response is missing the expected sheet data",
        SheetError::MalformedResponse.message()
    );
    assert_eq!("Invalid sheet ID", SheetError::Api(Error::InvalidSheetId).message());
    assert_eq!(
        "Unexpected response: boom",
        SheetError::Api(Error::UnexpectedResponse("boom".to_string())).message()
    );
}
