use gsqlite::cell_value::{parse_value, CellValue};
use gsqlite::data::{CellData, ExtendedValue};

fn cell(formatted: Option<&str>, eff_str: Option<&str>, eff_num: Option<f64>) -> CellData {
    let effective_value = if eff_str.is_none() && eff_num.is_none() {
        None
    } else {
        Some(ExtendedValue {
            string_value: eff_str.map(|s| s.to_string()),
            number_value: eff_num.map(f64::to_bits),
        })
    };
    CellData { formatted_value: formatted.map(|s| s.to_string()), effective_value }
}

#[test]
fn test_effective_string_always_wins() {
    let c = cell(Some("anything at all"), Some("foo"), None);
    assert_eq!(CellValue::Str("foo".to_string()), parse_value(Some(&c)));
    let c2 = cell(Some("42"), Some("foo"), Some(42.0));
    assert_eq!(CellValue::Str("foo".to_string()), parse_value(Some(&c2)));
    let no_display = cell(None, Some("foo"), None);
    assert_eq!(CellValue::Str("foo".to_string()), parse_value(Some(&no_display)));
}

#[test]
fn test_integer_shaped_display_wins_over_raw_number() {
    let c = cell(Some("42"), None, Some(42.0));
    assert_eq!(CellValue::Int(42), parse_value(Some(&c)));
}

#[test]
fn test_percent_display_keeps_raw_number() {
    let c = cell(Some("50%"), None, Some(0.5));
    assert_eq!(CellValue::Float(0.5f64.to_bits()), parse_value(Some(&c)));
}

#[test]
fn test_date_like_display_is_kept_as_text() {
    let c = cell(Some("3/14/2023"), None, Some(44999.0));
    assert_eq!(CellValue::Str("3/14/2023".to_string()), parse_value(Some(&c)));
}

#[test]
fn test_float_shaped_display_keeps_raw_number() {
    let c = cell(Some("0.5"), None, Some(0.5));
    assert_eq!(CellValue::Float(0.5f64.to_bits()), parse_value(Some(&c)));
}

#[test]
fn test_missing_cell_is_empty() {
    assert_eq!(CellValue::Empty, parse_value(None));
    let bare = CellData { formatted_value: None, effective_value: None };
    assert_eq!(CellValue::Empty, parse_value(Some(&bare)));
    let empty_effective = CellData {
        formatted_value: None,
        effective_value: Some(ExtendedValue { string_value: None, number_value: None }),
    };
    assert_eq!(CellValue::Empty, parse_value(Some(&empty_effective)));
    let number_without_display = cell(None, None, Some(1.5));
    assert_eq!(CellValue::Empty, parse_value(Some(&number_without_display)));
}

#[test]
fn test_formatted_only_is_text() {
    let without_effective = cell(Some("x"), None, None);
    assert_eq!(CellValue::Str("x".to_string()), parse_value(Some(&without_effective)));
    let with_empty_effective = CellData {
        formatted_value: Some("note".to_string()),
        effective_value: Some(ExtendedValue { string_value: None, number_value: None }),
    };
    assert_eq!(CellValue::Str("note".to_string()), parse_value(Some(&with_empty_effective)));
}

#[test]
fn test_display_parsing_agrees_with_std() {
    // The verified recognizers must match what str::parse accepts.
    for s in [
        "42", "-42", "+42", "0", "9223372036854775807", "-9223372036854775808",
        "9223372036854775808", "4e2", "1.5", ".5", "1.", "inf", "Infinity", "NaN", "-inf",
        "1e-3", "1E+3", "abc", "", "1.2.3", "1e", "3/14/2023", "50%", " 42", "42 ",
    ] {
        let c = cell(Some(s), None, Some(7.25));
        let got = parse_value(Some(&c));
        let expect = if let Ok(i) = s.parse::<i64>() {
            CellValue::Int(i)
        } else if s.parse::<f64>().is_err() && !s.contains('%') {
            CellValue::Str(s.to_string())
        } else {
            CellValue::Float(7.25f64.to_bits())
        };
        assert_eq!(expect, got, "display {:?}", s);
    }
}
