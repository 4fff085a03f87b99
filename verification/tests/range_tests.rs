use gsqlite::range::Range;

#[test]
fn test_parse_well_formed_range() {
    let r = Range::parse("A2:F5");
    assert_eq!("A", r.c1);
    assert_eq!(2, r.r1);
    assert_eq!("F", r.c2);
    assert_eq!(5, r.r2);
}

#[test]
fn test_parse_garbage_yields_sentinel() {
    let r = Range::parse("garbage");
    assert_eq!("A", r.c1);
    assert_eq!(0, r.r1);
    assert_eq!("A", r.c2);
    assert_eq!(0, r.r2);
}

#[test]
fn test_parse_is_case_insensitive_and_uppercases() {
    let r = Range::parse("aa10:bz20");
    assert_eq!("AA", r.c1);
    assert_eq!(10, r.r1);
    assert_eq!("BZ", r.c2);
    assert_eq!(20, r.r2);
}

#[test]
fn test_parse_rejects_partial_matches() {
    for s in ["", "A2", "A2:", "A2:F", "2A:F5", "A2:F5x", "A 2:F5", "A2;F5"] {
        let r = Range::parse(s);
        assert_eq!(Range::parse("garbage"), r, "input {:?}", s);
    }
}

#[test]
fn test_parse_row_zero_is_kept_but_invalid() {
    let r = Range::parse("A0:B0");
    assert_eq!("A", r.c1);
    assert_eq!(0, r.r1);
    assert_eq!("B", r.c2);
    assert_eq!(0, r.r2);
}

#[test]
fn test_parse_row_overflow_falls_back_to_zero() {
    let r = Range::parse("A99999999999999999999:B5");
    assert_eq!(0, r.r1);
    assert_eq!(5, r.r2);
}

#[test]
fn test_to_string_round_trip() {
    let r = Range::parse("A2:F5");
    assert_eq!("A2:F5", r.to_string());
    let s = Range::parse("garbage");
    assert_eq!("A0:A0", s.to_string());
}
