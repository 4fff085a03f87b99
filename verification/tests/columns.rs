use gsqlite::sheet::{column_name_to_number, number_to_column_name};

#[test]
fn test_number_to_column_name() {
    assert_eq!("A", number_to_column_name(1));
    assert_eq!("Z", number_to_column_name(26));
    assert_eq!("AA", number_to_column_name(27));
    assert_eq!("AZ", number_to_column_name(52));
    assert_eq!("JJ", number_to_column_name(270));
    assert_eq!("VDX", number_to_column_name(15000));
}

#[test]
fn test_column_name_to_number() {
    assert_eq!(1, column_name_to_number("A"));
    assert_eq!(26, column_name_to_number("Z"));
    assert_eq!(27, column_name_to_number("AA"));
    assert_eq!(52, column_name_to_number("AZ"));
    assert_eq!(270, column_name_to_number("JJ"));
    assert_eq!(15000, column_name_to_number("VDX"));
}

#[test]
fn test_number_round_trip_up_to_three_letters() {
    for n in 1..=18278usize {
        assert_eq!(n, column_name_to_number(&number_to_column_name(n)));
    }
}

#[test]
fn test_letters_round_trip_boundaries() {
    for name in ["A", "Z", "AA", "AZ", "BA", "ZZ", "AAA", "YZ", "ZA", "ZZZ"] {
        assert_eq!(name, number_to_column_name(column_name_to_number(name)));
    }
}

#[test]
fn test_column_zero_is_empty() {
    assert_eq!("", number_to_column_name(0));
}
