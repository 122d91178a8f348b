use gsc::column::{column_string, MAX_COLUMN};
use gsc::gsc::{
    a1_columns_are_named, delete_outcome, get_string_between, int_to_char_string,
    row_col_size_from_vec_vec, sheet_url_is_defined, string_between_is_defined, to_a1_notation,
    value_range_new, write_is_defined, write_outcome, Connection, Deleter, GenericError, Reader,
    ValueOption, Writer,
};
use gsc::text::{chars_of, find_chars, i32_to_decimal, option_i32_debug};

fn strings(rows: &[&[&str]]) -> Vec<Vec<String>> {
    rows.iter()
        .map(|r| r.iter().map(|c| c.to_string()).collect())
        .collect()
}

fn column_number(name: &str) -> i32 {
    name.chars().fold(0, |acc, c| acc * 26 + (c as i32 - 'A' as i32) + 1)
}

#[test]
fn value_option_check() {
    assert_eq!(ValueOption::Raw.to_string(), "RAW");
    assert_eq!(ValueOption::UserEntered.to_string(), "USER_ENTERED");
}

#[test]
fn int_to_col() {
    assert_eq!(int_to_char_string(0).is_ok(), false);

    assert_eq!(int_to_char_string(1).unwrap(), String::from("A"));
    assert_eq!(int_to_char_string(1).is_ok(), true);

    assert_eq!(int_to_char_string(26).unwrap(), String::from("Z"));
    assert_eq!(int_to_char_string(26).is_ok(), true);

    assert_eq!(int_to_char_string(27).unwrap(), String::from("AA"));
    assert_eq!(int_to_char_string(27).is_ok(), true);

    assert_eq!(int_to_char_string(702).unwrap(), String::from("ZZ"));
    assert_eq!(int_to_char_string(702).is_ok(), true);

    assert_eq!(int_to_char_string(703).is_ok(), false);
}

#[test]
fn column_names_in_between() {
    assert_eq!(int_to_char_string(2).unwrap(), "B");
    assert_eq!(int_to_char_string(28).unwrap(), "AB");
    assert_eq!(int_to_char_string(52).unwrap(), "AZ");
    assert_eq!(int_to_char_string(53).unwrap(), "BA");
    assert_eq!(int_to_char_string(701).unwrap(), "ZY");
    assert_eq!(column_string(MAX_COLUMN), "ZZ");
}

#[test]
fn column_name_error_message() {
    for i in [0, -1, 703, i32::MIN, i32::MAX] {
        let e = int_to_char_string(i).unwrap_err();
        assert_eq!(e.description(), "Error parsing int into alpha column");
    }
}

#[test]
fn column_names_read_back_and_differ() {
    let mut seen = std::collections::HashSet::new();
    for n in 1..=MAX_COLUMN {
        let name = int_to_char_string(n).unwrap();
        assert!(name.len() == 1 || name.len() == 2);
        assert!(name.chars().all(|c| ('A'..='Z').contains(&c)));
        assert_eq!(column_number(&name), n);
        assert!(seen.insert(name));
    }
}

#[test]
fn decimal_text_matches_to_string() {
    for n in [0, 7, 9, 10, 99, 100, -1, -10, 12345, i32::MIN, i32::MAX] {
        assert_eq!(i32_to_decimal(n), n.to_string());
        assert_eq!(i32_to_decimal(n).parse::<i32>().unwrap(), n);
    }
}

#[test]
fn option_debug_matches_format() {
    for o in [None, Some(0), Some(-4), Some(15), Some(i32::MIN)] {
        assert_eq!(option_i32_debug(o), format!("{:?}", o));
    }
}

#[test]
fn find_first_occurrence() {
    let s = chars_of("abcabc");
    assert_eq!(find_chars(&s, &chars_of("bc")), Some(1));
    assert_eq!(find_chars(&s, &chars_of("")), Some(0));
    assert_eq!(find_chars(&s, &chars_of("cb")), None);
    assert_eq!(find_chars(&s, &chars_of("abcabcd")), None);
    assert_eq!(chars_of("héllo"), vec!['h', 'é', 'l', 'l', 'o']);
}

#[test]
fn string_between_sheet_url() {
    let url = "https://docs.google.com/spreadsheets/d/abc123XYZ/edit#gid=0";
    assert!(sheet_url_is_defined(url));
    assert_eq!(
        get_string_between(url, "/spreadsheets/d/", "/edit"),
        Some(String::from("abc123XYZ"))
    );
}

#[test]
fn string_between_without_end() {
    assert_eq!(
        get_string_between("prefix/spreadsheets/d/abc", "/spreadsheets/d/", "/edit"),
        Some(String::from("abc"))
    );
}

#[test]
fn string_between_near_the_start() {
    // The first `start` ends at byte 0 or 1: nothing.
    assert_eq!(get_string_between("xabc", "x", "c"), None);
    assert_eq!(get_string_between("abc", "", "c"), None);
    assert_eq!(get_string_between("abc", "a", "c"), None);
    // It ends at byte 2.
    assert_eq!(get_string_between("abcd", "ab", "d"), Some(String::from("c")));
    // A two-byte character ends at byte 2.
    assert_eq!(get_string_between("é/x", "é", "x"), Some(String::from("/")));
}

#[test]
fn string_between_definedness() {
    assert!(!string_between_is_defined("abc", "z", "c"));
    assert!(!string_between_is_defined("end--start--", "start", "end"));
    assert!(string_between_is_defined("--start--end", "start", "end"));
    assert!(string_between_is_defined("xend", "x", "end"));
}

#[test]
fn a1_whole_tab() {
    assert_eq!(to_a1_notation("Tab", None, None, None, None).unwrap(), "'Tab'");
}

#[test]
fn a1_open_end_row() {
    assert_eq!(to_a1_notation("Tab", Some(1), Some(1), Some(5), None).unwrap(), "'Tab'!A1:E");
}

#[test]
fn a1_block() {
    assert_eq!(
        to_a1_notation("TestSheet", Some(1), Some(9), Some(28), Some(15)).unwrap(),
        "'TestSheet'!A9:AB15"
    );
    assert_eq!(
        to_a1_notation("T", Some(2), Some(-3), Some(2), Some(-1)).unwrap(),
        "'T'!B-3:B-1"
    );
}

#[test]
fn a1_end_row_extends_range() {
    let without = to_a1_notation("Tab", Some(3), Some(4), Some(6), None).unwrap();
    let with = to_a1_notation("Tab", Some(3), Some(4), Some(6), Some(120)).unwrap();
    assert_eq!(with, format!("{}{}", without, 120));
}

#[test]
fn a1_error_lists_arguments() {
    let e = to_a1_notation("Tab \"x\"", Some(1), None, Some(3), None).unwrap_err();
    let tab = "Tab \"x\"";
    let (sc, sr, ec, er): (Option<i32>, Option<i32>, Option<i32>, Option<i32>) =
        (Some(1), None, Some(3), None);
    let expected = format!(
        "Unable to parse to a1 notation -
                                         \ntab:{:?}
                                         \nstart_col: {:?}
                                         \nstart_row: {:?}
                                         \nend_column: {:?}
                                         \nend_row: {:?}",
        tab, sc, sr, ec, er
    );
    assert_eq!(e.description(), expected);
    assert_eq!(e.to_string(), expected);
}

#[test]
fn a1_columns_check() {
    assert!(a1_columns_are_named(Some(1), Some(1), Some(702)));
    assert!(!a1_columns_are_named(Some(0), Some(1), Some(2)));
    assert!(!a1_columns_are_named(Some(1), Some(1), Some(703)));
    assert!(a1_columns_are_named(Some(0), None, Some(2)));
    assert!(a1_columns_are_named(None, None, None));
}

#[test]
fn generic_error_message() {
    let e = GenericError::new("boom");
    assert_eq!(e.description(), "boom");
    assert_eq!(e.to_string(), "boom");
}

#[test]
fn connection_settings() {
    let url = "https://docs.google.com/spreadsheets/d/ID42/edit";
    let c = Connection::new(None, url);
    assert_eq!(c.credentials_file, Some(String::from("cred.json")));
    assert_eq!(c.sheet_id, Some(String::from("ID42")));
    let c = Connection::new(Some(String::from("mine.json")), url);
    assert_eq!(c.credentials_file, Some(String::from("mine.json")));
}

#[test]
fn reader_zero_bounds_are_open() {
    let r = Reader::new((), "sheet", "TestSheet", 1, 1, 5, 0);
    assert_eq!(r.sheet_id, "sheet");
    assert_eq!(r.tab_name, Some(String::from("TestSheet")));
    assert_eq!(r.start_column, Some(1));
    assert_eq!(r.end_row, None);
    assert_eq!(r.read_range().unwrap(), "'TestSheet'!A1:E");
    let r = Reader::new((), "sheet", "", 0, 0, 0, 0);
    assert_eq!(r.tab_name, None);
    assert_eq!(r.start_column, None);
}

#[test]
fn reader_range_error() {
    let r = Reader::new((), "sheet", "T", 1, 0, 5, 5);
    assert!(r.read_range().is_err());
}

#[test]
fn writer_range_covers_data() {
    let data = strings(&[&["a", "b", "c"], &["d", "e", "f"]]);
    assert!(write_is_defined("TestSheet", 1, 9, &data));
    let w = Writer::new((), "sheet", "TestSheet", 1, 9, data.clone(), ValueOption::UserEntered);
    assert_eq!(w.range, Some(String::from("'TestSheet'!A9:C10")));
    assert_eq!(w.data.range, Some(String::from("'TestSheet'!A9:C10")));
    assert_eq!(w.data.values, Some(data));
    assert_eq!(w.data.major_dimension, Some(String::from("ROWS")));
    assert_eq!(w.val_option.to_string(), "USER_ENTERED");
}

#[test]
fn writer_whole_tab() {
    let data = strings(&[&["x"]]);
    assert!(write_is_defined("T", 0, 0, &data));
    let w = Writer::new((), "s", "T", 0, 0, data, ValueOption::Raw);
    assert_eq!(w.range, Some(String::from("'T'")));
}

#[test]
fn writer_undefined_inputs() {
    assert!(!write_is_defined("T", 1, 1, &Vec::new()));
    assert!(!write_is_defined("T", 0, 1, &strings(&[&["a", "b"]])));
    assert!(!write_is_defined("T", 702, 1, &strings(&[&["a", "b"]])));
    assert!(!write_is_defined("T", 1, i32::MAX, &strings(&[&["a"], &["b"]])));
    assert!(!write_is_defined("T", 1, i32::MIN, &strings(&[&["a"]])));
}

#[test]
fn deleter_range() {
    let d = Deleter::new((), "sheet", "TestSheet", 1, 9, 4, 15);
    assert_eq!(d.range, Some(String::from("'TestSheet'!A9:D15")));
    let d = Deleter::new((), "sheet", "TestSheet", 1, 0, 4, 15);
    assert_eq!(d.range, None);
}

#[test]
fn outcomes() {
    assert_eq!(write_outcome(Ok(())).unwrap(), "Write success");
    assert_eq!(write_outcome(Err(String::from("no"))).unwrap_err().description(), "no");
    assert_eq!(delete_outcome(Ok(())).unwrap(), "Delete success");
    assert_eq!(delete_outcome(Err(String::from("gone"))).unwrap_err().to_string(), "gone");
}

#[test]
fn value_range_parts() {
    let v = value_range_new("", Vec::new());
    assert_eq!(v.range, None);
    assert_eq!(v.values, None);
    assert_eq!(v.major_dimension, Some(String::from("ROWS")));
    let v = value_range_new("'T'!A1", strings(&[&["1"]]));
    assert_eq!(v.range, Some(String::from("'T'!A1")));
    assert_eq!(v.values, Some(strings(&[&["1"]])));
}

#[test]
fn row_and_column_counts() {
    assert_eq!(row_col_size_from_vec_vec(&strings(&[&["a", "b", "c"], &["d"]])), (2, 3));
    assert_eq!(row_col_size_from_vec_vec(&strings(&[&[]])), (1, 0));
}
