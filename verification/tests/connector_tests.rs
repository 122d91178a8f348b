use gsc::google_sheets_connector::{
    between_is_defined, calc_range_from_vec_vec, connection_url_is_defined, get_connection,
    get_read, get_string_between, int_to_char_string, to_a1_notation, GoogleSheetsConnection,
};

#[test]
fn connection_validity() {
    let c = GoogleSheetsConnection {
        sheet_id: Some(String::from("id")),
        tab_name: Some(String::from("tab")),
        credentials_file: Some(String::from("cred.json")),
    };
    assert!(c.id_valid());
    let c = GoogleSheetsConnection { tab_name: None, ..c };
    assert!(!c.id_valid());
}

#[test]
fn read_request_bounds() {
    let c = GoogleSheetsConnection { sheet_id: None, tab_name: None, credentials_file: None };
    let r = get_read(c, 2, 0, 4, -1);
    assert_eq!(r.start_column, Some(2));
    assert_eq!(r.start_row, None);
    assert_eq!(r.end_column, Some(4));
    assert_eq!(r.end_row, Some(-1));
}

#[test]
fn connection_from_settings() {
    let url = "https://docs.google.com/spreadsheets/d/ID7/edit#gid=1";
    assert!(connection_url_is_defined(url));
    let c = get_connection("Tab", String::from("cred.json"), url);
    assert_eq!(c.sheet_id, Some(String::from("ID7")));
    assert_eq!(c.tab_name, Some(String::from("Tab")));
    assert_eq!(c.credentials_file, Some(String::from("cred.json")));
    let c = get_connection("", String::new(), "/spreadsheets/d//edit");
    assert_eq!(c.sheet_id, None);
    assert_eq!(c.tab_name, None);
    assert_eq!(c.credentials_file, None);
}

#[test]
fn text_between() {
    assert_eq!(get_string_between("a/start/ID/end", "/start/", "/end"), "ID");
    // No start: the empty text.
    assert_eq!(get_string_between("abc", "zz", "c"), "");
    // An empty start at the beginning: the empty text.
    assert_eq!(get_string_between("abc", "", "c"), "");
    assert!(between_is_defined("abc", "zz", "q"));
    assert!(!between_is_defined("a/start/ID", "/start/", "/end"));
    assert!(!between_is_defined("/end/start/", "/start/", "/end"));
}

#[test]
fn columns_with_error_text() {
    assert_eq!(int_to_char_string(1), "A");
    assert_eq!(int_to_char_string(702), "ZZ");
    assert_eq!(int_to_char_string(0), "ERROR");
    assert_eq!(int_to_char_string(703), "ERROR");
}

#[test]
fn ranges_as_text() {
    assert_eq!(to_a1_notation("T", None, None, None, None), "'T'");
    assert_eq!(to_a1_notation("T", Some(1), Some(2), Some(3), None), "'T'!A2:C");
    assert_eq!(to_a1_notation("T", Some(1), Some(2), Some(3), Some(4)), "'T'!A2:C4");
    assert_eq!(to_a1_notation("T", Some(0), Some(2), Some(800), Some(4)), "'T'!ERROR2:ERROR4");
    assert_eq!(to_a1_notation("T", Some(1), None, None, None), "");
}

#[test]
fn range_counts() {
    let rows = vec![vec![String::from("a"), String::from("b")], vec![String::new()]];
    assert_eq!(calc_range_from_vec_vec(&rows), (2, 2));
}
