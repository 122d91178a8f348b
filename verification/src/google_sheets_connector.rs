//! The first form of the connector: plain request records for reading,
//! writing and clearing a tab, with range builders that report a failure in
//! the text they return instead of in an error value.
use vstd::prelude::*;

use crate::column::{
    column_name, column_number, column_string, is_column_letters, lemma_column_name_reads_back,
    valid_column, MAX_COLUMN,
};
use crate::gsc::{
    a1_columns_named, a1_notation, after_start, after_start_bytes, id_prefix, id_suffix, nonempty,
    nonzero, quoted, text_option, ValueOption, ValueRange,
};
use crate::text::{
    chars_of, find, find_chars, i32_to_decimal, int_decimal, lemma_find_is_first_occurrence, occurs_at,
};

verus! {

/// Which sheet and tab a request goes to, and the credentials to reach it.
pub struct GoogleSheetsConnection {
    /// The spreadsheet id.
    pub sheet_id: Option<String>,
    /// The name of the tab.
    pub tab_name: Option<String>,
    /// The file that holds the connection's credentials.
    pub credentials_file: Option<String>,
}

impl GoogleSheetsConnection {
    /// Whether the sheet, the tab and the credentials are all set.
    pub fn id_valid(&self) -> (b: bool)
        ensures
            b == (self.sheet_id is Some && self.tab_name is Some && self.credentials_file is Some),
    {
        match (&self.sheet_id, &self.tab_name, &self.credentials_file) {
            (Some(_), Some(_), Some(_)) => true,
            _ => false,
        }
    }
}

/// A read of a block of a tab; an unset bound is left open.
pub struct GoogleSheetsRead {
    pub connection: GoogleSheetsConnection,
    pub start_column: Option<i32>,
    pub start_row: Option<i32>,
    pub end_column: Option<i32>,
    pub end_row: Option<i32>,
}

/// A write of values to a tab.
pub struct GoogleSheetsWrite {
    pub connection: GoogleSheetsConnection,
    /// The values to write and the range they cover.
    pub write_data: ValueRange,
    /// How the sheet takes the values.
    pub value_option: Option<ValueOption>,
}

/// A clear of a block of a tab; an unset bound is left open.
pub struct GoogleSheetsDelete {
    pub connection: GoogleSheetsConnection,
    pub start_column: Option<i32>,
    pub start_row: Option<i32>,
    pub end_column: Option<i32>,
    pub end_row: Option<i32>,
}

/// The inputs on which `get_string_between` gives a text: where `start`
/// occurs and is not empty, `end` occurs and its first occurrence does not
/// come before the end of the first `start`.
pub open spec fn between_defined(full: Seq<char>, start: Seq<char>, end: Seq<char>) -> bool {
    find(full, start) is Some ==> (after_start_bytes(full, start) < 1 || match find(full, end) {
        Some(e) => after_start(full, start) <= e,
        None => false,
    })
}

/// The text between the first `start` and the first `end` of `full`; empty
/// when `start` does not occur or its first occurrence ends at byte 0.
pub open spec fn between(full: Seq<char>, start: Seq<char>, end: Seq<char>) -> Seq<char> {
    if find(full, start) is None || after_start_bytes(full, start) < 1 {
        Seq::empty()
    } else {
        full.subrange(after_start(full, start), find(full, end).unwrap())
    }
}

/// The text between the markers is exactly what lies between them: where
/// `start` occurs past byte 0, `full` is the text before the first `start`,
/// `start`, the result, and the text from the first `end` on; the result is
/// as long as the distance from the end of the first `start` to the first
/// `end`.
pub proof fn lemma_between_splits(full: Seq<char>, start: Seq<char>, end: Seq<char>)
    requires
        between_defined(full, start, end),
        find(full, start) is Some,
        after_start_bytes(full, start) >= 1,
    ensures
        ({
            let p = find(full, start).unwrap();
            let e = find(full, end).unwrap();
            let r = between(full, start, end);
            &&& find(full, end) is Some
            &&& occurs_at(full, start, p)
            &&& occurs_at(full, end, e)
            &&& r.len() == e - (p + start.len())
            &&& full == full.subrange(0, p) + start + r + full.subrange(e, full.len() as int)
        }),
{
    lemma_find_is_first_occurrence(full, start);
    lemma_find_is_first_occurrence(full, end);
    let p = find(full, start).unwrap();
    let e = find(full, end).unwrap();
    let r = between(full, start, end);
    assert(full =~= full.subrange(0, p) + start + r + full.subrange(e, full.len() as int));
}

/// Whether `get_string_between` can be called on these inputs.
pub fn between_is_defined(full_str: &str, start: &str, end: &str) -> (b: bool)
    ensures
        b == between_defined(full_str@, start@, end@),
{
    let full = chars_of(full_str);
    let st = chars_of(start);
    let en = chars_of(end);
    let n = full.len();
    proof {
        lemma_find_is_first_occurrence(full@, st@);
    }
    match find_chars(&full, &st) {
        None => true,
        Some(p) => {
            assert(p + st@.len() <= n);
            if full_str.substring_char(0, p).as_bytes().len() == 0 && start.as_bytes().len() == 0 {
                true
            } else {
                match find_chars(&full, &en) {
                    None => false,
                    Some(e) => p + st.len() <= e,
                }
            }
        },
    }
}

/// The text of `full_str` between the first `start` and the first `end`; the
/// empty text when `start` does not occur or its first occurrence ends at
/// byte 0.
pub fn get_string_between(full_str: &str, start: &str, end: &str) -> (r: String)
    requires
        between_defined(full_str@, start@, end@),
    ensures
        r@ == between(full_str@, start@, end@),
        find(full_str@, start@) is Some && after_start_bytes(full_str@, start@) >= 1 ==> full_str@
            == full_str@.subrange(0, find(full_str@, start@).unwrap()) + start@ + r@
            + full_str@.subrange(find(full_str@, end@).unwrap(), full_str@.len() as int),
{
    proof {
        if find(full_str@, start@) is Some && after_start_bytes(full_str@, start@) >= 1 {
            lemma_between_splits(full_str@, start@, end@);
        }
    }
    let full = chars_of(full_str);
    let st = chars_of(start);
    let en = chars_of(end);
    let n = full.len();
    proof {
        lemma_find_is_first_occurrence(full@, st@);
        lemma_find_is_first_occurrence(full@, en@);
    }
    let p = match find_chars(&full, &st) {
        Some(p) => p,
        None => {
            return String::new();
        },
    };
    assert(p + st@.len() <= n);
    let start_i = p + st.len();
    if full_str.substring_char(0, p).as_bytes().len() == 0 && start.as_bytes().len() == 0 {
        String::new()
    } else {
        match find_chars(&full, &en) {
            Some(end_i) => String::from_str(full_str.substring_char(start_i, end_i)),
            None => String::new(),
        }
    }
}

/// The name of column `c`, or `ERROR` for a number that has none.
pub open spec fn column_text(c: int) -> Seq<char> {
    if valid_column(c) {
        column_name(c)
    } else {
        "ERROR"@
    }
}

/// The name of column `i`, or `ERROR` for a number that has none.
pub fn int_to_char_string(i: i32) -> (s: String)
    ensures
        s@ == column_text(i as int),
        valid_column(i as int) ==> is_column_letters(s@) && column_number(s@) == i,
        !valid_column(i as int) ==> s@ == "ERROR"@,
{
    if 1 <= i && i <= MAX_COLUMN {
        column_string(i)
    } else {
        String::from_str("ERROR")
    }
}

/// The number of rows of `range` and the number of columns of its first row,
/// each cut to an `i32` as `as` does.
pub fn calc_range_from_vec_vec(range: &[Vec<String>]) -> (r: (i32, i32))
    requires
        range@.len() > 0,
    ensures
        r == (range@.len() as i32, range@[0]@.len() as i32),
{
    (range.len() as i32, range[0].len() as i32)
}

/// The range in A1 notation for a tab and optional bounds, with `ERROR` for
/// a column that has no name; the empty text for bounds that make no range.
pub open spec fn a1_text(
    tab: Seq<char>,
    start_column: Option<i32>,
    start_row: Option<i32>,
    end_column: Option<i32>,
    end_row: Option<i32>,
) -> Seq<char> {
    match (start_column, start_row, end_column, end_row) {
        (None, None, None, None) => quoted(tab),
        (Some(sc), Some(sr), Some(ec), None) => quoted(tab) + "!"@ + column_text(sc as int)
            + int_decimal(sr as int) + ":"@ + column_text(ec as int),
        (Some(sc), Some(sr), Some(ec), Some(er)) => quoted(tab) + "!"@ + column_text(sc as int)
            + int_decimal(sr as int) + ":"@ + column_text(ec as int) + int_decimal(er as int),
        _ => Seq::empty(),
    }
}

/// A column's text reads back to it: for a named column, one or two capitals
/// whose column number is the column; for any other number, `ERROR`.
pub proof fn lemma_column_text_reads_back(c: int)
    ensures
        valid_column(c) ==> is_column_letters(column_text(c)) && column_number(column_text(c)) == c,
        !valid_column(c) ==> column_text(c) == "ERROR"@,
{
    if valid_column(c) {
        lemma_column_name_reads_back(c);
    }
}

/// `l` is what a range shows for column `c`: one or two capitals that read
/// back to `c` when `c` has a name, `ERROR` otherwise.
pub open spec fn shows_column(l: Seq<char>, c: int) -> bool {
    &&& valid_column(c) ==> is_column_letters(l) && column_number(l) == c
    &&& !valid_column(c) ==> l == "ERROR"@
}

/// A block's range reads back to its bounds: after the quoted tab and `!`
/// come the text shown for the start column, the start row in decimal, `:`,
/// the text shown for the end column, and the end row in decimal when there
/// is one.
pub proof fn lemma_a1_text_reads_back(
    tab: Seq<char>,
    start_column: i32,
    start_row: i32,
    end_column: i32,
    end_row: Option<i32>,
)
    ensures
        exists|l1: Seq<char>, l2: Seq<char>|
            #![trigger shows_column(l1, start_column as int), shows_column(l2, end_column as int)]
            {
                &&& shows_column(l1, start_column as int)
                &&& shows_column(l2, end_column as int)
                &&& a1_text(tab, Some(start_column), Some(start_row), Some(end_column), end_row)
                    == quoted(tab) + "!"@ + l1 + int_decimal(start_row as int) + ":"@ + l2
                    + match end_row {
                    Some(er) => int_decimal(er as int),
                    None => Seq::<char>::empty(),
                }
            },
{
    let l1 = column_text(start_column as int);
    let l2 = column_text(end_column as int);
    lemma_column_text_reads_back(start_column as int);
    lemma_column_text_reads_back(end_column as int);
    let rest = match end_row {
        Some(er) => int_decimal(er as int),
        None => Seq::<char>::empty(),
    };
    assert(a1_text(tab, Some(start_column), Some(start_row), Some(end_column), end_row)
        =~= quoted(tab) + "!"@ + l1 + int_decimal(start_row as int) + ":"@ + l2 + rest);
    assert(shows_column(l1, start_column as int) && shows_column(l2, end_column as int));
}

/// The range in A1 notation for `tab` and the given bounds, or the empty text
/// when the bounds make no range.
pub fn to_a1_notation(
    tab: &str,
    start_column: Option<i32>,
    start_row: Option<i32>,
    end_column: Option<i32>,
    end_row: Option<i32>,
) -> (s: String)
    ensures
        s@ == a1_text(tab@, start_column, start_row, end_column, end_row),
{
    let mut a1 = String::from_str("'");
    a1.append(tab);
    a1.append("'");
    match (start_column, start_row, end_column, end_row) {
        (None, None, None, None) => a1,
        (Some(s_col), Some(s_row), Some(e_col), None) => {
            a1.append("!");
            let c = int_to_char_string(s_col);
            a1.append(c.as_str());
            let d = i32_to_decimal(s_row);
            a1.append(d.as_str());
            a1.append(":");
            let c = int_to_char_string(e_col);
            a1.append(c.as_str());
            a1
        },
        (Some(s_col), Some(s_row), Some(e_col), Some(e_row)) => {
            a1.append("!");
            let c = int_to_char_string(s_col);
            a1.append(c.as_str());
            let d = i32_to_decimal(s_row);
            a1.append(d.as_str());
            a1.append(":");
            let c = int_to_char_string(e_col);
            a1.append(c.as_str());
            let d = i32_to_decimal(e_row);
            a1.append(d.as_str());
            a1
        },
        _ => String::new(),
    }
}

/// Both range builders agree where columns have names: this one gives the
/// same text as `gsc::to_a1_notation` gives on success, and the empty text
/// where that one reports an error.
pub proof fn lemma_agrees_with_checked_ranges(
    tab: Seq<char>,
    start_column: Option<i32>,
    start_row: Option<i32>,
    end_column: Option<i32>,
    end_row: Option<i32>,
)
    requires
        a1_columns_named(start_column, start_row, end_column),
    ensures
        a1_text(tab, start_column, start_row, end_column, end_row) == match a1_notation(
            tab,
            start_column,
            start_row,
            end_column,
            end_row,
        ) {
            Some(s) => s,
            None => Seq::empty(),
        },
{
}

/// Whether a spreadsheet id can be taken from `google_sheet_url`.
pub fn connection_url_is_defined(google_sheet_url: &str) -> (b: bool)
    ensures
        b == between_defined(google_sheet_url@, id_prefix(), id_suffix()),
{
    between_is_defined(google_sheet_url, "/spreadsheets/d/", "/edit")
}

/// The connection to tab `tab` of the sheet at `google_sheet_url`, with the
/// credentials in `client_secret_file`; an empty id, tab or file is left unset.
pub fn get_connection(tab: &str, client_secret_file: String, google_sheet_url: &str) -> (c:
    GoogleSheetsConnection)
    requires
        between_defined(google_sheet_url@, id_prefix(), id_suffix()),
    ensures
        text_option(c.sheet_id) == nonempty(between(google_sheet_url@, id_prefix(), id_suffix())),
        text_option(c.tab_name) == nonempty(tab@),
        text_option(c.credentials_file) == nonempty(client_secret_file@),
{
    let spreadsheet_id = get_string_between(google_sheet_url, "/spreadsheets/d/", "/edit");
    GoogleSheetsConnection {
        sheet_id: if spreadsheet_id.as_str().is_empty() {
            None
        } else {
            Some(spreadsheet_id)
        },
        tab_name: if tab.is_empty() {
            None
        } else {
            Some(String::from_str(tab))
        },
        credentials_file: if client_secret_file.as_str().is_empty() {
            None
        } else {
            Some(client_secret_file)
        },
    }
}

/// A read over the given connection; a zero bound is left open.
pub fn get_read(
    conn: GoogleSheetsConnection,
    start_column: i32,
    start_row: i32,
    end_column: i32,
    end_row: i32,
) -> (r: GoogleSheetsRead)
    ensures
        r.connection == conn,
        r.start_column == nonzero(start_column),
        r.start_row == nonzero(start_row),
        r.end_column == nonzero(end_column),
        r.end_row == nonzero(end_row),
{
    GoogleSheetsRead {
        connection: conn,
        start_column: if start_column == 0 {
            None
        } else {
            Some(start_column)
        },
        start_row: if start_row == 0 {
            None
        } else {
            Some(start_row)
        },
        end_column: if end_column == 0 {
            None
        } else {
            Some(end_column)
        },
        end_row: if end_row == 0 {
            None
        } else {
            Some(end_row)
        },
    }
}

} // verus!
