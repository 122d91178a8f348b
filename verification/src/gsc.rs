//! The sheet connector: what a connection, a reader, a writer and a deleter
//! of a Google sheet carry, and the A1-notation ranges that they address.
//!
//! The network calls themselves are made by the program around this library;
//! here stand the decisions: which range a request covers, which settings are
//! left open, and what a finished request is reported as.
use vstd::prelude::*;
use vstd::utf8::encode_utf8;

use crate::column::{
    column_name, column_number, column_string, is_column_letters, lemma_column_name_reads_back,
    valid_column, MAX_COLUMN,
};
use crate::text::{
    occurs_at, chars_of, debug_str, find, find_chars, i32_to_decimal, int_decimal, lemma_find_is_first_occurrence,
    option_debug, option_i32_debug, str_debug_text,
};

verus! {

// ---------------------------------------------------------------------------
// Small value types
// ---------------------------------------------------------------------------

/// How the sheet takes written values: as given, or as if a user typed them.
pub enum ValueOption {
    Raw,
    UserEntered,
}

/// The name of a value option in the sheets API.
pub open spec fn value_option_text(v: ValueOption) -> Seq<char> {
    match v {
        ValueOption::Raw => "RAW"@,
        ValueOption::UserEntered => "USER_ENTERED"@,
    }
}

impl ValueOption {
    /// The option's name in the sheets API (`RAW` or `USER_ENTERED`).
    pub fn to_string(&self) -> (s: String)
        ensures
            s@ == value_option_text(*self),
    {
        match self {
            ValueOption::Raw => String::from_str("RAW"),
            ValueOption::UserEntered => String::from_str("USER_ENTERED"),
        }
    }
}

/// An error that carries a message.
#[derive(Debug)]
pub struct GenericError {
    details: String,
}

impl View for GenericError {
    type V = Seq<char>;

    /// The error's message.
    closed spec fn view(&self) -> Seq<char> {
        self.details@
    }
}

impl GenericError {
    /// An error with message `msg`.
    pub fn new(msg: &str) -> (e: Self)
        ensures
            e@ == msg@,
    {
        GenericError { details: String::from_str(msg) }
    }

    /// The error's message.
    pub fn description(&self) -> (d: &str)
        ensures
            d@ == self@,
    {
        self.details.as_str()
    }

    /// The error's message, as its display shows it.
    pub fn to_string(&self) -> (s: String)
        ensures
            s@ == self@,
    {
        self.details.clone()
    }
}

/// The optional text of an optional string.
pub open spec fn text_option(o: Option<String>) -> Option<Seq<char>> {
    match o {
        Some(s) => Some(s@),
        None => None,
    }
}

/// A setting that zero leaves open.
pub open spec fn nonzero(v: i32) -> Option<i32> {
    if v == 0 {
        None
    } else {
        Some(v)
    }
}

/// A text setting that the empty text leaves open.
pub open spec fn nonempty(t: Seq<char>) -> Option<Seq<char>> {
    if t.len() == 0 {
        None
    } else {
        Some(t)
    }
}

/// `v`, or nothing when it is zero.
fn option_from_nonzero(v: i32) -> (o: Option<i32>)
    ensures
        o == nonzero(v),
{
    if v == 0 {
        None
    } else {
        Some(v)
    }
}

/// `t` as an owned string, or nothing when it is empty.
fn option_from_nonempty(t: &str) -> (o: Option<String>)
    ensures
        text_option(o) == nonempty(t@),
{
    if t.is_empty() {
        None
    } else {
        Some(String::from_str(t))
    }
}

// ---------------------------------------------------------------------------
// Text between two markers
// ---------------------------------------------------------------------------

/// Number of bytes that `s` takes in UTF-8.
pub open spec fn utf8_len(s: Seq<char>) -> int {
    encode_utf8(s).len() as int
}

/// Character position just after the first `start` in `full`.
pub open spec fn after_start(full: Seq<char>, start: Seq<char>) -> int {
    find(full, start).unwrap() + start.len()
}

/// Byte offset just after the first `start` in `full`.
pub open spec fn after_start_bytes(full: Seq<char>, start: Seq<char>) -> int {
    utf8_len(full.subrange(0, find(full, start).unwrap())) + utf8_len(start)
}

/// The inputs on which the text between `start` and `end` can be taken: `start`
/// occurs in `full`, and the first `end`, when it is needed and occurs, does
/// not come before the end of the first `start`.
pub open spec fn string_between_defined(full: Seq<char>, start: Seq<char>, end: Seq<char>) -> bool {
    &&& find(full, start) is Some
    &&& (after_start_bytes(full, start) <= 1 || match find(full, end) {
        Some(e) => after_start(full, start) <= e,
        None => true,
    })
}

/// The text of `full` after the first `start` and up to the first `end` (to
/// the end of `full` when `end` does not occur); nothing when the first
/// `start` ends at byte 0 or 1 of `full`.
pub open spec fn string_between(full: Seq<char>, start: Seq<char>, end: Seq<char>) -> Option<
    Seq<char>,
> {
    let s = after_start(full, start);
    if after_start_bytes(full, start) <= 1 {
        None
    } else {
        match find(full, end) {
            None => Some(full.subrange(s, full.len() as int)),
            Some(e) => Some(full.subrange(s, e)),
        }
    }
}

/// The text between the markers is exactly what lies between them: `full` is
/// the text before the first `start`, `start`, the result, and (when `end`
/// occurs) the text from the first `end` on; the result is as long as the
/// distance from the end of the first `start` to the first `end`.
pub proof fn lemma_string_between_splits(full: Seq<char>, start: Seq<char>, end: Seq<char>)
    requires
        string_between_defined(full, start, end),
        after_start_bytes(full, start) > 1,
    ensures
        string_between(full, start, end) is Some,
        ({
            let p = find(full, start).unwrap();
            let r = string_between(full, start, end).unwrap();
            &&& occurs_at(full, start, p)
            &&& match find(full, end) {
                Some(e) => {
                    &&& occurs_at(full, end, e)
                    &&& r.len() == e - (p + start.len())
                    &&& full == full.subrange(0, p) + start + r + full.subrange(e, full.len() as int)
                },
                None => full == full.subrange(0, p) + start + r,
            }
        }),
{
    lemma_find_is_first_occurrence(full, start);
    lemma_find_is_first_occurrence(full, end);
    let p = find(full, start).unwrap();
    let r = string_between(full, start, end).unwrap();
    match find(full, end) {
        Some(e) => {
            assert(full =~= full.subrange(0, p) + start + r + full.subrange(e, full.len() as int));
        },
        None => {
            assert(full =~= full.subrange(0, p) + start + r);
        },
    }
}

/// Whether `get_string_between` can be called on these inputs.
pub fn string_between_is_defined(full_str: &str, start: &str, end: &str) -> (b: bool)
    ensures
        b == string_between_defined(full_str@, start@, end@),
{
    let full = chars_of(full_str);
    let st = chars_of(start);
    let en = chars_of(end);
    let n = full.len();
    proof {
        lemma_find_is_first_occurrence(full@, st@);
        lemma_find_is_first_occurrence(full@, en@);
    }
    match find_chars(&full, &st) {
        None => false,
        Some(p) => {
            let prefix_bytes = full_str.substring_char(0, p).as_bytes().len();
            let start_bytes = start.as_bytes().len();
            assert(p + st@.len() <= n);
            if (prefix_bytes == 0 && start_bytes <= 1) || (prefix_bytes == 1 && start_bytes == 0) {
                true
            } else {
                match find_chars(&full, &en) {
                    None => true,
                    Some(e) => p + st.len() <= e,
                }
            }
        },
    }
}

/// The text of `full_str` between the first `start` and the first `end`:
/// nothing when the first `start` ends at byte 0 or 1, the rest of the text
/// when `end` does not occur.
pub fn get_string_between(full_str: &str, start: &str, end: &str) -> (r: Option<String>)
    requires
        string_between_defined(full_str@, start@, end@),
    ensures
        text_option(r) == string_between(full_str@, start@, end@),
        after_start_bytes(full_str@, start@) > 1 ==> (r matches Some(t) && match find(
            full_str@,
            end@,
        ) {
            Some(e) => full_str@ == full_str@.subrange(0, find(full_str@, start@).unwrap())
                + start@ + t@ + full_str@.subrange(e, full_str@.len() as int),
            None => full_str@ == full_str@.subrange(0, find(full_str@, start@).unwrap()) + start@
                + t@,
        }),
{
    proof {
        if after_start_bytes(full_str@, start@) > 1 {
            lemma_string_between_splits(full_str@, start@, end@);
        }
    }
    let full = chars_of(full_str);
    let st = chars_of(start);
    let en = chars_of(end);
    let n = full.len();
    proof {
        lemma_find_is_first_occurrence(full@, st@);
        lemma_find_is_first_occurrence(full@, en@);
    }
    let p = match find_chars(&full, &st) {
        Some(p) => p,
        None => {
            return None;
        },
    };
    let prefix_bytes = full_str.substring_char(0, p).as_bytes().len();
    let start_bytes = start.as_bytes().len();
    assert(p + st@.len() <= n);
    let start_i = p + st.len();
    if (prefix_bytes == 0 && start_bytes <= 1) || (prefix_bytes == 1 && start_bytes == 0) {
        None
    } else {
        match find_chars(&full, &en) {
            None => Some(String::from_str(full_str.substring_char(start_i, full.len()))),
            Some(e) => Some(String::from_str(full_str.substring_char(start_i, e))),
        }
    }
}

// ---------------------------------------------------------------------------
// Column letters and A1 notation
// ---------------------------------------------------------------------------

/// The name of column `i` (`A` for 1 ... `ZZ` for 702), or an error for any
/// other number.
pub fn int_to_char_string(i: i32) -> (r: Result<String, GenericError>)
    ensures
        match r {
            Ok(s) => valid_column(i as int) && s@ == column_name(i as int) && is_column_letters(s@)
                && column_number(s@) == i,
            Err(e) => !valid_column(i as int) && e@ == "Error parsing int into alpha column"@,
        },
{
    if 1 <= i && i <= MAX_COLUMN {
        Ok(column_string(i))
    } else {
        Err(GenericError::new("Error parsing int into alpha column"))
    }
}

/// `tab` in single quotes, as a sheet name stands in a range.
pub open spec fn quoted(tab: Seq<char>) -> Seq<char> {
    "'"@ + tab + "'"@
}

/// The range in A1 notation for a tab and optional bounds: the whole tab, a
/// block of columns from a start row down, or a block with an end row. Other
/// combinations of bounds have no range.
pub open spec fn a1_notation(
    tab: Seq<char>,
    start_column: Option<i32>,
    start_row: Option<i32>,
    end_column: Option<i32>,
    end_row: Option<i32>,
) -> Option<Seq<char>> {
    match (start_column, start_row, end_column, end_row) {
        (None, None, None, None) => Some(quoted(tab)),
        (Some(sc), Some(sr), Some(ec), None) => Some(
            quoted(tab) + "!"@ + column_name(sc as int) + int_decimal(sr as int) + ":"@
                + column_name(ec as int),
        ),
        (Some(sc), Some(sr), Some(ec), Some(er)) => Some(
            quoted(tab) + "!"@ + column_name(sc as int) + int_decimal(sr as int) + ":"@
                + column_name(ec as int) + int_decimal(er as int),
        ),
        _ => None,
    }
}

/// The bounds for which `to_a1_notation` names columns have named columns.
pub open spec fn a1_columns_named(
    start_column: Option<i32>,
    start_row: Option<i32>,
    end_column: Option<i32>,
) -> bool {
    (start_column is Some && start_row is Some && end_column is Some) ==> (valid_column(
        start_column.unwrap() as int,
    ) && valid_column(end_column.unwrap() as int))
}

/// The message of the error for bounds that make no range.
pub open spec fn a1_error_text(
    tab: Seq<char>,
    start_column: Option<i32>,
    start_row: Option<i32>,
    end_column: Option<i32>,
    end_row: Option<i32>,
) -> Seq<char> {
    "Unable to parse to a1 notation -\n                                         \ntab:"@ + str_debug_text(tab) + "\n                                         \nstart_col: "@ + option_debug(start_column) + "\n                                         \nstart_row: "@ + option_debug(
        start_row,
    ) + "\n                                         \nend_column: "@ + option_debug(end_column) + "\n                                         \nend_row: "@ + option_debug(end_row)
}

/// A block's range reads back to its bounds: after the quoted tab and `!`
/// come one or two capitals that read back to the start column, the start
/// row in decimal, `:`, one or two capitals that read back to the end
/// column, and the end row in decimal when there is one.
pub proof fn lemma_a1_block_reads_back(
    tab: Seq<char>,
    start_column: i32,
    start_row: i32,
    end_column: i32,
    end_row: Option<i32>,
)
    requires
        valid_column(start_column as int),
        valid_column(end_column as int),
    ensures
        exists|l1: Seq<char>, l2: Seq<char>|
            #![trigger column_number(l1), column_number(l2)]
            {
                &&& is_column_letters(l1)
                &&& is_column_letters(l2)
                &&& column_number(l1) == start_column
                &&& column_number(l2) == end_column
                &&& a1_notation(tab, Some(start_column), Some(start_row), Some(end_column), end_row)
                    == Some(
                    quoted(tab) + "!"@ + l1 + int_decimal(start_row as int) + ":"@ + l2
                        + match end_row {
                        Some(er) => int_decimal(er as int),
                        None => Seq::<char>::empty(),
                    },
                )
            },
{
    let l1 = column_name(start_column as int);
    let l2 = column_name(end_column as int);
    lemma_column_name_reads_back(start_column as int);
    lemma_column_name_reads_back(end_column as int);
    let rest = match end_row {
        Some(er) => int_decimal(er as int),
        None => Seq::<char>::empty(),
    };
    assert(a1_notation(tab, Some(start_column), Some(start_row), Some(end_column), end_row)
        =~= Some(quoted(tab) + "!"@ + l1 + int_decimal(start_row as int) + ":"@ + l2 + rest));
    assert(column_number(l1) == start_column && column_number(l2) == end_column);
}

/// A block with an end row names the same range as the block without one,
/// followed by the end row's number.
pub proof fn lemma_end_row_extends_range(
    tab: Seq<char>,
    start_column: i32,
    start_row: i32,
    end_column: i32,
    end_row: i32,
)
    ensures
        a1_notation(tab, Some(start_column), Some(start_row), Some(end_column), Some(end_row))
            == Some(
            a1_notation(tab, Some(start_column), Some(start_row), Some(end_column), None).unwrap()
                + int_decimal(end_row as int),
        ),
{
}

/// Whether `to_a1_notation` can be called on these bounds.
pub fn a1_columns_are_named(
    start_column: Option<i32>,
    start_row: Option<i32>,
    end_column: Option<i32>,
) -> (b: bool)
    ensures
        b == a1_columns_named(start_column, start_row, end_column),
{
    match (start_column, start_row, end_column) {
        (Some(sc), Some(_), Some(ec)) => 1 <= sc && sc <= MAX_COLUMN && 1 <= ec && ec <= MAX_COLUMN,
        _ => true,
    }
}

/// Appends the name of column `c` to `s`.
fn append_column(s: &mut String, c: i32)
    requires
        valid_column(c as int),
    ensures
        final(s)@ == old(s)@ + column_name(c as int),
{
    match int_to_char_string(c) {
        Ok(name) => s.append(name.as_str()),
        Err(_) => {},
    }
}

/// Appends `n` in decimal to `s`.
fn append_decimal(s: &mut String, n: i32)
    ensures
        final(s)@ == old(s)@ + int_decimal(n as int),
{
    let d = i32_to_decimal(n);
    s.append(d.as_str());
}

/// The range in A1 notation for `tab` and the given bounds; an error that
/// lists the arguments when the bounds make no range.
pub fn to_a1_notation(
    tab: &str,
    start_column: Option<i32>,
    start_row: Option<i32>,
    end_column: Option<i32>,
    end_row: Option<i32>,
) -> (r: Result<String, GenericError>)
    requires
        a1_columns_named(start_column, start_row, end_column),
    ensures
        match r {
            Ok(s) => a1_notation(tab@, start_column, start_row, end_column, end_row) == Some(s@),
            Err(e) => a1_notation(tab@, start_column, start_row, end_column, end_row) is None
                && e@ == a1_error_text(tab@, start_column, start_row, end_column, end_row),
        },
{
    let mut a1 = String::from_str("'");
    a1.append(tab);
    a1.append("'");
    match (start_column, start_row, end_column, end_row) {
        (None, None, None, None) => Ok(a1),
        (Some(s_col), Some(s_row), Some(e_col), None) => {
            a1.append("!");
            append_column(&mut a1, s_col);
            append_decimal(&mut a1, s_row);
            a1.append(":");
            append_column(&mut a1, e_col);
            Ok(a1)
        },
        (Some(s_col), Some(s_row), Some(e_col), Some(e_row)) => {
            a1.append("!");
            append_column(&mut a1, s_col);
            append_decimal(&mut a1, s_row);
            a1.append(":");
            append_column(&mut a1, e_col);
            append_decimal(&mut a1, e_row);
            Ok(a1)
        },
        _ => {
            let mut msg = String::from_str("Unable to parse to a1 notation -\n                                         \ntab:");
            let t = debug_str(tab);
            msg.append(t.as_str());
            msg.append("\n                                         \nstart_col: ");
            let d = option_i32_debug(start_column);
            msg.append(d.as_str());
            msg.append("\n                                         \nstart_row: ");
            let d = option_i32_debug(start_row);
            msg.append(d.as_str());
            msg.append("\n                                         \nend_column: ");
            let d = option_i32_debug(end_column);
            msg.append(d.as_str());
            msg.append("\n                                         \nend_row: ");
            let d = option_i32_debug(end_row);
            msg.append(d.as_str());
            Err(GenericError::new(msg.as_str()))
        },
    }
}

// ---------------------------------------------------------------------------
// Connection
// ---------------------------------------------------------------------------

/// Where a sheet lives: its id and the file with the credentials to reach it.
pub struct Connection {
    /// The spreadsheet id, taken from the sheet's URL.
    pub sheet_id: Option<String>,
    /// The file that holds the connection's credentials.
    pub credentials_file: Option<String>,
}

/// The marker before a spreadsheet id in a sheet URL.
pub open spec fn id_prefix() -> Seq<char> {
    "/spreadsheets/d/"@
}

/// The marker after a spreadsheet id in a sheet URL.
pub open spec fn id_suffix() -> Seq<char> {
    "/edit"@
}

/// The spreadsheet id in a sheet URL: the text between the two markers.
pub open spec fn sheet_id_of_url(url: Seq<char>) -> Option<Seq<char>> {
    string_between(url, id_prefix(), id_suffix())
}

/// A sheet URL from which the spreadsheet id can be taken.
pub open spec fn sheet_url_defined(url: Seq<char>) -> bool {
    string_between_defined(url, id_prefix(), id_suffix())
}

/// Whether a spreadsheet id can be taken from `google_sheet_url`.
pub fn sheet_url_is_defined(google_sheet_url: &str) -> (b: bool)
    ensures
        b == sheet_url_defined(google_sheet_url@),
{
    string_between_is_defined(google_sheet_url, "/spreadsheets/d/", "/edit")
}

impl Connection {
    /// The connection for the credentials file that the settings name (the
    /// default `cred.json` when they name none) and for the sheet at
    /// `google_sheet_url`.
    pub fn new(credentials_file: Option<String>, google_sheet_url: &str) -> (c: Self)
        requires
            sheet_url_defined(google_sheet_url@),
        ensures
            text_option(c.sheet_id) == sheet_id_of_url(google_sheet_url@),
            text_option(c.credentials_file) == Some(
                match credentials_file {
                    Some(f) => f@,
                    None => "cred.json"@,
                },
            ),
    {
        let client_secret_file = match credentials_file {
            Some(file) => Some(file),
            None => Some(String::from_str("cred.json")),
        };
        let spreadsheet_id = get_string_between(google_sheet_url, "/spreadsheets/d/", "/edit");
        Connection { sheet_id: spreadsheet_id, credentials_file: client_secret_file }
    }
}

// ---------------------------------------------------------------------------
// Values to write
// ---------------------------------------------------------------------------

/// A block of values and the range that it covers, laid out by rows.
pub struct ValueRange {
    /// The range in A1 notation.
    pub range: Option<String>,
    /// The values, one vector per row.
    pub values: Option<Vec<Vec<String>>>,
    /// `ROWS`: the outer vector holds rows.
    pub major_dimension: Option<String>,
}

/// The values for `data` written over range `rng`: an empty range or an empty
/// block is left out, and the values are laid out by rows.
pub fn value_range_new(rng: &str, data: Vec<Vec<String>>) -> (v: ValueRange)
    ensures
        text_option(v.range) == nonempty(rng@),
        v.values == (if data@.len() > 0 {
            Some(data)
        } else {
            None
        }),
        text_option(v.major_dimension) == Some("ROWS"@),
{
    let range = if !rng.is_empty() {
        Some(String::from_str(rng))
    } else {
        None
    };
    let values = if data.len() > 0 {
        Some(data)
    } else {
        None
    };
    ValueRange { range, values, major_dimension: Some(String::from_str("ROWS")) }
}

/// A count as an `i32`, or 0 when it does not fit.
pub open spec fn count_as_i32(n: int) -> i32 {
    if n <= i32::MAX {
        n as i32
    } else {
        0
    }
}

/// The number of rows of `data` and the number of columns of its first row.
pub open spec fn row_col_size(data: Seq<Vec<String>>) -> (i32, i32) {
    (count_as_i32(data.len() as int), count_as_i32(data[0]@.len() as int))
}

/// The number of rows of `data` and the number of columns of its first row,
/// each 0 when it does not fit in an `i32`.
pub fn row_col_size_from_vec_vec(data: &Vec<Vec<String>>) -> (r: (i32, i32))
    requires
        data@.len() > 0,
    ensures
        r == row_col_size(data@),
{
    let row: i32 = if data.len() <= 2147483647 {
        data.len() as i32
    } else {
        0
    };
    let col: i32 = if data[0].len() <= 2147483647 {
        data[0].len() as i32
    } else {
        0
    };
    (row, col)
}

// ---------------------------------------------------------------------------
// Reader, writer, deleter
// ---------------------------------------------------------------------------

/// A request to read a block of a tab. Zero bounds and an empty tab name are
/// left open.
pub struct Reader<H> {
    /// The handle through which the sheet is reached.
    pub hub: H,
    pub sheet_id: String,
    pub tab_name: Option<String>,
    pub start_column: Option<i32>,
    pub start_row: Option<i32>,
    pub end_column: Option<i32>,
    pub end_row: Option<i32>,
}

impl<H> Reader<H> {
    /// A read of `tab` from the start to the end column and row; a zero bound
    /// is left open, as is an empty tab name.
    pub fn new(
        hub: H,
        sheet_id: &str,
        tab: &str,
        start_column: i32,
        start_row: i32,
        end_column: i32,
        end_row: i32,
    ) -> (r: Self)
        ensures
            r.hub == hub,
            r.sheet_id@ == sheet_id@,
            text_option(r.tab_name) == nonempty(tab@),
            r.start_column == nonzero(start_column),
            r.start_row == nonzero(start_row),
            r.end_column == nonzero(end_column),
            r.end_row == nonzero(end_row),
    {
        Reader {
            hub,
            sheet_id: String::from_str(sheet_id),
            tab_name: option_from_nonempty(tab),
            start_column: option_from_nonzero(start_column),
            start_row: option_from_nonzero(start_row),
            end_column: option_from_nonzero(end_column),
            end_row: option_from_nonzero(end_row),
        }
    }

    /// The range that the read covers, in A1 notation, or the error for bounds
    /// that make no range.
    pub fn read_range(&self) -> (r: Result<String, GenericError>)
        requires
            self.tab_name is Some,
            a1_columns_named(self.start_column, self.start_row, self.end_column),
        ensures
            match r {
                Ok(s) => a1_notation(
                    self.tab_name.unwrap()@,
                    self.start_column,
                    self.start_row,
                    self.end_column,
                    self.end_row,
                ) == Some(s@),
                Err(e) => a1_notation(
                    self.tab_name.unwrap()@,
                    self.start_column,
                    self.start_row,
                    self.end_column,
                    self.end_row,
                ) is None && e@ == a1_error_text(
                    self.tab_name.unwrap()@,
                    self.start_column,
                    self.start_row,
                    self.end_column,
                    self.end_row,
                ),
            },
    {
        let tab = self.tab_name.as_ref().unwrap();
        to_a1_notation(
            tab.as_str(),
            self.start_column,
            self.start_row,
            self.end_column,
            self.end_row,
        )
    }
}

/// The last row a write of `data` from `start_row` reaches.
pub open spec fn write_end_row(data: Seq<Vec<String>>, start_row: i32) -> int {
    row_col_size(data).0 + start_row - 1
}

/// The last column a write of `data` from `start_column` reaches.
pub open spec fn write_end_column(data: Seq<Vec<String>>, start_column: i32) -> int {
    row_col_size(data).1 + start_column - 1
}

/// The range that a write of `data` to `tab` from the start column and row
/// covers.
pub open spec fn write_range(
    tab: Seq<char>,
    start_column: i32,
    start_row: i32,
    data: Seq<Vec<String>>,
) -> Option<Seq<char>> {
    a1_notation(
        tab,
        nonzero(start_column),
        nonzero(start_row),
        nonzero(write_end_column(data, start_column) as i32),
        nonzero(write_end_row(data, start_row) as i32),
    )
}

/// A write's range spans exactly the data from the start cell: it ends at
/// the start column plus the number of values in the first row, less one,
/// and at the start row plus the number of rows, less one.
pub proof fn lemma_write_range_spans_data(
    tab: Seq<char>,
    start_column: i32,
    start_row: i32,
    data: Seq<Vec<String>>,
)
    requires
        data.len() > 0,
        data.len() <= i32::MAX,
        data[0]@.len() <= i32::MAX,
    ensures
        write_range(tab, start_column, start_row, data) == a1_notation(
            tab,
            nonzero(start_column),
            nonzero(start_row),
            nonzero((start_column + data[0]@.len() - 1) as i32),
            nonzero((start_row + data.len() - 1) as i32),
        ),
{
}

/// The writes that can be set up: `data` has a first row, the end row and
/// column fit in an `i32`, the columns have names, and the bounds make a range.
pub open spec fn write_defined(
    tab: Seq<char>,
    start_column: i32,
    start_row: i32,
    data: Seq<Vec<String>>,
) -> bool {
    &&& data.len() > 0
    &&& i32::MIN < start_row && write_end_row(data, start_row) <= i32::MAX
    &&& i32::MIN < start_column && write_end_column(data, start_column) <= i32::MAX
    &&& a1_columns_named(
        nonzero(start_column),
        nonzero(start_row),
        nonzero(write_end_column(data, start_column) as i32),
    )
    &&& write_range(tab, start_column, start_row, data) is Some
}

/// Whether a write of `data` to `tab` from the start column and row can be set
/// up.
pub fn write_is_defined(tab: &str, start_column: i32, start_row: i32, data: &Vec<Vec<String>>) -> (b:
    bool)
    ensures
        b == write_defined(tab@, start_column, start_row, data@),
{
    if data.len() == 0 || start_row == i32::MIN || start_column == i32::MIN {
        return false;
    }
    let (rows, cols) = row_col_size_from_vec_vec(data);
    if rows as i64 + start_row as i64 - 1 > i32::MAX as i64 || cols as i64 + start_column as i64 - 1
        > i32::MAX as i64 {
        return false;
    }
    let end_row = rows + (start_row - 1);
    let end_column = cols + (start_column - 1);
    let s_col = option_from_nonzero(start_column);
    let s_row = option_from_nonzero(start_row);
    let e_col = option_from_nonzero(end_column);
    let e_row = option_from_nonzero(end_row);
    if !a1_columns_are_named(s_col, s_row, e_col) {
        return false;
    }
    match (s_col, s_row, e_col, e_row) {
        (None, None, None, None) => true,
        (Some(_), Some(_), Some(_), _) => true,
        _ => false,
    }
}

/// A request to write a block of values to a tab.
pub struct Writer<H> {
    /// The handle through which the sheet is reached.
    pub hub: H,
    pub sheet_id: String,
    pub data: ValueRange,
    pub range: Option<String>,
    pub val_option: ValueOption,
}

impl<H> Writer<H> {
    /// A write of `data` to `tab` from the start column and row: the range
    /// ends where the data ends (rows and the first row's columns), a zero
    /// bound is left open, and the values are laid out by rows.
    pub fn new(
        hub: H,
        sheet_id: &str,
        tab: &str,
        start_column: i32,
        start_row: i32,
        data: Vec<Vec<String>>,
        val_opt: ValueOption,
    ) -> (w: Self)
        requires
            write_defined(tab@, start_column, start_row, data@),
        ensures
            w.hub == hub,
            w.sheet_id@ == sheet_id@,
            text_option(w.range) == write_range(tab@, start_column, start_row, data@),
            text_option(w.data.range) == write_range(tab@, start_column, start_row, data@),
            w.data.values == Some(data),
            text_option(w.data.major_dimension) == Some("ROWS"@),
            w.val_option == val_opt,
            data@.len() <= i32::MAX && data@[0]@.len() <= i32::MAX ==> text_option(w.range)
                == a1_notation(
                tab@,
                nonzero(start_column),
                nonzero(start_row),
                nonzero((start_column + data@[0]@.len() - 1) as i32),
                nonzero((start_row + data@.len() - 1) as i32),
            ),
    {
        let (rows, cols) = row_col_size_from_vec_vec(&data);
        let end_row = rows + (start_row - 1);
        let end_column = cols + (start_column - 1);
        let s_col = option_from_nonzero(start_column);
        let s_row = option_from_nonzero(start_row);
        let e_col = option_from_nonzero(end_column);
        let e_row = option_from_nonzero(end_row);
        let range_result = to_a1_notation(tab, s_col, s_row, e_col, e_row);
        // The bounds make a range (`write_defined`), so the error arm is never taken.
        let write_range = match range_result {
            Ok(r) => r,
            Err(_) => String::new(),
        };
        proof {
            reveal_strlit("'");
        }
        assert(write_range@.len() > 0);
        let values = value_range_new(write_range.as_str(), data);
        Writer {
            hub,
            sheet_id: String::from_str(sheet_id),
            data: values,
            range: Some(write_range),
            val_option: val_opt,
        }
    }
}

/// What a finished write reports: success, or the service's error message.
pub fn write_outcome(outcome: Result<(), String>) -> (r: Result<String, GenericError>)
    ensures
        match outcome {
            Ok(_) => r matches Ok(s) && s@ == "Write success"@,
            Err(m) => r matches Err(e) && e@ == m@,
        },
{
    match outcome {
        Ok(_) => Ok(String::from_str("Write success")),
        Err(m) => Err(GenericError::new(m.as_str())),
    }
}

/// A request to clear a block of a tab.
pub struct Deleter<H> {
    /// The handle through which the sheet is reached.
    pub hub: H,
    pub sheet_id: String,
    pub range: Option<String>,
}

impl<H> Deleter<H> {
    /// A clear of `tab` from the start to the end column and row; a zero bound
    /// is left open, and bounds that make no range leave the range unset.
    pub fn new(
        hub: H,
        sheet_id: &str,
        tab: &str,
        start_column: i32,
        start_row: i32,
        end_column: i32,
        end_row: i32,
    ) -> (d: Self)
        requires
            a1_columns_named(nonzero(start_column), nonzero(start_row), nonzero(end_column)),
        ensures
            d.hub == hub,
            d.sheet_id@ == sheet_id@,
            text_option(d.range) == a1_notation(
                tab@,
                nonzero(start_column),
                nonzero(start_row),
                nonzero(end_column),
                nonzero(end_row),
            ),
    {
        let s_col = option_from_nonzero(start_column);
        let s_row = option_from_nonzero(start_row);
        let e_col = option_from_nonzero(end_column);
        let e_row = option_from_nonzero(end_row);
        let range_result = to_a1_notation(tab, s_col, s_row, e_col, e_row);
        let delete_range = match range_result {
            Err(_) => None,
            Ok(r) => Some(r),
        };
        Deleter { hub, sheet_id: String::from_str(sheet_id), range: delete_range }
    }
}

/// What a finished clear reports: success, or the service's error message.
pub fn delete_outcome(outcome: Result<(), String>) -> (r: Result<String, GenericError>)
    ensures
        match outcome {
            Ok(_) => r matches Ok(s) && s@ == "Delete success"@,
            Err(m) => r matches Err(e) && e@ == m@,
        },
{
    match outcome {
        Ok(_) => Ok(String::from_str("Delete success")),
        Err(m) => Err(GenericError::new(m.as_str())),
    }
}

} // verus!
