//! Spreadsheet column letters: column 1 is `A`, 26 is `Z`, 27 is `AA`, and so
//! on (bijective base 26).
use vstd::prelude::*;

use crate::text::push_char;

verus! {

/// The highest column number that has a name here (`ZZ`).
pub const MAX_COLUMN: i32 = 702;

/// The `k`-th capital letter, counting `A` as 0.
pub open spec fn letter(k: int) -> char {
    ('A' as int + k) as char
}

/// The name of column `n` (`n >= 1`): bijective base 26 over `A`..`Z`.
pub open spec fn column_name(n: int) -> Seq<char>
    decreases n,
{
    if n <= 0 {
        Seq::empty()
    } else if n <= 26 {
        seq![letter(n - 1)]
    } else {
        column_name((n - 1) / 26).push(letter((n - 1) % 26))
    }
}

/// The column number that a name of capital letters stands for.
pub open spec fn column_number(name: Seq<char>) -> int
    decreases name.len(),
{
    if name.len() == 0 {
        0
    } else {
        column_number(name.drop_last()) * 26 + (name.last() as int - 'A' as int) + 1
    }
}

/// A column number that has a name here.
pub open spec fn valid_column(n: int) -> bool {
    1 <= n <= MAX_COLUMN
}

/// Reading a column's name back gives its number: `column_number` undoes
/// `column_name` for every column from 1 on.
pub proof fn lemma_column_name_roundtrip(n: int)
    requires
        n >= 1,
    ensures
        column_number(column_name(n)) == n,
    decreases n,
{
    if n > 26 {
        let q = (n - 1) / 26;
        let r = (n - 1) % 26;
        lemma_column_name_roundtrip(q);
        assert(column_name(n).drop_last() =~= column_name(q));
        assert(letter(r) as int == 'A' as int + r);
        assert(column_name(n).last() == letter(r));
        assert(q * 26 + r == n - 1);
    } else {
        assert(letter(n - 1) as int == 'A' as int + n - 1);
        assert(column_number(Seq::<char>::empty()) == 0);
        assert(seq![letter(n - 1)].drop_last() =~= Seq::<char>::empty());
    }
}

/// Distinct columns have distinct names.
pub proof fn lemma_column_name_injective(a: int, b: int)
    requires
        a >= 1,
        b >= 1,
        column_name(a) == column_name(b),
    ensures
        a == b,
{
    lemma_column_name_roundtrip(a);
    lemma_column_name_roundtrip(b);
}

/// Every named column's name has one or two letters, all capitals `A`..`Z`.
pub proof fn lemma_column_name_shape(n: int)
    requires
        valid_column(n),
    ensures
        1 <= column_name(n).len() <= 2,
        forall|i: int|
            0 <= i < column_name(n).len() ==> 'A' <= #[trigger] column_name(n)[i] <= 'Z',
{
    if n > 26 {
        let q = (n - 1) / 26;
        assert(1 <= q <= 26);
        assert(column_name(q) == seq![letter(q - 1)]);
    }
}

/// One or two capital letters: the form of every column name here.
pub open spec fn is_column_letters(s: Seq<char>) -> bool {
    &&& 1 <= s.len() <= 2
    &&& forall|i: int| 0 <= i < s.len() ==> 'A' <= #[trigger] s[i] <= 'Z'
}

/// Every named column's name is one or two capitals that read back to it.
pub proof fn lemma_column_name_reads_back(n: int)
    requires
        valid_column(n),
    ensures
        is_column_letters(column_name(n)),
        column_number(column_name(n)) == n,
{
    lemma_column_name_shape(n);
    lemma_column_name_roundtrip(n);
}

/// Column letters determine their column: two letter texts that read back to
/// the same number are the same text.
pub proof fn lemma_column_letters_unique(s: Seq<char>, t: Seq<char>)
    requires
        is_column_letters(s),
        is_column_letters(t),
        column_number(s) == column_number(t),
    ensures
        s == t,
{
    let e = Seq::<char>::empty();
    assert(column_number(e) == 0);
    if s.len() == 1 {
        assert(s.drop_last() =~= e);
    } else {
        assert(s.drop_last().drop_last() =~= e);
        assert(column_number(s.drop_last()) == s[0] as int - 'A' as int + 1);
    }
    if t.len() == 1 {
        assert(t.drop_last() =~= e);
    } else {
        assert(t.drop_last().drop_last() =~= e);
        assert(column_number(t.drop_last()) == t[0] as int - 'A' as int + 1);
    }
    assert('A' <= s[0] <= 'Z' && 'A' <= t[0] <= 'Z');
    assert('A' <= s.last() <= 'Z' && 'A' <= t.last() <= 'Z');
    assert(s.len() == t.len());
    assert(s =~= t);
}

/// The name of a named column is the one text of column letters that reads
/// back to it.
pub proof fn lemma_column_name_characterized(n: int, s: Seq<char>)
    requires
        valid_column(n),
        is_column_letters(s),
        column_number(s) == n,
    ensures
        s == column_name(n),
{
    lemma_column_name_reads_back(n);
    lemma_column_letters_unique(s, column_name(n));
}

/// The letter for a digit `0..26` of a column name.
fn letter_of(k: u8) -> (c: char)
    requires
        k < 26,
    ensures
        c == letter(k as int),
{
    (k + 65u8) as char
}

/// The name of column `n`.
pub fn column_string(n: i32) -> (s: String)
    requires
        valid_column(n as int),
    ensures
        s@ == column_name(n as int),
        is_column_letters(s@),
        column_number(s@) == n,
{
    proof {
        lemma_column_name_reads_back(n as int);
    }
    let mut s = String::new();
    if n <= 26 {
        push_char(&mut s, letter_of((n - 1) as u8));
    } else {
        let q = (n - 1) / 26;
        let r = (n - 1) % 26;
        assert(column_name(q as int) == seq![letter(q - 1)]);
        push_char(&mut s, letter_of((q - 1) as u8));
        push_char(&mut s, letter_of(r as u8));
    }
    assert(s@ =~= column_name(n as int));
    s
}

} // verus!
