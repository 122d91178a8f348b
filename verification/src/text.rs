//! Character-sequence helpers shared by the range builders: searching for a
//! pattern, decimal formatting of integers and building strings.
use vstd::prelude::*;

verus! {

/// `pat` occurs in `s` starting at character position `i`.
pub open spec fn occurs_at(s: Seq<char>, pat: Seq<char>, i: int) -> bool {
    0 <= i && i + pat.len() <= s.len() && s.subrange(i, i + pat.len()) == pat
}

/// Position of the first occurrence of `pat` in `s` at or after `from`.
pub open spec fn find_from(s: Seq<char>, pat: Seq<char>, from: int) -> Option<int>
    decreases s.len() + 1 - from,
{
    if from < 0 || from + pat.len() > s.len() {
        None
    } else if occurs_at(s, pat, from) {
        Some(from)
    } else {
        find_from(s, pat, from + 1)
    }
}

/// Position of the first occurrence of `pat` in `s`, as `str::find` gives it
/// (counted in characters).
pub open spec fn find(s: Seq<char>, pat: Seq<char>) -> Option<int> {
    find_from(s, pat, 0)
}

/// What `find_from` returns is an occurrence, and no earlier one exists.
pub proof fn lemma_find_from_first(s: Seq<char>, pat: Seq<char>, from: int)
    requires
        0 <= from,
    ensures
        match find_from(s, pat, from) {
            Some(k) => from <= k && occurs_at(s, pat, k) && forall|j: int|
                from <= j < k ==> !occurs_at(s, pat, j),
            None => forall|j: int| from <= j ==> !occurs_at(s, pat, j),
        },
    decreases s.len() + 1 - from,
{
    if from + pat.len() > s.len() {
    } else if occurs_at(s, pat, from) {
    } else {
        lemma_find_from_first(s, pat, from + 1);
    }
}

/// The first occurrence of a pattern: `find` returns the smallest position at
/// which `pat` occurs, and `None` exactly when it occurs nowhere.
pub proof fn lemma_find_is_first_occurrence(s: Seq<char>, pat: Seq<char>)
    ensures
        match find(s, pat) {
            Some(k) => occurs_at(s, pat, k) && forall|j: int| 0 <= j < k ==> !occurs_at(s, pat, j),
            None => forall|j: int| !occurs_at(s, pat, j),
        },
{
    lemma_find_from_first(s, pat, 0);
}

/// The characters of `s`, one by one.
pub fn chars_of(s: &str) -> (v: Vec<char>)
    ensures
        v@ == s@,
{
    let n = s.unicode_len();
    let mut v: Vec<char> = Vec::new();
    let mut i: usize = 0;
    while i < n
        invariant
            n == s@.len(),
            i <= n,
            v@ == s@.take(i as int),
        decreases n - i,
    {
        v.push(s.get_char(i));
        i = i + 1;
        assert(v@ =~= s@.take(i as int));
    }
    assert(s@.take(n as int) =~= s@);
    v
}

/// Whether `pat` occurs in `s` at position `i`, computed.
fn matches_at(s: &Vec<char>, pat: &Vec<char>, i: usize) -> (b: bool)
    requires
        i + pat@.len() <= s@.len(),
    ensures
        b == occurs_at(s@, pat@, i as int),
{
    let n = s.len();
    let m = pat.len();
    let mut j: usize = 0;
    while j < m
        invariant
            m == pat@.len(),
            n == s@.len(),
            i + m <= n,
            j <= m,
            forall|k: int| 0 <= k < j ==> s@[i + k] == pat@[k],
        decreases m - j,
    {
        if s[i + j] != pat[j] {
            assert(s@.subrange(i as int, i + m)[j as int] != pat@[j as int]);
            return false;
        }
        j = j + 1;
    }
    assert(s@.subrange(i as int, i + m) =~= pat@);
    true
}

/// The position of the first occurrence of `pat` in `s`.
pub fn find_chars(s: &Vec<char>, pat: &Vec<char>) -> (r: Option<usize>)
    ensures
        match r {
            Some(k) => find(s@, pat@) == Some(k as int),
            None => find(s@, pat@) is None,
        },
{
    let n = s.len();
    let m = pat.len();
    if m > n {
        return None;
    }
    let mut i: usize = 0;
    loop
        invariant
            n == s@.len(),
            m == pat@.len(),
            m <= n,
            i <= n - m,
            find(s@, pat@) == find_from(s@, pat@, i as int),
        decreases n - m - i,
    {
        if matches_at(s, pat, i) {
            return Some(i);
        }
        if i == n - m {
            assert(find_from(s@, pat@, i + 1) is None);
            return None;
        }
        i = i + 1;
    }
}

/// The character that shows decimal digit `d`.
pub open spec fn digit_char(d: int) -> char {
    ('0' as int + d) as char
}

/// Decimal digits of `n`, most significant first, without leading zeros.
pub open spec fn nat_decimal(n: nat) -> Seq<char>
    decreases n,
{
    if n < 10 {
        seq![digit_char(n as int)]
    } else {
        nat_decimal(n / 10).push(digit_char((n % 10) as int))
    }
}

/// `n` written in decimal, with a leading `-` when negative (what `i32`'s
/// `to_string` gives).
pub open spec fn int_decimal(n: int) -> Seq<char> {
    if n < 0 {
        seq!['-'] + nat_decimal((-n) as nat)
    } else {
        nat_decimal(n as nat)
    }
}

/// The number that a text of decimal digits stands for.
pub open spec fn decimal_value(digits: Seq<char>) -> int
    decreases digits.len(),
{
    if digits.len() == 0 {
        0
    } else {
        decimal_value(digits.drop_last()) * 10 + (digits.last() as int - '0' as int)
    }
}

/// Reading a number's decimal text back gives the number, and the text is made
/// of the digits `0`..`9` only.
pub proof fn lemma_nat_decimal_roundtrip(n: nat)
    ensures
        decimal_value(nat_decimal(n)) == n,
        forall|i: int|
            0 <= i < nat_decimal(n).len() ==> '0' <= #[trigger] nat_decimal(n)[i] <= '9',
    decreases n,
{
    if n >= 10 {
        lemma_nat_decimal_roundtrip(n / 10);
        assert(nat_decimal(n).drop_last() =~= nat_decimal(n / 10));
        assert(digit_char((n % 10) as int) as int == '0' as int + n % 10);
        assert((n / 10) * 10 + n % 10 == n);
    } else {
        assert(digit_char(n as int) as int == '0' as int + n);
        assert(seq![digit_char(n as int)].drop_last() =~= Seq::<char>::empty());
        assert(decimal_value(Seq::<char>::empty()) == 0);
    }
}

/// A number's decimal text has no leading zero: its first digit is `0` only
/// for the number 0, whose text is that one digit.
pub proof fn lemma_nat_decimal_no_leading_zero(n: nat)
    ensures
        nat_decimal(n).len() >= 1,
        nat_decimal(n)[0] == '0' ==> n == 0 && nat_decimal(n).len() == 1,
    decreases n,
{
    if n >= 10 {
        lemma_nat_decimal_no_leading_zero(n / 10);
        assert(nat_decimal(n)[0] == nat_decimal(n / 10)[0]);
    } else {
        assert(digit_char(n as int) as int == '0' as int + n);
    }
}

/// An integer's decimal text reads back to it: a negative number is `-`
/// followed by the digits of its magnitude, any other number its digits
/// alone, the digits being `0`..`9` without a leading zero.
pub proof fn lemma_int_decimal_reads_back(n: int)
    ensures
        n < 0 ==> int_decimal(n)[0] == '-' && decimal_value(int_decimal(n).drop_first()) == -n
            && int_decimal(n).drop_first() == nat_decimal((-n) as nat),
        n >= 0 ==> decimal_value(int_decimal(n)) == n && int_decimal(n) == nat_decimal(n as nat),
        forall|i: int|
            (if n < 0 { 1int } else { 0int }) <= i < int_decimal(n).len() ==> '0'
                <= #[trigger] int_decimal(n)[i] <= '9',
{
    let m: nat = if n < 0 { (-n) as nat } else { n as nat };
    lemma_nat_decimal_roundtrip(m);
    lemma_nat_decimal_no_leading_zero(m);
    if n < 0 {
        assert(int_decimal(n).drop_first() =~= nat_decimal(m));
        assert forall|i: int| 1 <= i < int_decimal(n).len() implies '0' <= #[trigger] int_decimal(
            n,
        )[i] <= '9' by {
            assert(int_decimal(n)[i] == nat_decimal(m)[i - 1]);
        }
    }
}

/// How `Option<i32>` is shown by `{:?}`.
pub open spec fn option_debug(o: Option<i32>) -> Seq<char> {
    match o {
        None => "None"@,
        Some(v) => "Some("@ + int_decimal(v as int) + ")"@,
    }
}

/// How a string slice is shown by `{:?}`: quoted, with escapes.
pub uninterp spec fn str_debug_text(s: Seq<char>) -> Seq<char>;

/// Appends one character to a string: `String::push`.
#[verifier::external_body]
pub(crate) fn push_char(s: &mut String, c: char)
    ensures
        final(s)@ == old(s)@.push(c),
{
    s.push(c);
}

/// The `{:?}` text of a string slice: `<str as Debug>::fmt` through `format!`.
/// Its result is named by `str_debug_text`, of which nothing more is claimed.
#[verifier::external_body]
pub(crate) fn debug_str(s: &str) -> (r: String)
    ensures
        r@ == str_debug_text(s@),
{
    format!("{:?}", s)
}

/// The character of a decimal digit.
fn digit(d: u32) -> (c: char)
    requires
        d < 10,
    ensures
        c == digit_char(d as int),
{
    ((d as u8) + 48u8) as char
}

/// `n` in decimal, as `n.to_string()` writes it.
pub fn i32_to_decimal(n: i32) -> (s: String)
    ensures
        s@ == int_decimal(n as int),
        n < 0 ==> s@[0] == '-' && decimal_value(s@.drop_first()) == -n,
        n >= 0 ==> decimal_value(s@) == n,
{
    proof {
        lemma_int_decimal_reads_back(n as int);
    }
    let neg = n < 0;
    let mut m: u32 = if neg {
        (0i64 - n as i64) as u32
    } else {
        n as u32
    };
    let ghost mag: nat = m as nat;
    assert(mag == if n < 0 { -n } else { n as int });
    let mut tail: Vec<char> = Vec::new();
    assert(nat_decimal(mag) =~= nat_decimal(m as nat) + tail@);
    while m >= 10
        invariant
            nat_decimal(mag) =~= nat_decimal(m as nat) + tail@,
        decreases m,
    {
        let c = digit(m % 10);
        assert(nat_decimal(m as nat) == nat_decimal((m / 10) as nat).push(c));
        tail.insert(0, c);
        m = m / 10;
    }
    let mut s = String::new();
    if neg {
        push_char(&mut s, '-');
    }
    push_char(&mut s, digit(m));
    let ghost head = s@;
    let mut i: usize = 0;
    while i < tail.len()
        invariant
            i <= tail@.len(),
            s@ == head + tail@.take(i as int),
        decreases tail@.len() - i,
    {
        push_char(&mut s, tail[i]);
        i = i + 1;
        assert(s@ =~= head + tail@.take(i as int));
    }
    assert(tail@.take(tail@.len() as int) =~= tail@);
    assert(s@ =~= int_decimal(n as int));
    s
}

/// `o` as `{:?}` shows it.
pub fn option_i32_debug(o: Option<i32>) -> (s: String)
    ensures
        s@ == option_debug(o),
{
    match o {
        None => String::from_str("None"),
        Some(v) => {
            let mut s = String::from_str("Some(");
            let digits = i32_to_decimal(v);
            s.append(digits.as_str());
            s.append(")");
            s
        },
    }
}

} // verus!
