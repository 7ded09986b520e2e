//! Character-level string scanning, shared by the extractors and the query
//! builders. Everything here is stated over `Seq<char>` views.

use vstd::prelude::*;

verus! {

/// The literal `pat` occurs in `hay` starting at index `i`.
pub open spec fn occurs_at(hay: Seq<char>, pat: Seq<char>, i: int) -> bool {
    &&& 0 <= i
    &&& i + pat.len() <= hay.len()
    &&& hay.subrange(i, i + pat.len() as int) == pat
}

/// Check whether `pat` occurs in `hay` at character index `i`.
pub fn occurs_at_exec(hay: &str, pat: &str, i: usize) -> (r: bool)
    ensures
        r == occurs_at(hay@, pat@, i as int),
{
    let hay_len = hay.unicode_len();
    let pat_len = pat.unicode_len();
    if i > hay_len || pat_len > hay_len - i {
        proof {
            assert(!occurs_at(hay@, pat@, i as int));
        }
        return false;
    }
    let mut k: usize = 0;
    while k < pat_len
        invariant
            i + pat_len <= hay_len,
            hay_len == hay@.len(),
            pat_len == pat@.len(),
            k <= pat_len,
            forall|k2: int| 0 <= k2 < k ==> hay@[i + k2] == pat@[k2],
        decreases pat_len - k,
    {
        if hay.get_char(i + k) != pat.get_char(k) {
            proof {
                assert(hay@.subrange(i as int, i + pat@.len() as int)[k as int] != pat@[k as int]);
            }
            return false;
        }
        k += 1;
    }
    proof {
        assert(hay@.subrange(i as int, i + pat@.len() as int) =~= pat@);
    }
    true
}

/// First occurrence of `pat` in `hay` at or after `start`, if any.
pub open spec fn is_first_occurrence(hay: Seq<char>, pat: Seq<char>, start: int, m: int) -> bool {
    &&& start <= m
    &&& occurs_at(hay, pat, m)
    &&& forall|x: int| start <= x < m ==> !occurs_at(hay, pat, x)
}

/// Find the first occurrence of `pat` in `hay` at or after index `start`.
pub fn find_from(hay: &str, pat: &str, start: usize) -> (r: Option<usize>)
    requires
        pat@.len() > 0,
    ensures
        match r {
            Some(m) => is_first_occurrence(hay@, pat@, start as int, m as int),
            None => forall|x: int| start <= x ==> !occurs_at(hay@, pat@, x),
        },
{
    let hay_len = hay.unicode_len();
    let pat_len = pat.unicode_len();
    if pat_len > hay_len || start > hay_len - pat_len {
        return None;
    }
    let last = hay_len - pat_len;
    let mut i: usize = start;
    while i <= last
        invariant
            start <= i <= last + 1,
            last == hay@.len() - pat@.len(),
            pat@.len() > 0,
            hay_len == hay@.len(),
            forall|x: int| start <= x < i ==> !occurs_at(hay@, pat@, x),
        decreases last + 1 - i,
    {
        if occurs_at_exec(hay, pat, i) {
            return Some(i);
        }
        i += 1;
    }
    None
}

/// First occurrence of the character `c` in `hay` at or after `start`.
pub open spec fn is_first_char_at(hay: Seq<char>, c: char, start: int, m: int) -> bool {
    &&& start <= m < hay.len()
    &&& hay[m] == c
    &&& forall|x: int| start <= x < m ==> hay[x] != c
}

/// Find the first occurrence of the character `c` at or after index `start`.
pub fn find_char_from(hay: &str, c: char, start: usize) -> (r: Option<usize>)
    ensures
        match r {
            Some(m) => is_first_char_at(hay@, c, start as int, m as int),
            None => forall|x: int| start <= x < hay@.len() ==> hay@[x] != c,
        },
{
    let hay_len = hay.unicode_len();
    let mut i: usize = start;
    while i < hay_len
        invariant
            start <= i,
            hay_len == hay@.len(),
            forall|x: int| start <= x < i ==> hay@[x] != c,
        decreases hay_len - i,
    {
        if hay.get_char(i) == c {
            return Some(i);
        }
        i += 1;
    }
    None
}

/// `s` ends with the suffix `sfx`.
pub open spec fn ends_with(s: Seq<char>, sfx: Seq<char>) -> bool {
    &&& s.len() >= sfx.len()
    &&& s.subrange(s.len() - sfx.len(), s.len() as int) == sfx
}

/// Check whether `s` ends with `sfx`.
pub fn ends_with_exec(s: &str, sfx: &str) -> (r: bool)
    ensures
        r == ends_with(s@, sfx@),
{
    let s_len = s.unicode_len();
    let sfx_len = sfx.unicode_len();
    if sfx_len > s_len {
        return false;
    }
    occurs_at_exec(s, sfx, s_len - sfx_len)
}

/// ASCII letters and digits, the characters a DNS label is made of.
pub open spec fn is_alnum_char(c: char) -> bool {
    ('a' <= c && c <= 'z') || ('A' <= c && c <= 'Z') || ('0' <= c && c <= '9')
}

/// Check whether `c` is an ASCII letter or digit.
pub fn is_alnum_char_exec(c: char) -> (r: bool)
    ensures
        r == is_alnum_char(c),
{
    ('a' <= c && c <= 'z') || ('A' <= c && c <= 'Z') || ('0' <= c && c <= '9')
}

/// The whitespace characters a `\s` character class accepts.
pub open spec fn is_space_char(c: char) -> bool {
    c == ' ' || c == '\t' || c == '\n' || c == '\r' || c == '\u{b}' || c == '\u{c}'
}

/// Check whether `c` is a whitespace character.
pub fn is_space_char_exec(c: char) -> (r: bool)
    ensures
        r == is_space_char(c),
{
    c == ' ' || c == '\t' || c == '\n' || c == '\r' || c == '\u{b}' || c == '\u{c}'
}

/// Compare two string slices character by character.
pub fn str_eq(a: &str, b: &str) -> (r: bool)
    ensures
        r == (a@ == b@),
{
    let a_len = a.unicode_len();
    let b_len = b.unicode_len();
    if a_len != b_len {
        return false;
    }
    let r = occurs_at_exec(a, b, 0);
    proof {
        assert(a@.subrange(0, a@.len() as int) =~= a@);
    }
    r
}

/// `[i, j)` spans exactly one newline-delimited segment of `b`: it abuts a
/// newline (or an end) on both sides and holds none itself.
pub open spec fn is_line(b: Seq<char>, i: int, j: int) -> bool {
    &&& 0 <= i <= j <= b.len()
    &&& (i == 0 || b[i - 1] == '\n')
    &&& (j == b.len() || b[j] == '\n')
    &&& forall|k: int| i <= k < j ==> b[k] != '\n'
}

/// A segment's end is determined by its start.
pub proof fn lemma_line_end_unique(b: Seq<char>, i: int, j1: int, j2: int)
    requires
        is_line(b, i, j1),
        is_line(b, i, j2),
    ensures
        j1 == j2,
{
}

/// The decimal digit character for `d`, which must lie in `0..10`.
pub open spec fn dec_digit(d: int) -> char {
    if d == 0 {
        '0'
    } else if d == 1 {
        '1'
    } else if d == 2 {
        '2'
    } else if d == 3 {
        '3'
    } else if d == 4 {
        '4'
    } else if d == 5 {
        '5'
    } else if d == 6 {
        '6'
    } else if d == 7 {
        '7'
    } else if d == 8 {
        '8'
    } else {
        '9'
    }
}

/// The decimal rendering of `n`, without leading zeros (except for `n == 0`).
pub open spec fn dec_of(n: nat) -> Seq<char>
    decreases n,
{
    if n < 10 {
        seq![dec_digit(n as int)]
    } else {
        dec_of(n / 10).push(dec_digit((n % 10) as int))
    }
}

/// The decimal rendering of a possibly negative integer.
pub open spec fn dec_of_int(v: int) -> Seq<char> {
    if v < 0 {
        seq!['-'] + dec_of((-v) as nat)
    } else {
        dec_of(v as nat)
    }
}

/// A one-character string slice for the digit `d`.
fn digit_str(d: u64) -> (r: &'static str)
    requires
        d < 10,
    ensures
        r@ == seq![dec_digit(d as int)],
{
    proof {
        reveal_strlit("0");
        reveal_strlit("1");
        reveal_strlit("2");
        reveal_strlit("3");
        reveal_strlit("4");
        reveal_strlit("5");
        reveal_strlit("6");
        reveal_strlit("7");
        reveal_strlit("8");
        reveal_strlit("9");
    }
    match d {
        0 => "0",
        1 => "1",
        2 => "2",
        3 => "3",
        4 => "4",
        5 => "5",
        6 => "6",
        7 => "7",
        8 => "8",
        _ => "9",
    }
}

/// Render `n` in decimal.
pub fn dec_string_u64(n: u64) -> (s: String)
    ensures
        s@ == dec_of(n as nat),
    decreases n,
{
    if n < 10 {
        digit_str(n).to_owned()
    } else {
        let mut s = dec_string_u64(n / 10);
        s.append(digit_str(n % 10));
        proof {
            assert(s@ =~= dec_of((n / 10) as nat).push(dec_digit((n % 10) as int)));
        }
        s
    }
}

/// Render `n` in decimal.
pub fn dec_string_usize(n: usize) -> (s: String)
    ensures
        s@ == dec_of(n as nat),
{
    dec_string_u64(n as u64)
}

/// Render a possibly negative integer in decimal.
pub fn dec_string_i64(v: i64) -> (s: String)
    requires
        v > i64::MIN,
    ensures
        s@ == dec_of_int(v as int),
{
    if v < 0 {
        proof {
            reveal_strlit("-");
        }
        let mut s = String::from_str("-");
        s.append(dec_string_u64((-v) as u64).as_str());
        proof {
            assert(s@ =~= dec_of_int(v as int));
        }
        s
    } else {
        dec_string_u64(v as u64)
    }
}

} // verus!
