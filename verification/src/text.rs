//! Small verified helpers for comparing and building text.
use vstd::prelude::*;

verus! {

/// `c` is one of `a..z`, `A..Z`.
pub open spec fn is_ascii_letter(c: char) -> bool {
    ('a' <= c && c <= 'z') || ('A' <= c && c <= 'Z')
}

/// `c` is one of `0..9`.
pub open spec fn is_ascii_digit(c: char) -> bool {
    '0' <= c && c <= '9'
}

/// Whether two string slices hold the same characters.
pub fn str_eq(a: &str, b: &str) -> (r: bool)
    ensures
        r == (a@ == b@),
{
    let n = a.unicode_len();
    let m = b.unicode_len();
    if n != m {
        return false;
    }
    let mut i: usize = 0;
    while i < n
        invariant
            n == a@.len(),
            m == b@.len(),
            n == m,
            i <= n,
            forall|j: int| 0 <= j < i ==> a@[j] == b@[j],
        decreases n - i,
    {
        if a.get_char(i) != b.get_char(i) {
            assert(a@[i as int] != b@[i as int]);
            return false;
        }
        i = i + 1;
    }
    assert(a@ =~= b@);
    true
}

/// Appends one character to a string (`String::push`).
#[verifier::external_body]
pub(crate) fn push_char(s: &mut String, c: char)
    ensures
        final(s)@ == old(s)@.push(c),
{
    s.push(c);
}

/// `s` without the run of `c` at its end.
pub open spec fn without_trailing(s: Seq<char>, c: char) -> Seq<char>
    decreases s.len(),
{
    if s.len() > 0 && s.last() == c {
        without_trailing(s.drop_last(), c)
    } else {
        s
    }
}

/// A decimal's text without the zeros that end its fraction and without a
/// dot left over at the end: `2.5000` becomes `2.5`, `3.000` becomes `3`.
pub open spec fn trimmed_decimal(s: Seq<char>) -> Seq<char> {
    without_trailing(without_trailing(s, '0'), '.')
}

fn end_without(s: &str, end: usize, c: char) -> (r: usize)
    requires
        end <= s@.len(),
    ensures
        r <= end,
        without_trailing(s@.subrange(0, end as int), c) == s@.subrange(0, r as int),
{
    let mut e = end;
    while e > 0 && s.get_char(e - 1) == c
        invariant
            e <= end <= s@.len(),
            without_trailing(s@.subrange(0, end as int), c) == without_trailing(s@.subrange(0, e as int), c),
        decreases e,
    {
        assert(s@.subrange(0, e as int).drop_last() =~= s@.subrange(0, e - 1));
        e = e - 1;
    }
    e
}

/// Trims a decimal's text as [`trimmed_decimal`] says.
pub fn trim_decimal(s: &str) -> (r: String)
    ensures
        r@ == trimmed_decimal(s@),
{
    let n = s.unicode_len();
    assert(s@.subrange(0, n as int) =~= s@);
    let e = end_without(s, n, '0');
    let f = end_without(s, e, '.');
    String::from_str(s.substring_char(0, f))
}

} // verus!
