//! Helpers for sequences of strings, shared by the whole crate.
//!
//! Identifiers (step ids, trigger ids, workflow ids) are plain strings, and
//! most contracts speak of membership of an id in a list of ids.  The spec
//! predicate [`seq_has_str`] is the single notion of membership used for
//! that, so that callers and lemmas all agree on one trigger shape.

use vstd::prelude::*;

use vstd::string::StrSliceExecFns;

verus! {

/// The whitespace characters a trimmed name would drop: space, tab
/// and the two line ends.
pub open spec fn blank_char(c: char) -> bool {
    c == ' ' || c == '\t' || c == '\n' || c == '\r'
}

/// True iff the text is empty or holds only whitespace.
pub open spec fn blank_text(s: Seq<char>) -> bool {
    forall|i: int| 0 <= i < s.len() ==> blank_char(#[trigger] s[i])
}

/// Whether a string is empty or holds only whitespace.
pub fn is_blank_string(s: &String) -> (r: bool)
    ensures
        r == blank_text(s@),
{
    let n = s.as_str().unicode_len();
    let mut i: usize = 0;
    while i < n
        invariant
            n == s@.len(),
            i <= n,
            forall|j: int| 0 <= j < i ==> blank_char(#[trigger] s@[j]),
        decreases n - i,
    {
        let c = s.as_str().get_char(i);
        if !(c == ' ' || c == '\t' || c == '\n' || c == '\r') {
            return false;
        }
        i = i + 1;
    }
    true
}


/// True iff `part` occurs contiguously inside `s`.
pub open spec fn text_has_part(s: Seq<char>, part: Seq<char>) -> bool {
    exists|k: int|
        0 <= k && k + part.len() <= s.len() && #[trigger] s.subrange(k, k + part.len() as int)
            == part
}

/// Whether `part` occurs at position `k` of `s`.
fn text_matches_at(s: &String, k: usize, part: &String) -> (r: bool)
    requires
        k + part@.len() <= s@.len(),
    ensures
        r == (s@.subrange(k as int, k as int + part@.len() as int) == part@),
{
    let n = s.as_str().unicode_len();
    let m = part.as_str().unicode_len();
    let mut j: usize = 0;
    while j < m
        invariant
            n == s@.len(),
            m == part@.len(),
            k + m <= n,
            j <= m,
            forall|jj: int| 0 <= jj < j ==> s@[k + jj] == #[trigger] part@[jj],
        decreases m - j,
    {
        let a = s.as_str().get_char(k + j);
        let b = part.as_str().get_char(j);
        if !(a == b) {
            let ghost jj = j as int;
            assert(s@.subrange(k as int, k as int + part@.len() as int)[jj] != part@[jj]);
            return false;
        }
        j = j + 1;
    }
    assert(s@.subrange(k as int, k as int + part@.len() as int) =~= part@);
    true
}

/// Substring test: whether `part` occurs anywhere inside `s`.
pub fn string_has_part(s: &String, part: &String) -> (r: bool)
    ensures
        r == text_has_part(s@, part@),
{
    let n = s.as_str().unicode_len();
    let m = part.as_str().unicode_len();
    if m == 0 {
        assert(text_has_part(s@, part@)) by {
            assert(s@.subrange(0, 0 + part@.len() as int) =~= part@);
        }
        return true;
    }
    if m > n {
        return false;
    }
    let mut k: usize = 0;
    while k <= n - m
        invariant
            n == s@.len(),
            m == part@.len(),
            1 <= m <= n,
            k <= n - m + 1,
            forall|kk: int|
                0 <= kk < k ==> #[trigger] s@.subrange(kk, kk + part@.len() as int) != part@,
        decreases n - m - k + 1,
    {
        if text_matches_at(s, k, part) {
            return true;
        }
        k = k + 1;
    }
    false
}

/// The characters of each string in a sequence.
pub open spec fn strs_view(items: Seq<String>) -> Seq<Seq<char>> {
    items.map_values(|s: String| s@)
}

/// True iff some element of `items` is exactly the text `text`.
pub open spec fn seq_has_text(items: Seq<Seq<char>>, text: Seq<char>) -> bool {
    exists|i: int| 0 <= i < items.len() && #[trigger] items[i] == text
}

/// True iff some element of `items` has exactly the characters `text`.
pub open spec fn seq_has_str(items: Seq<String>, text: Seq<char>) -> bool {
    seq_has_text(strs_view(items), text)
}

/// Character-wise equality of two strings.
pub fn str_eq(a: &String, b: &String) -> (r: bool)
    ensures
        r == (a@ == b@),
{
    <String as PartialEq>::eq(a, b)
}

/// Membership test for a string in a slice of strings.
pub fn slice_contains_string(items: &[String], needle: &String) -> (r: bool)
    ensures
        r == seq_has_text(strs_view(items@), needle@),
{
    let mut i: usize = 0;
    while i < items.len()
        invariant
            i <= items@.len(),
            forall|j: int| 0 <= j < i ==> #[trigger] items@[j]@ != needle@,
        decreases items@.len() - i,
    {
        if str_eq(&items[i], needle) {
            assert(strs_view(items@)[i as int] == needle@);
            return true;
        }
        i = i + 1;
    }
    assert forall|j: int| 0 <= j < strs_view(items@).len() implies #[trigger] strs_view(items@)[j]
        != needle@ by {
        assert(items@[j]@ != needle@);
    }
    return false;
}

/// Membership test for a string in a vector of strings.
pub fn contains_string(items: &Vec<String>, needle: &String) -> (r: bool)
    ensures
        r == seq_has_str(items@, needle@),
{
    let mut i: usize = 0;
    while i < items.len()
        invariant
            i <= items@.len(),
            forall|j: int| 0 <= j < i ==> #[trigger] items@[j]@ != needle@,
        decreases items@.len() - i,
    {
        if str_eq(&items[i], needle) {
            assert(strs_view(items@)[i as int] == needle@);
            return true;
        }
        i = i + 1;
    }
    assert forall|j: int| 0 <= j < strs_view(items@).len() implies #[trigger] strs_view(items@)[j]
        != needle@ by {
        assert(items@[j]@ != needle@);
    }
    return false;
}

} // verus!
