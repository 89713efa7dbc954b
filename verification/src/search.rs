//! Case-insensitive search shared by the search and the filter.

use vstd::prelude::*;
use vstd::utf8::is_ascii_chars;

use crate::text_buf::chars_of;

verus! {

/// The lowercase mapping of `text` by the Unicode tables, as `str::to_lowercase`
/// gives it.
pub uninterp spec fn lowercase_of(text: Seq<char>) -> Seq<char>;

/// `c` with an ASCII capital letter made small.
pub open spec fn ascii_lower_char(c: char) -> char {
    if 'A' <= c && c <= 'Z' {
        ((c as u32) + 32) as char
    } else {
        c
    }
}

/// `text` with every ASCII capital letter made small.
pub open spec fn ascii_lowercase(text: Seq<char>) -> Seq<char> {
    text.map_values(|c: char| ascii_lower_char(c))
}

/// Whether `needle` occurs in `haystack` as a run of consecutive characters.
pub open spec fn seq_contains(haystack: Seq<char>, needle: Seq<char>) -> bool {
    exists|i: int|
        0 <= i && i + needle.len() <= haystack.len() && #[trigger] haystack.subrange(
            i,
            i + needle.len(),
        ) == needle
}

/// `str::to_lowercase`: the lowercase mapping of `text`. On ASCII text it is
/// the ASCII lowercase mapping, which is what the Unicode tables give there.
#[verifier::external_body]
pub(crate) fn to_lowercase(text: &str) -> (lower: String)
    ensures
        lower@ == lowercase_of(text@),
        is_ascii_chars(text@) ==> lower@ == ascii_lowercase(text@),
{
    text.to_lowercase()
}

/// The character an ASCII capital letter's small one is.
fn lower_char(c: char) -> (l: char)
    ensures
        l == ascii_lower_char(c),
{
    if 'A' <= c && c <= 'Z' {
        let b = (c as u32 + 32) as u8;
        let l = crate::text::char_of_ascii(b);
        l
    } else {
        c
    }
}

/// `text` with its ASCII capitals made small.
fn lowered(text: &Vec<char>) -> (lower: Vec<char>)
    ensures
        lower@ == ascii_lowercase(text@),
{
    let mut lower: Vec<char> = Vec::new();
    let mut i: usize = 0;
    while i < text.len()
        invariant
            i <= text@.len(),
            lower@ == ascii_lowercase(text@.take(i as int)),
        decreases text@.len() - i,
    {
        let c = lower_char(text[i]);
        lower.push(c);
        i = i + 1;
        assert(lower@ =~= ascii_lowercase(text@.take(i as int)));
    }
    assert(text@.take(text@.len() as int) == text@);
    lower
}

/// Whether `needle` runs in `haystack` from `at`.
fn occurs_at(haystack: &Vec<char>, needle: &Vec<char>, at: usize) -> (b: bool)
    requires
        at + needle@.len() <= haystack@.len(),
    ensures
        b == (haystack@.subrange(at as int, at + needle@.len()) == needle@),
{
    let mut j: usize = 0;
    while j < needle.len()
        invariant
            at + needle@.len() <= haystack.len(),
            j <= needle@.len(),
            forall|k: int| 0 <= k < j ==> haystack@[at + k] == needle@[k],
        decreases needle@.len() - j,
    {
        if haystack[at + j] != needle[j] {
            assert(haystack@.subrange(at as int, at + needle@.len())[j as int] != needle@[j as int]);
            return false;
        }
        j = j + 1;
    }
    assert(haystack@.subrange(at as int, at + needle@.len()) =~= needle@);
    true
}

/// Whether `needle` occurs in `haystack`.
pub fn contains_chars(haystack: &Vec<char>, needle: &Vec<char>) -> (b: bool)
    ensures
        b == seq_contains(haystack@, needle@),
{
    if needle.len() > haystack.len() {
        return false;
    }
    let last = haystack.len() - needle.len();
    let mut i: usize = 0;
    while i <= last
        invariant
            last + needle@.len() == haystack@.len(),
            i <= last + 1,
            forall|k: int|
                0 <= k < i ==> #[trigger] haystack@.subrange(k, k + needle@.len()) != needle@,
        decreases last + 1 - i,
    {
        if occurs_at(haystack, needle, i) {
            return true;
        }
        if i == last {
            return false;
        }
        i = i + 1;
    }
    false
}

/// Case-insensitive `str::contains` shared by search and the filter, folding
/// ASCII text without the Unicode tables. `needle_lowercase` must already be
/// lowercased.
pub fn contains_ignore_case(haystack: &str, needle_lowercase: &str) -> (b: bool)
    ensures
        is_ascii_chars(haystack@) && is_ascii_chars(needle_lowercase@) ==> b == (
        needle_lowercase@.len() == 0 || seq_contains(
            ascii_lowercase(haystack@),
            ascii_lowercase(needle_lowercase@),
        )),
        !(is_ascii_chars(haystack@) && is_ascii_chars(needle_lowercase@)) ==> b == seq_contains(
            lowercase_of(haystack@),
            needle_lowercase@,
        ),
{
    let hay = chars_of(haystack);
    let needle = chars_of(needle_lowercase);
    if needle_lowercase.is_ascii() && haystack.is_ascii() {
        if needle.len() == 0 {
            return true;
        }
        return contains_chars(&lowered(&hay), &lowered(&needle));
    }
    let lower = to_lowercase(haystack);
    contains_chars(&chars_of(lower.as_str()), &needle)
}

/// Both ways of searching agree: on ASCII text with a needle already in
/// lowercase, the ASCII folding finds exactly what searching the Unicode
/// lowercase mapping finds.
pub proof fn ascii_search_agrees_with_lowercase(haystack: Seq<char>, needle: Seq<char>)
    requires
        is_ascii_chars(haystack),
        is_ascii_chars(needle),
        ascii_lowercase(needle) == needle,
        ascii_lowercase(haystack) == lowercase_of(haystack),
    ensures
        (needle.len() == 0 || seq_contains(ascii_lowercase(haystack), ascii_lowercase(needle)))
            == seq_contains(lowercase_of(haystack), needle),
{
    if needle.len() == 0 {
        let lower = lowercase_of(haystack);
        assert(lower.subrange(0, 0 + needle.len() as int) =~= needle);
        assert(seq_contains(lower, needle));
    }
}

} // verus!
