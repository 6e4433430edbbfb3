//! Character-sequence predicates and the trusted string primitives they are
//! checked against.

use vstd::prelude::*;

verus! {

/// True iff `needle` occurs in `hay` as a contiguous run of characters.
pub open spec fn contains_substr(hay: Seq<char>, needle: Seq<char>) -> bool {
    exists|i: int|
        0 <= i && i + needle.len() <= hay.len() && #[trigger] hay.subrange(i, i + needle.len())
            == needle
}

/// The Unicode lowercase form of a character sequence, as
/// `str::to_lowercase` computes it.
pub uninterp spec fn lower_of(s: Seq<char>) -> Seq<char>;

/// Relies on `str::to_lowercase`: the result is a function of the input
/// characters alone, and an empty string stays empty.
#[verifier::external_body]
pub(crate) fn to_lowercase(s: &str) -> (r: String)
    ensures
        r@ == lower_of(s@),
        s@.len() == 0 ==> r@.len() == 0,
{
    s.to_lowercase()
}

/// Relies on `str::contains` with a `&str` pattern: true iff the pattern
/// occurs as a substring (matches on byte level align with character
/// boundaries because UTF-8 is self-synchronizing).
#[verifier::external_body]
pub(crate) fn str_contains(hay: &str, needle: &str) -> (r: bool)
    ensures
        r == contains_substr(hay@, needle@),
{
    hay.contains(needle)
}

/// Relies on `str::eq`: two string slices are equal iff their characters are.
#[verifier::external_body]
pub(crate) fn str_eq(a: &str, b: &str) -> (r: bool)
    ensures
        r == (a@ == b@),
{
    a == b
}

/// A name as the filter predicate sees it: lowercased when case is ignored,
/// untouched otherwise.
pub open spec fn normalized(s: Seq<char>, ignore_case: bool) -> Seq<char> {
    if ignore_case {
        lower_of(s)
    } else {
        s
    }
}

/// A character sequence with its surrounding whitespace removed, as
/// `str::trim` computes it.
pub uninterp spec fn trim_of(s: Seq<char>) -> Seq<char>;

/// Relies on `str::trim`: the result is a function of the input characters
/// alone.
#[verifier::external_body]
pub(crate) fn trim(s: &str) -> (r: &str)
    ensures
        r@ == trim_of(s@),
{
    s.trim()
}

/// Relies on `String::push`: appends one character at the end.
#[verifier::external_body]
pub(crate) fn push_char(s: &mut String, c: char)
    ensures
        final(s)@ == old(s)@.push(c),
{
    s.push(c);
}

/// Relies on `String::pop`: removes and returns the last character, or
/// returns `None` when the string is empty.
#[verifier::external_body]
pub(crate) fn pop_char(s: &mut String) -> (r: Option<char>)
    ensures
        old(s)@.len() == 0 ==> final(s)@ == old(s)@ && r is None,
        old(s)@.len() > 0 ==> final(s)@ == old(s)@.drop_last() && r == Some(old(s)@.last()),
{
    s.pop()
}

/// The empty sequence is a substring of every sequence.
pub proof fn lemma_contains_empty(hay: Seq<char>)
    ensures
        contains_substr(hay, Seq::<char>::empty()),
{
    let needle = Seq::<char>::empty();
    assert(hay.subrange(0, 0 + needle.len() as int) =~= needle);
}

/// Every sequence contains itself: equality is a special case of containment.
pub proof fn lemma_contains_self(s: Seq<char>)
    ensures
        contains_substr(s, s),
{
    assert(s.subrange(0, 0 + s.len() as int) =~= s);
}

} // verus!
