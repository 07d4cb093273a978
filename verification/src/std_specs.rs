use vstd::prelude::*;

verus! {

/// What `char::is_alphabetic` returns for `c`: whether Unicode gives the
/// character the `Alphabetic` property.
pub uninterp spec fn is_alphabetic(c: char) -> bool;

/// What `char::is_alphanumeric` returns for `c`: whether the character is
/// alphabetic or numeric in Unicode.
pub uninterp spec fn is_alphanumeric(c: char) -> bool;

/// What `char::is_whitespace` returns for `c`: whether Unicode gives the
/// character the `White_Space` property.
pub uninterp spec fn is_whitespace(c: char) -> bool;

/// What `str::to_uppercase` returns for a string of the characters `s`: its
/// upper case equivalent by the Unicode case mappings.
pub uninterp spec fn to_uppercase(s: Seq<char>) -> Seq<char>;

/// `char::is_alphabetic`. The answer depends on the character alone and is
/// read from the Unicode tables of the standard library; the contract only
/// names it.
#[verifier::external_body]
pub(crate) fn char_is_alphabetic(c: char) -> (b: bool)
    ensures
        b == is_alphabetic(c),
{
    c.is_alphabetic()
}

/// `char::is_alphanumeric`. The answer depends on the character alone and
/// is read from the Unicode tables of the standard library; the contract
/// only names it.
#[verifier::external_body]
pub(crate) fn char_is_alphanumeric(c: char) -> (b: bool)
    ensures
        b == is_alphanumeric(c),
{
    c.is_alphanumeric()
}

/// `char::is_whitespace`. The answer depends on the character alone and is
/// read from the Unicode tables of the standard library; the contract only
/// names it.
#[verifier::external_body]
pub(crate) fn char_is_whitespace(c: char) -> (b: bool)
    ensures
        b == is_whitespace(c),
{
    c.is_whitespace()
}

/// `str::to_uppercase`. The new string depends on the characters of `s`
/// alone; the contract only names it.
#[verifier::external_body]
pub(crate) fn str_to_uppercase(s: &str) -> (upper: String)
    ensures
        upper@ == to_uppercase(s@),
{
    s.to_uppercase()
}

/// `String::push`: appends `c` to the end of `s`.
#[verifier::external_body]
pub(crate) fn string_push(s: &mut String, c: char)
    ensures
        final(s)@ == old(s)@.push(c),
{
    s.push(c)
}

} // verus!
