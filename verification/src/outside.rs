use vstd::prelude::*;
use vstd::utf8::{decode_utf8, valid_utf8};

verus! {

/// `String::push`: the string grows by the one character at its end; the contract claims
/// exactly that of the text.
#[verifier::external_body]
pub(crate) fn push_char(s: &mut String, c: char)
    ensures
        final(s)@ == old(s)@.push(c),
{
    s.push(c)
}

/// `String::from_utf8`: gives the text that the bytes encode when they are valid UTF-8,
/// and fails when they are not; the contract claims both, over vstd's definition of UTF-8.
#[verifier::external_body]
pub(crate) fn text_from_utf8(bytes: Vec<u8>) -> (res: Option<String>)
    ensures
        res is Some <==> valid_utf8(bytes@),
        res matches Some(s) ==> s@ == decode_utf8(bytes@),
{
    String::from_utf8(bytes).ok()
}

} // verus!

verus! {

/// A file system path; the library carries it and reads nothing inside it.
#[verifier::external_type_specification]
#[verifier::external_body]
pub struct ExPathBuf(std::path::PathBuf);

/// What the regular expression `pattern` captures in its first group on its leftmost
/// match in `text`, or `None` when the pattern is not valid, does not match, or the group
/// takes no part in the match.
pub uninterp spec fn regex_first_group(pattern: Seq<char>, text: Seq<char>) -> Option<Seq<char>>;

/// `regex::Regex::new` followed by `Regex::captures` and `Captures::get(1)`: the text
/// of the first capture group. The contract names that result, and claims only that a
/// group's text is a piece of `text`, since a capture is a slice of the haystack.
#[verifier::external_body]
pub(crate) fn first_group(pattern: &str, text: &str) -> (res: Option<String>)
    ensures
        match res {
            Some(g) => regex_first_group(pattern@, text@) == Some(g@) && crate::text::has_infix(
                text@,
                g@,
            ),
            None => regex_first_group(pattern@, text@) is None,
        },
{
    regex::Regex::new(pattern).ok().and_then(|re| re.captures(text)).and_then(|c| c.get(1)).map(
        |m| m.as_str().to_owned(),
    )
}

/// Whether `code` is one of the ISO 3166-1 alpha-2 codes that `isocountry` knows.
pub uninterp spec fn iso_alpha2_known(code: Seq<char>) -> bool;

/// `isocountry::CountryCode::for_alpha2`: succeeds exactly on the two-letter codes that
/// its table lists, compared as they are written (all of them two upper-case ASCII
/// letters); the contract names the answer and claims that shape.
#[verifier::external_body]
pub(crate) fn is_iso_alpha2(code: &str) -> (known: bool)
    ensures
        known == iso_alpha2_known(code@),
        known ==> code@.len() == 2 && forall|i: int|
            0 <= i < 2 ==> 'A' <= #[trigger] code@[i] && code@[i] <= 'Z',
{
    isocountry::CountryCode::for_alpha2(code).is_ok()
}

} // verus!
