//! HTML sanitizing of user input.
use vstd::prelude::*;

verus! {

/// What `ammonia::clean` makes of a text: the HTML fragment with dangerous
/// tags, attributes and scripts removed.
pub uninterp spec fn ammonia_cleaned(input: Seq<char>) -> Seq<char>;

/// What an `ammonia::Builder::empty()` cleaner makes of a text: the fragment
/// with every tag removed.
pub uninterp spec fn ammonia_stripped(input: Seq<char>) -> Seq<char>;

/// Removes dangerous HTML tags and scripts (`ammonia::clean`). Its result is
/// named `ammonia_cleaned`; nothing more is stated of it.
#[verifier::external_body]
pub fn sanitize_html(input: &str) -> (s: String)
    ensures
        s@ == ammonia_cleaned(input@),
{
    ammonia::clean(input)
}

/// Removes every HTML tag (`ammonia::Builder::empty().clean(..)`, rendered to
/// a string). Its result is named `ammonia_stripped`; nothing more is stated of it.
#[verifier::external_body]
pub fn strip_html(input: &str) -> (s: String)
    ensures
        s@ == ammonia_stripped(input@),
{
    ammonia::Builder::empty().clean(input).to_string()
}

} // verus!
