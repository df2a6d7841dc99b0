//! The outside items that the library relies on, with the contracts it
//! assumes of them.

use vstd::prelude::*;

verus! {

/// The serialisation of the absolute URL that `url::Url::parse` reads from
/// `s`, or `None` where `s` is not a valid absolute URL.
pub uninterp spec fn parsed_url(s: Seq<char>) -> Option<Seq<char>>;

#[verifier::external_type_specification]
#[verifier::external_body]
pub struct ExParseError(url::ParseError);

#[verifier::external_type_specification]
#[verifier::external_body]
pub struct ExOllamaError(ollama_rs::error::OllamaError);

#[verifier::external_type_specification]
#[verifier::external_body]
pub struct ExGenerationResponse(ollama_rs::generation::completion::GenerationResponse);

/// Relies on `url::Url::parse`, whose result depends on its input alone, and
/// on `String::from(Url)`, which hands out the parsed URL's serialisation.
#[verifier::external_body]
pub(crate) fn parse_url(s: &str) -> (r: Result<String, url::ParseError>)
    ensures
        match r {
            Ok(a) => parsed_url(s@) == Some(a@),
            Err(_) => parsed_url(s@) is None,
        },
{
    url::Url::parse(s).map(String::from)
}

/// What `str::trim` leaves of `s`: `s` without its leading and trailing
/// whitespace.
pub uninterp spec fn trimmed(s: Seq<char>) -> Seq<char>;

/// Relies on `str::trim`, whose result depends on the characters of `s`
/// alone; an empty text stays empty.
#[verifier::external_body]
pub(crate) fn trim_text(s: &str) -> (r: &str)
    ensures
        r@ == trimmed(s@),
        s@.len() == 0 ==> r@.len() == 0,
{
    s.trim()
}

} // verus!
