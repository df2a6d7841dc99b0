//! The instruction text that a translation call sends to the service.

use vstd::prelude::*;
use vstd::string::StringExecFns;

use crate::outside::{trim_text, trimmed};

verus! {

/// The name under which the input's format enters the prompt, given the
/// format as the caller wrote it with surrounding whitespace removed: the
/// format itself, or `auto` where nothing is left of it.
pub open spec fn format_token(trimmed_format: Seq<char>) -> Seq<char> {
    if trimmed_format.len() == 0 {
        "auto"@
    } else {
        trimmed_format
    }
}

/// The full prompt for the given format token, target format and input.
pub open spec fn prompt_text(token: Seq<char>, output_format: Seq<char>, input: Seq<char>) -> Seq<char> {
    "Translate this input of format "@ + token + " to format "@ + output_format
        + ". Don't explain anything, be concise, write only the translation.\nInput:\n"@ + input
}

/// The format token for an input format that has already been trimmed.
pub fn format_token_of(trimmed_format: &str) -> (r: String)
    ensures
        r@ == format_token(trimmed_format@),
{
    if trimmed_format.is_empty() {
        String::from_str("auto")
    } else {
        String::from_str(trimmed_format)
    }
}

/// The format token for an input format as the caller wrote it.
pub fn input_format_token(input_format: &str) -> (r: String)
    ensures
        r@ == format_token(trimmed(input_format@)),
{
    format_token_of(trim_text(input_format))
}

/// The prompt for an input format that has already been trimmed.
pub fn prompt_from_trimmed(trimmed_format: &str, output_format: &str, input: &str) -> (r: String)
    ensures
        r@ == prompt_text(format_token(trimmed_format@), output_format@, input@),
{
    let token = format_token_of(trimmed_format);
    let mut p = String::from_str("Translate this input of format ");
    p.append(token.as_str());
    p.append(" to format ");
    p.append(output_format);
    p.append(". Don't explain anything, be concise, write only the translation.\nInput:\n");
    p.append(input);
    p
}

/// The prompt that asks the service to translate `input` from
/// `input_format` (trimmed; `auto` where blank) to `output_format`.
pub fn build_prompt(input_format: &str, output_format: &str, input: &str) -> (r: String)
    ensures
        r@ == prompt_text(format_token(trimmed(input_format@)), output_format@, input@),
{
    prompt_from_trimmed(trim_text(input_format), output_format, input)
}

} // verus!
