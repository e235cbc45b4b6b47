//! The errors that handlers raise, as far as the library reads them.

use vstd::prelude::*;

verus! {

/// `anyhow::Error`, the error that handlers return.
#[verifier::external_type_specification]
#[verifier::external_body]
pub struct ExError(anyhow::Error);

/// The text that an error shows when it is formatted with `{}`.
pub uninterp spec fn error_text(e: anyhow::Error) -> Seq<char>;

/// `ToString::to_string` on an `anyhow::Error`, which formats the error it holds with that
/// error's own `Display`: the result is the text that `error_text` names. It is taken
/// that the `Display` of the error held writes the same text each time and does not fail.
#[verifier::external_body]
pub(crate) fn describe(e: &anyhow::Error) -> (text: String)
    ensures
        text@ == error_text(*e),
{
    e.to_string()
}

/// `anyhow::Error::msg`: an error that holds `message` and shows it, unchanged, as its
/// text.
#[verifier::external_body]
pub(crate) fn error_of(message: String) -> (e: anyhow::Error)
    ensures
        error_text(e) == message@,
{
    anyhow::Error::msg(message)
}

} // verus!
