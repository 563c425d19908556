//! The one question that this library puts to `syn`: whether a text can stand
//! as a predicate of a where clause.

use vstd::prelude::*;

verus! {

/// `syn::Error`, carried from the parser to [`error_words`] and not looked
/// into.
#[verifier::external_type_specification]
#[verifier::external_body]
pub struct ExSynError(syn::Error);

/// Calls `syn::parse_str::<syn::WherePredicate>` on `text` and drops the
/// predicate that it may give: `Ok` where `syn` parsed the text, else the
/// error that it gave.
///
/// Nothing is claimed of the answer, and so nothing is proved from it: `syn`
/// leaves the lexing to `proc_macro2`, which uses the compiler's lexer inside
/// a procedural macro and its own elsewhere, so one text need not get one
/// answer in both places. Either way a text that cannot be lexed comes back
/// as an error.
#[verifier::external_body]
fn parse_clause(text: &str) -> (r: Result<(), syn::Error>) {
    match syn::parse_str::<syn::WherePredicate>(text) {
        Ok(_) => Ok(()),
        Err(e) => Err(e),
    }
}

/// Calls `to_string` on a `syn::Error`, which gives the message of the error
/// as `syn` displays it. Nothing is claimed of the message.
#[verifier::external_body]
fn error_words(e: &syn::Error) -> (r: String) {
    e.to_string()
}

/// The parser's verdict on a clause: `None` where it can stand as a predicate
/// of a where clause, else the parser's words.
pub(crate) fn clause_fault(text: &str) -> (r: Option<String>) {
    match parse_clause(text) {
        Ok(_) => None,
        Err(e) => Some(error_words(&e)),
    }
}

} // verus!
