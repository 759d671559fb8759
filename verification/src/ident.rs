//! Reading an identifier out of the text of a string literal.

use vstd::prelude::*;

verus! {

/// Calls `syn::parse_str::<syn::Ident>`, which turns `text` into tokens and
/// accepts them where they are exactly one identifier that is neither a
/// keyword nor `_`, and hands back the spelling of that identifier. Nothing
/// is claimed of the outcome: which lexer turns the text into tokens depends
/// on the process that runs, so the same text need not read the same twice.
#[verifier::external_body]
pub(crate) fn parse_ident(text: &str) -> Option<String> {
    match syn::parse_str::<syn::Ident>(text) {
        Ok(ident) => Some(ident.to_string()),
        Err(_) => None,
    }
}

} // verus!
