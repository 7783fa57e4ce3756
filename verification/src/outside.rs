//! The calls into `syn` and `heck` that the logic makes, each with what it
//! is taken to compute.
use vstd::prelude::*;

verus! {

/// Whether `syn` reads the whole text as one identifier: keywords, `_`
/// and anything that is not exactly one identifier token are refused.
pub uninterp spec fn ident_text_ok(text: Seq<char>) -> bool;

/// Whether `syn` reads the whole text as one type.
pub uninterp spec fn type_text_ok(text: Seq<char>) -> bool;

/// Whether `syn` reads the whole text as one visibility.
pub uninterp spec fn visibility_text_ok(text: Seq<char>) -> bool;

/// Whether `syn` reads the whole text as one integer literal (a minus
/// sign before the digits included).
pub uninterp spec fn lit_int_text_ok(text: Seq<char>) -> bool;

/// What `LitInt::base10_parse::<usize>` gives for the integer literal that
/// `syn` reads from `text`: its value, or nothing when its digits make no
/// `usize` (a minus sign, or a value too large).
pub uninterp spec fn lit_int_value(text: Seq<char>) -> Option<usize>;

/// The message of the error that `syn` gives when it reads the text as an
/// identifier; empty when it reads one.
pub uninterp spec fn ident_error_text(text: Seq<char>) -> Seq<char>;

/// The message of the error that `syn` gives when it reads the text as an
/// integer literal and takes its value as a `usize`; empty when both
/// succeed.
pub uninterp spec fn lit_int_error_text(text: Seq<char>) -> Seq<char>;

/// What `heck` makes of the text in snake case.
pub uninterp spec fn snake_case_text(text: Seq<char>) -> Seq<char>;

/// Calls `syn::parse_str::<syn::Ident>` and reports whether it succeeded.
/// Nothing is stated of which texts succeed; the answer depends on the
/// text alone.
#[verifier::external_body]
pub fn parses_as_ident(text: &str) -> (r: bool)
    ensures
        r == ident_text_ok(text@),
{
    syn::parse_str::<syn::Ident>(text).is_ok()
}

/// Calls `syn::parse_str::<syn::Type>` on the characters and reports
/// whether it succeeded.
#[verifier::external_body]
pub fn parses_as_type(text: &Vec<char>) -> (r: bool)
    ensures
        r == type_text_ok(text@),
{
    let text: String = text.iter().collect();
    syn::parse_str::<syn::Type>(&text).is_ok()
}

/// Calls `syn::parse_str::<syn::Visibility>` on the characters and
/// reports whether it succeeded.
#[verifier::external_body]
pub fn parses_as_visibility(text: &Vec<char>) -> (r: bool)
    ensures
        r == visibility_text_ok(text@),
{
    let text: String = text.iter().collect();
    syn::parse_str::<syn::Visibility>(&text).is_ok()
}

/// Reads `text` with `syn::parse_str::<syn::LitInt>` (`None` when that
/// fails) and, when it succeeds, takes its value with
/// `LitInt::base10_parse::<usize>` (`Some(None)` when that fails).
#[verifier::external_body]
pub fn parse_lit_int(text: &str) -> (r: Option<Option<usize>>)
    ensures
        r == (if lit_int_text_ok(text@) {
            Some(lit_int_value(text@))
        } else {
            None::<Option<usize>>
        }),
{
    match syn::parse_str::<syn::LitInt>(text) {
        Ok(lit) => Some(lit.base10_parse::<usize>().ok()),
        Err(_) => None,
    }
}

/// Calls `syn::parse_str::<syn::Ident>` and gives the message of its
/// error, or an empty text when it succeeds.
#[verifier::external_body]
pub fn ident_error(text: &str) -> (r: String)
    ensures
        r@ == ident_error_text(text@),
{
    match syn::parse_str::<syn::Ident>(text) {
        Ok(_) => String::new(),
        Err(e) => e.to_string(),
    }
}

/// Calls `syn::parse_str::<syn::LitInt>` and then
/// `LitInt::base10_parse::<usize>`, and gives the message of the error of
/// the first that fails, or an empty text when both succeed.
#[verifier::external_body]
pub fn lit_int_error(text: &str) -> (r: String)
    ensures
        r@ == lit_int_error_text(text@),
{
    match syn::parse_str::<syn::LitInt>(text) {
        Ok(lit) => match lit.base10_parse::<usize>() {
            Ok(_) => String::new(),
            Err(e) => e.to_string(),
        },
        Err(e) => e.to_string(),
    }
}

/// Calls `heck::ToSnakeCase::to_snake_case` on the text.
#[verifier::external_body]
pub fn to_snake_case(text: &str) -> (r: String)
    ensures
        r@ == snake_case_text(text@),
{
    heck::ToSnakeCase::to_snake_case(text)
}

} // verus!
