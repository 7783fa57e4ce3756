//! Names of generated methods.
use vstd::prelude::*;
use crate::outside::{ident_text_ok, parses_as_ident};

verus! {

/// The name under which `name` can stand as an identifier: itself when it
/// already is one, else its raw form `r#name`.
pub open spec fn spec_adjust_keyword_ident(name: Seq<char>) -> Seq<char> {
    if ident_text_ok(name) {
        name
    } else {
        "r#"@ + name
    }
}

/// Keeps an identifier as it is and turns anything else (a keyword) into
/// a raw identifier.
pub fn adjust_keyword_ident(name: String) -> (r: String)
    ensures
        r@ == spec_adjust_keyword_ident(name@),
{
    if parses_as_ident(name.as_str()) {
        return name;
    }
    let prefix = String::from_str("r#");
    prefix.concat(name.as_str())
}

/// Adjusting a name twice changes nothing more, wherever the first
/// adjustment gave an identifier that `syn` accepts: an accepted
/// identifier is kept as it is.
pub proof fn law_adjust_keyword_ident_idempotent(name: Seq<char>)
    ensures
        ident_text_ok(name) ==> spec_adjust_keyword_ident(name) == name,
        ident_text_ok(spec_adjust_keyword_ident(name)) ==> spec_adjust_keyword_ident(
            spec_adjust_keyword_ident(name),
        ) == spec_adjust_keyword_ident(name),
{
}

} // verus!
