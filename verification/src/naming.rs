//! Identifier casing: `PascalCase` for type names, `snake_case` for field
//! names. The word splitting and the casing are those of the `heck` crate.

use vstd::prelude::*;

verus! {

/// The `PascalCase` form that `heck` gives to a text.
pub uninterp spec fn pascal_case_of(text: Seq<char>) -> Seq<char>;

/// The `snake_case` form that `heck` gives to a text.
pub uninterp spec fn snake_case_of(text: Seq<char>) -> Seq<char>;

/// Calls `heck::AsPascalCase` on `s` and collects what it displays. That
/// conversion reads nothing but the characters of `s`, so its result is named
/// by [`pascal_case_of`]; nothing else is claimed of it.
#[verifier::external_body]
fn heck_pascal_case(s: &str) -> (converted: String)
    ensures
        converted@ == pascal_case_of(s@),
{
    heck::AsPascalCase(s).to_string()
}

/// Calls `heck::AsSnakeCase` on `s` and collects what it displays. That
/// conversion reads nothing but the characters of `s`, so its result is named
/// by [`snake_case_of`]; nothing else is claimed of it.
#[verifier::external_body]
fn heck_snake_case(s: &str) -> (converted: String)
    ensures
        converted@ == snake_case_of(s@),
{
    heck::AsSnakeCase(s).to_string()
}

/// The name of a type made from `s`: its words capitalised and joined.
pub fn as_pascal_case(s: &str) -> (name: String)
    ensures
        name@ == pascal_case_of(s@),
{
    heck_pascal_case(s)
}

/// The name of a field made from `s`: its words in lower case, joined by `_`.
pub fn as_snake_case(s: &str) -> (name: String)
    ensures
        name@ == snake_case_of(s@),
{
    heck_snake_case(s)
}

} // verus!
