//! The argument of the generator: one string literal, which names the schema
//! document. What counts as a string literal, and what one stands for, is
//! decided by the `litrs` crate.

use crate::text::text_view;
use vstd::prelude::*;

verus! {

/// What `litrs` reads from the source text of a token: the text that a string
/// literal stands for, and `None` where the token is no string literal.
pub uninterp spec fn string_literal_value(token: Seq<char>) -> Option<Seq<char>>;

/// The argument is missing or is no string literal.
#[derive(Debug, PartialEq, Eq)]
pub struct NotAStringLiteral {}

impl NotAStringLiteral {
    /// What to tell the author of the faulty call.
    pub fn message(&self) -> (message: &'static str)
        ensures
            message@ == "Only string literal can be received"@,
    {
        "Only string literal can be received"
    }
}

/// Calls `litrs::StringLit::parse` on `token` and, where that gives a
/// literal, `value` on it. Both read nothing but the characters of `token`,
/// so the outcome is named by [`string_literal_value`]; nothing else is
/// claimed of it.
#[verifier::external_body]
fn parse_string_literal(token: &str) -> (value: Option<String>)
    ensures
        text_view(value) == string_literal_value(token@),
{
    match litrs::StringLit::parse(token) {
        Ok(literal) => Some(literal.value().to_owned()),
        Err(_) => None,
    }
}

/// The text that the argument stands for, where `first_token` is the source
/// text of its first token and that token is a string literal.
pub fn get_string_literal(first_token: Option<&str>) -> (value: Result<String, NotAStringLiteral>)
    ensures
        match value {
            Ok(text) => first_token is Some && string_literal_value(first_token->0@) == Some(
                text@,
            ),
            Err(_) => first_token is None || string_literal_value(first_token->0@) is None,
        },
{
    match first_token {
        Some(token) => match parse_string_literal(token) {
            Some(text) => Ok(text),
            None => Err(NotAStringLiteral {}),
        },
        None => Err(NotAStringLiteral {}),
    }
}

} // verus!
