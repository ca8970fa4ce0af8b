//! Identifier casing.
//!
//! Every identifier that ends up in generated source goes through one of the
//! two conversions here, so that one source name always yields the same
//! identifier wherever it is used.

use vstd::prelude::*;

verus! {

/// The upper camel case form (`WordsLikeThis`) of `name`, as `heck` computes
/// it.
pub uninterp spec fn camel_case(name: Seq<char>) -> Seq<char>;

/// The snake case form (`words_like_this`) of `name`, as `heck` computes it.
pub uninterp spec fn snake_case(name: Seq<char>) -> Seq<char>;

/// Calls `heck::CamelCase::to_camel_case` on `name`.
///
/// The conversion splits the text into words and joins them capitalised; it
/// reads nothing but its argument, so the result is [`camel_case`] of the
/// argument. Nothing else is claimed of it.
#[verifier::external_body]
pub(crate) fn to_camel_case(name: &str) -> (r: String)
    ensures
        r@ == camel_case(name@),
{
    heck::CamelCase::to_camel_case(name)
}

/// Calls `heck::SnakeCase::to_snake_case` on `name`.
///
/// The conversion splits the text into words and joins them in lower case
/// with underscores; it reads nothing but its argument, so the result is
/// [`snake_case`] of the argument. Nothing else is claimed of it.
#[verifier::external_body]
pub(crate) fn to_snake_case(name: &str) -> (r: String)
    ensures
        r@ == snake_case(name@),
{
    heck::SnakeCase::to_snake_case(name)
}

} // verus!
