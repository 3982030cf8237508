//! The graph driver's values as this library sees them: a statement with its
//! text and its parameters, and the driver's error, which is only passed on.

use neo4rs::Query;
use vstd::prelude::*;

verus! {

/// A statement of the driver, with its text and its parameters.
#[verifier::external_type_specification]
#[verifier::external_body]
pub struct ExQuery(Query);

/// An error of the driver.
#[verifier::external_type_specification]
#[verifier::external_body]
pub struct ExError(neo4rs::Error);

/// The text of a statement.
pub uninterp spec fn query_text(q: Query) -> Seq<char>;

/// The parameters of a statement that hold a string, by name.
pub uninterp spec fn query_texts(q: Query) -> Map<Seq<char>, Seq<char>>;

/// The parameters of a statement that hold an integer, by name.
pub uninterp spec fn query_ints(q: Query) -> Map<Seq<char>, int>;

/// No string bound to any name.
pub open spec fn no_texts() -> Map<Seq<char>, Seq<char>> {
    Map::empty()
}

/// No integer bound to any name.
pub open spec fn no_ints() -> Map<Seq<char>, int> {
    Map::empty()
}

/// `neo4rs::query`: a statement with the given text and no parameter.
#[verifier::external_body]
pub(crate) fn statement(text: &str) -> (q: Query)
    ensures
        query_text(q) == text@,
        query_texts(q) == no_texts(),
        query_ints(q) == no_ints(),
{
    neo4rs::query(text)
}

/// `Query::param` with a string: the statement keeps its text, the name is
/// bound to the string and to nothing else.
#[verifier::external_body]
pub(crate) fn bind_text(q: Query, name: &str, value: &str) -> (r: Query)
    ensures
        query_text(r) == query_text(q),
        query_texts(r) == query_texts(q).insert(name@, value@),
        query_ints(r) == query_ints(q).remove(name@),
{
    q.param(name, value)
}

/// `Query::param` with an `i32`: the statement keeps its text, the name is
/// bound to the integer and to nothing else.
#[verifier::external_body]
pub(crate) fn bind_int(q: Query, name: &str, value: i32) -> (r: Query)
    ensures
        query_text(r) == query_text(q),
        query_ints(r) == query_ints(q).insert(name@, value as int),
        query_texts(r) == query_texts(q).remove(name@),
{
    q.param(name, value)
}

} // verus!
