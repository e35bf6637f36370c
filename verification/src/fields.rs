//! Reading one named child of a node as a value: look the child up, take its
//! text, convert it.

use crate::parsable::{Failure, ParsingError};
use crate::text::text_view;
use crate::time::{Date, Timestamp};
use crate::traversable::{
    bool_in, child_of, date_in, gives, timestamp_in, u16_in, u8_in, Traversable,
};
use crate::tree::{first_named, lemma_first_named_is_kid, Tree};
use vstd::prelude::*;

verus! {

/// The text of the child `name`.
pub open spec fn text_of(t: Tree, name: Seq<char>) -> Result<Seq<char>, Failure> {
    match child_of(t, name) {
        Ok(c) => Ok(c.text),
        Err(e) => Err(e),
    }
}

/// The child `name` read as an instant.
pub open spec fn timestamp_of(t: Tree, name: Seq<char>) -> Result<Timestamp, Failure> {
    match child_of(t, name) {
        Ok(c) => timestamp_in(c),
        Err(e) => Err(e),
    }
}

/// The child `name` read as a date.
pub open spec fn date_of(t: Tree, name: Seq<char>) -> Result<Date, Failure> {
    match child_of(t, name) {
        Ok(c) => date_in(c),
        Err(e) => Err(e),
    }
}

/// The child `name` read as a number of sixteen bits.
pub open spec fn u16_of(t: Tree, name: Seq<char>) -> Result<u16, Failure> {
    match child_of(t, name) {
        Ok(c) => u16_in(c),
        Err(e) => Err(e),
    }
}

/// The child `name` read as a number of eight bits.
pub open spec fn u8_of(t: Tree, name: Seq<char>) -> Result<u8, Failure> {
    match child_of(t, name) {
        Ok(c) => u8_in(c),
        Err(e) => Err(e),
    }
}

/// The child `name` read as a truth value; `default` where there is no such
/// child.
pub open spec fn flag_of(t: Tree, name: Seq<char>, default: bool) -> Result<bool, Failure> {
    match first_named(t.kids, name) {
        Some(c) => bool_in(c),
        None => Ok(default),
    }
}

/// What is left of an outcome once its failure is discarded.
pub open spec fn optional<T>(outcome: Result<T, Failure>) -> Option<T> {
    match outcome {
        Ok(v) => Some(v),
        Err(_) => None,
    }
}

/// The failure of an outcome, if it is one.
pub open spec fn failure_of<T>(outcome: Result<T, Failure>) -> Option<Failure> {
    match outcome {
        Ok(_) => None,
        Err(e) => Some(e),
    }
}

/// Whether a result that holds a string is the given outcome.
pub open spec fn gives_text(r: Result<String, ParsingError>, outcome: Result<Seq<char>, Failure>) -> bool {
    match r {
        Ok(v) => outcome == Ok::<Seq<char>, Failure>(v@),
        Err(e) => outcome == Err::<Seq<char>, Failure>(e@),
    }
}

/// The failure of the child `name` whose text, `found`, is not of the kind
/// `expected`.
pub open spec fn invalid(name: Seq<char>, expected: Seq<char>, found: Seq<char>) -> Failure {
    Failure::InvalidField { field: name, expected, found }
}

/// A child that is there and cannot be converted fails under its own name,
/// with the kind that was expected and the text that was found.
pub proof fn lemma_invalid_field_names_the_child(t: Tree, name: Seq<char>, found: Seq<char>)
    requires
        text_of(t, name) == Ok::<Seq<char>, Failure>(found),
    ensures
        timestamp_of(t, name) matches Err(e) ==> e == invalid(name, "timestamp"@, found),
        date_of(t, name) matches Err(e) ==> e == invalid(name, "date"@, found),
        u16_of(t, name) matches Err(e) ==> e == invalid(name, "u16"@, found),
        u8_of(t, name) matches Err(e) ==> e == invalid(name, "u8"@, found),
        forall|default: bool|
            #[trigger] flag_of(t, name, default) matches Err(e) ==> e == invalid(
                name,
                "bool"@,
                found,
            ),
{
    lemma_first_named_is_kid(t.kids, name);
}

/// A child that is not there fails every required reading with
/// `MissingField(name)`, and leaves a truth value at its default.
pub proof fn lemma_missing_field_names_the_child(t: Tree, name: Seq<char>)
    requires
        first_named(t.kids, name) is None,
    ensures
        text_of(t, name) == Err::<Seq<char>, Failure>(Failure::MissingField(name)),
        timestamp_of(t, name) == Err::<Timestamp, Failure>(Failure::MissingField(name)),
        date_of(t, name) == Err::<Date, Failure>(Failure::MissingField(name)),
        u16_of(t, name) == Err::<u16, Failure>(Failure::MissingField(name)),
        u8_of(t, name) == Err::<u8, Failure>(Failure::MissingField(name)),
        forall|default: bool| #[trigger] flag_of(t, name, default) == Ok::<bool, Failure>(default),
{
}

/// The text of the child `name`, or `MissingField(name)`.
pub fn require_text<T: Traversable>(node: &T, name: &str) -> (r: Result<String, ParsingError>)
    ensures
        gives_text(r, text_of(node.tree(), name@)),
{
    match node.child(name) {
        Ok(c) => Ok(c.get_text()),
        Err(e) => Err(e),
    }
}

/// The child `name` as an instant under RFC 3339; `MissingField(name)` where
/// there is no such child, `InvalidField` where its text is no instant.
pub fn require_timestamp<T: Traversable>(node: &T, name: &str) -> (r: Result<
    Timestamp,
    ParsingError,
>)
    ensures
        gives(r, timestamp_of(node.tree(), name@)),
{
    match node.child(name) {
        Ok(c) => c.get_time(),
        Err(e) => Err(e),
    }
}

/// The child `name` as a date written year, month, day; `MissingField(name)`
/// where there is no such child, `InvalidField` where its text is no date.
pub fn require_date<T: Traversable>(node: &T, name: &str) -> (r: Result<Date, ParsingError>)
    ensures
        gives(r, date_of(node.tree(), name@)),
{
    match node.child(name) {
        Ok(c) => c.get_date(),
        Err(e) => Err(e),
    }
}

/// The child `name` as a number of sixteen bits.
pub fn require_u16<T: Traversable>(node: &T, name: &str) -> (r: Result<u16, ParsingError>)
    ensures
        gives(r, u16_of(node.tree(), name@)),
{
    match node.child(name) {
        Ok(c) => c.get_u16(),
        Err(e) => Err(e),
    }
}

/// The child `name` as a number of eight bits.
pub fn require_u8<T: Traversable>(node: &T, name: &str) -> (r: Result<u8, ParsingError>)
    ensures
        gives(r, u8_of(node.tree(), name@)),
{
    match node.child(name) {
        Ok(c) => c.get_u8(),
        Err(e) => Err(e),
    }
}

/// The child `name` as a truth value. A child that is present must hold
/// exactly `true` or `false`; where there is none the answer is `default`.
pub fn optional_bool<T: Traversable>(node: &T, name: &str, default: bool) -> (r: Result<
    bool,
    ParsingError,
>)
    ensures
        gives(r, flag_of(node.tree(), name@, default)),
{
    match node.child(name) {
        Ok(c) => c.get_bool(),
        Err(_) => Ok(default),
    }
}

/// The text of the child `name`, where there is such a child.
pub fn optional_text<T: Traversable>(node: &T, name: &str) -> (r: Option<String>)
    ensures
        text_view(r) == optional(text_of(node.tree(), name@)),
{
    match node.child(name) {
        Ok(c) => Some(c.get_text()),
        Err(_) => None,
    }
}

/// The child `name` as an instant, where there is such a child and its text
/// is one.
pub fn optional_timestamp<T: Traversable>(node: &T, name: &str) -> (r: Option<Timestamp>)
    ensures
        r == optional(timestamp_of(node.tree(), name@)),
{
    match require_timestamp(node, name) {
        Ok(v) => Some(v),
        Err(_) => None,
    }
}

} // verus!
