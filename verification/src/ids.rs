//! Identifiers.
use vstd::prelude::*;

verus! {

/// Whether `uuid::Uuid::parse_str` accepts a text.
pub uninterp spec fn parses_as_uuid(text: Seq<char>) -> bool;

/// `uuid::Uuid::parse_str` accepts the textual forms of a UUID.
#[verifier::external_body]
pub(crate) fn is_uuid(text: &str) -> (r: bool)
    ensures
        r == parses_as_uuid(text@),
{
    uuid::Uuid::parse_str(text).is_ok()
}

/// `uuid::Uuid::new_v4` makes a random identifier, here in its hyphenated form of
/// thirty-six characters, which `uuid::Uuid::parse_str` accepts. Which one it makes is up to
/// chance, so nothing more is said of it.
#[verifier::external_body]
fn random_uuid() -> (r: String)
    ensures
        r@.len() == 36,
        parses_as_uuid(r@),
{
    uuid::Uuid::new_v4().to_string()
}

/// A fresh identifier for a request, a task or a session.
pub fn fresh_id() -> (r: String)
    ensures
        r@.len() == 36,
        parses_as_uuid(r@),
{
    random_uuid()
}

} // verus!
