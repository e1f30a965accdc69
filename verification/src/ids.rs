//! Document ids, backed by the `uuid` crate.
//!
//! Inside the library an id is its 128-bit value, so that ordering and
//! equality are plain integer facts; the uuid crate supplies generation,
//! the canonical hyphenated text form, and parsing of that form.

use vstd::prelude::*;

verus! {

/// A document id: the 128-bit value of a UUID.
pub type DocId = u128;

/// The hyphenated text form of the UUID whose 128-bit value is `id`,
/// as `uuid::fmt::Hyphenated` renders it.
pub uninterp spec fn id_text_of(id: DocId) -> Seq<char>;

/// What `uuid::Uuid::parse_str` accepts: `Some` of the 128-bit value on
/// the texts it parses, `None` on the rest.
pub uninterp spec fn parsed_id_of(s: Seq<char>) -> Option<DocId>;

/// Relies on `uuid::Uuid::new_v4`: a random id. Nothing is promised of
/// the value; callers must check it against the ids already in use.
#[verifier::external_body]
pub fn fresh_id() -> DocId {
    uuid::Uuid::new_v4().as_u128()
}

/// Relies on `uuid::fmt::Hyphenated` (via `ToString`): the canonical
/// 36-character lowercase hyphenated form, a function of the id alone,
/// which `uuid::Uuid::parse_str` parses back to the same id.
#[verifier::external_body]
pub fn id_text(id: DocId) -> (r: String)
    ensures
        r@ == id_text_of(id),
        r@.len() == 36,
        parsed_id_of(r@) == Some(id),
{
    uuid::Uuid::from_u128(id).hyphenated().to_string()
}

/// Relies on `uuid::Uuid::parse_str`: the result depends on the text
/// alone, and is the id's 128-bit value exactly on the texts it accepts.
#[verifier::external_body]
pub fn parse_id(s: &str) -> (r: Option<DocId>)
    ensures
        r == parsed_id_of(s@),
{
    match uuid::Uuid::parse_str(s) {
        Ok(u) => Some(u.as_u128()),
        Err(_) => None,
    }
}

} // verus!
