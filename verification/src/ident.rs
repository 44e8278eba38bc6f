//! Identifiers of jobs and workers: 128-bit values, written as UUIDs.

use vstd::prelude::*;
use uuid::Uuid;

verus! {

/// The identifier that a text denotes, if it denotes one: what
/// `uuid::Uuid::parse_str` reads from it, as a 128-bit number.
pub uninterp spec fn id_of_text(text: Seq<char>) -> Option<u128>;

/// The canonical text of an identifier: what `uuid::Uuid` displays for it.
pub uninterp spec fn text_of_id(id: u128) -> Seq<char>;

/// Calls `uuid::Uuid::new_v4` and hands back its 128 bits. The value is
/// random, so nothing is claimed of it.
#[verifier::external_body]
pub(crate) fn random_id() -> (id: u128) {
    Uuid::new_v4().as_u128()
}

/// Calls `uuid::Uuid::parse_str`. Claimed: the outcome is a function of the
/// text alone, named [`id_of_text`]; a text that is refused gives `None`.
#[verifier::external_body]
pub(crate) fn parse_id(text: &str) -> (r: Option<u128>)
    ensures
        r == id_of_text(text@),
{
    match Uuid::parse_str(text) {
        Ok(uuid) => Some(uuid.as_u128()),
        Err(_) => None,
    }
}

/// Calls `to_string` on the `uuid::Uuid` of the given bits. Claimed: the
/// text is a function of the identifier alone, named [`text_of_id`].
#[verifier::external_body]
pub(crate) fn format_id(id: u128) -> (s: String)
    ensures
        s@ == text_of_id(id),
{
    Uuid::from_u128(id).to_string()
}

} // verus!
