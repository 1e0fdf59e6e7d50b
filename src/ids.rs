//! Identifiers of sessions and events.

use vstd::prelude::*;

verus! {

/// The placeholder session id that events carry until their session is stored.
pub const NIL_ID: &'static str = "00000000-0000-0000-0000-000000000000";

/// Relies on `uuid::Uuid::new_v4`: a fresh random identifier in its
/// hyphenated text form. Nothing is known of its value.
#[verifier::external_body]
pub(crate) fn new_id() -> (r: String) {
    uuid::Uuid::new_v4().to_string()
}

/// The placeholder session id.
pub fn nil_id() -> (r: String)
    ensures
        r@ == NIL_ID@,
{
    String::from_str(NIL_ID)
}

} // verus!
