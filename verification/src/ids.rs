//! Identifier rendering.
//!
//! Scope keys and bound values are 128-bit identifiers. Where one is sent
//! as text — bound into an upstream query parameter, or compared against a
//! client-supplied identifier string — it is rendered in the canonical
//! hyphenated UUID form, named here as `uuid_text`.

use vstd::prelude::*;

verus! {

/// The canonical hyphenated lowercase UUID text of a 128-bit identifier;
/// a function of the value alone.
pub uninterp spec fn uuid_text(v: u128) -> Seq<char>;

/// Relies on `uuid::Uuid::from_u128` and the `Display` of `uuid::Uuid`:
/// the hyphenated lowercase form of the 128-bit value, 36 characters,
/// depending on the value alone.
#[verifier::external_body]
pub fn uuid_string(v: u128) -> (r: String)
    ensures
        r@ == uuid_text(v),
        r@.len() == 36,
{
    uuid::Uuid::from_u128(v).to_string()
}

} // verus!
