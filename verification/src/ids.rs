//! Derived record identifiers.
//!
//! Identifiers are never chosen by a caller: a record created by an
//! identity at a timestamp is named by the digest of the identity's bytes
//! followed by the little-endian encoding of the timestamp. The digest
//! itself is computed by an outside collaborator; the core only relies on
//! it being a function of that input.

use vstd::prelude::*;

use crate::identity::Identity;

verus! {

/// The identifier text assigned to a record created by the identity with
/// bytes `owner` at time `timestamp`. The digest stands behind this name;
/// only that equal inputs give equal identifiers is assumed, never what
/// the text looks like.
pub uninterp spec fn record_id_of(owner: Seq<u8>, timestamp: i64) -> Seq<char>;

/// Relies on `anchor_lang::solana_program::hash::hash` (SHA-256) and the
/// base-58 rendering of the resulting `Hash`: both depend on the input
/// bytes alone, so the identifier is a function of the creator's identity
/// bytes and the timestamp.
#[verifier::external_body]
pub(crate) fn derive_record_id(owner: &Identity, timestamp: i64) -> (r: String)
    ensures
        r@ == record_id_of(owner@, timestamp),
{
    let mut seed = owner.bytes.to_vec();
    seed.extend_from_slice(&timestamp.to_le_bytes());
    anchor_lang::solana_program::hash::hash(&seed).to_string()
}

} // verus!
