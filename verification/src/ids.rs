//! Identifiers of places.

use vstd::prelude::*;

verus! {

/// Whether `id` has the shape of a random UUID: the version 4 in the high
/// half of its seventh byte, and the bits 1 and 0 at the top of its ninth.
pub open spec fn is_random_id(id: u128) -> bool {
    (id >> 76u128) & 0xfu128 == 4 && (id >> 62u128) & 0x3u128 == 2
}

/// Calls `uuid::Uuid::new_v4` and takes the 128 bits of the identifier that
/// it makes from random bytes, the first byte highest. The contract claims
/// of them what the call sets whatever the bytes are: the version and the
/// variant of a random UUID. Where the system has no random bytes to give,
/// the call does not return.
#[verifier::external_body]
pub(crate) fn random_id() -> (r: u128)
    ensures
        is_random_id(r),
{
    uuid::Uuid::new_v4().as_u128()
}

} // verus!
