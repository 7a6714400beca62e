//! Unique identifiers for assets, tracks and clips.
//!
//! Identifiers are random (version 4) UUIDs, held as their 128-bit value.

use vstd::prelude::*;

verus! {

/// Holds when `id` has the layout of a version-4, RFC 4122 UUID: the
/// version nibble (bits 76..80) is 4 and the variant bits (62..64) are `10`.
pub open spec fn is_v4_layout(id: u128) -> bool {
    &&& (id >> 76u128) & 0xfu128 == 4u128
    &&& (id >> 62u128) & 0x3u128 == 2u128
}

/// A fresh random identifier, from `uuid::Uuid::new_v4()` read back with
/// `Uuid::as_u128`.  The uuid crate masks a random 128-bit value so that the
/// version nibble is 4 and the variant is RFC 4122; this is what the
/// contract states.  Nothing is stated of the other 122 bits, which are random.
#[verifier::external_body]
pub(crate) fn new_id() -> (id: u128)
    ensures
        is_v4_layout(id),
{
    uuid::Uuid::new_v4().as_u128()
}

} // verus!
