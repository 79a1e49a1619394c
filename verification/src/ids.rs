//! Fresh job identifiers.

use vstd::prelude::*;
use crate::models::JobId;

verus! {

/// Whether `id` has the version and variant bits of a random (version 4) UUID.
pub open spec fn is_random_uuid(id: JobId) -> bool {
    (id >> 76u128) & 0xFu128 == 4u128 && (id >> 62u128) & 0x3u128 == 2u128
}

/// A new identifier from `Uuid::new_v4`: 122 random bits under the version
/// and variant marks of a version 4 UUID. Two calls may give any two values.
#[verifier::external_body]
pub(crate) fn fresh_job_id() -> (id: JobId)
    ensures
        is_random_uuid(id),
{
    uuid::Uuid::new_v4().as_u128()
}

} // verus!
