//! Random ids for samplers.

use vstd::prelude::*;

verus! {

/// `id` carries the marks of a version-4 (random) UUID: version bits
/// `0100` and variant bits `10`, as `Uuid::as_u128` lays them out.
pub open spec fn is_v4_id(id: u128) -> bool {
    id & 0xF000_C000_0000_0000_0000 == 0x4000_8000_0000_0000_0000
}

/// Calls `uuid::Uuid::new_v4` and takes the 128 bits of the result
/// (`Uuid::as_u128`): random bits, with the version and variant marks of a
/// version-4 UUID set. Nothing else is stated of it; two calls may give
/// the same id, if only with negligible chance.
#[verifier::external_body]
pub(crate) fn new_sampler_id() -> (id: u128)
    ensures
        is_v4_id(id),
{
    uuid::Uuid::new_v4().as_u128()
}

} // verus!
