//! Random identifiers for sessions, subscriptions, registrations and
//! publications.
use vstd::prelude::*;

verus! {

/// Relies on rand::random_range: a number drawn uniformly from the given
/// half-open range, panicking only on an empty range; the range here is
/// never empty.  Identifiers stay in `[1, 2^53)` so that readers holding
/// numbers as doubles keep them exact.
#[verifier::external_body]
pub fn random_id() -> (r: u64)
    ensures
        1 <= r < 0x20000000000000u64,
{
    rand::random_range(1u64..0x20000000000000u64)
}

/// Relies on rand::random_range: an index drawn uniformly below `len`,
/// panicking only on an empty range; `len` is demanded to be positive.
#[verifier::external_body]
pub fn random_index(len: usize) -> (r: usize)
    requires
        len > 0,
    ensures
        r < len,
{
    rand::random_range(0..len)
}

} // verus!
