//! Trusted access to the thread-local random generator. Each worker uses
//! its own generator, so there is no shared random state to lock.

use vstd::prelude::*;
use rand::Rng;

verus! {

#[verifier::external_type_specification]
#[verifier::external_body]
pub struct ExThreadRng(rand::rngs::ThreadRng);

/// Relies on rand::Rng::gen_range over `0..n`: it returns a value of the
/// range and panics only when the range is empty, which `n >= 1` rules
/// out. Nothing more is promised of which value comes back.
#[verifier::external_body]
pub(crate) fn rng_below(rng: &mut rand::rngs::ThreadRng, n: u128) -> (r: u128)
    requires
        n >= 1,
    ensures
        r < n,
{
    rng.gen_range(0..n)
}

} // verus!
