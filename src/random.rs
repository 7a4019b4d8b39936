use vstd::prelude::*;

use rand::Rng;

verus! {

/// Relies on rand's `thread_rng` and `Rng::gen_range(low, high)`, which
/// returns a value in `[low, high)` and panics when `low >= high`.
#[verifier::external_body]
pub(crate) fn random_index(len: usize) -> (r: usize)
    requires
        len > 0,
    ensures
        r < len,
{
    rand::thread_rng().gen_range(0, len)
}

} // verus!
