use vstd::prelude::*;
use rand::Rng;

verus! {

#[verifier::external_type_specification]
#[verifier::external_body]
pub struct ExStdRng(rand::rngs::StdRng);

/// Relies on rand::Rng::gen_range over `0..size`: the result is uniform in
/// the range, so in particular below `size`; the range is nonempty, so the
/// call cannot panic. Nothing is assumed about which value comes back.
#[verifier::external_body]
pub(crate) fn gen_index(rng: &mut rand::rngs::StdRng, size: usize) -> (r: usize)
    requires
        1 <= size,
    ensures
        r < size,
{
    rng.gen_range(0..size)
}

} // verus!
