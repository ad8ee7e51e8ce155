use vstd::prelude::*;

verus! {

/// Relies on rand's `thread_rng` and `Rng::gen_range`: the draw is uniform
/// over `0..bound` and in particular below `bound`; `gen_range` panics only
/// on an empty range, which the precondition rules out.  Nothing more is
/// assumed of the value: callers must hold for every draw below `bound`.
#[verifier::external_body]
pub(crate) fn rand_below(bound: u64) -> (r: u64)
    requires
        1 <= bound,
    ensures
        r < bound,
{
    rand::Rng::gen_range(&mut rand::thread_rng(), 0..bound)
}

} // verus!
