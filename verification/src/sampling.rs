//! The random source of the swarm: the thread-local generator of `rand`.
use rand::rngs::ThreadRng;
use rand::Rng;
use vstd::prelude::*;

verus! {

/// `rand::rngs::ThreadRng`, the handle to a thread's generator. It is carried
/// through; nothing of its state is visible.
#[verifier::external_type_specification]
#[verifier::external_body]
pub struct ExThreadRng(ThreadRng);

/// `rand::thread_rng`: a handle to the generator of the calling thread. Nothing
/// is claimed of the handle. The call takes no argument; it panics where the
/// operating system cannot seed the generator.
#[verifier::external_body]
pub(crate) fn thread_source() -> ThreadRng {
    rand::thread_rng()
}

/// `Rng::gen_range` on the inclusive range from `low` to `high`: the value drawn
/// lies in the range. An empty range makes `gen_range` panic, so `low` may not
/// exceed `high`. Which value of the range comes back is left open.
#[verifier::external_body]
pub(crate) fn uniform(rng: &mut ThreadRng, low: i64, high: i64) -> (drawn: i64)
    requires
        low <= high,
    ensures
        low <= drawn <= high,
{
    rng.gen_range(low..=high)
}

} // verus!
