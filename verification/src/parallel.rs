//! The per-body fan-out of one sub-step across the worker pool.

use vstd::prelude::*;
use rayon::iter::{IntoParallelRefIterator, ParallelIterator};
use crate::body::Body;
use crate::scalar::{arith_total, Op};
use crate::substep::{substep_body, substep_result};

verus! {

/// Runs one sub-step on every body, in parallel, through rayon's `par_iter`,
/// `map` and `collect` on the vector of bodies.
///
/// Trusted: rayon calls the mapping function once on each item and, since the
/// parallel iterator over a vector is indexed, collects the results into a
/// vector of the same length in the order of the items. Each result is
/// therefore one that `substep_body` can return for the body at the same index.
#[verifier::external_body]
pub(crate) fn par_substep<A>(
    arith: &A,
    bodies: &Vec<Body>,
    attractors: &Vec<Body>,
    r: u64,
) -> (outs: Vec<Body>) where
    A: Fn(Op, u64, u64) -> u64 + Sync,

    requires
        arith_total(arith),
    ensures
        outs@.len() == bodies@.len(),
        forall|i: int|
            0 <= i < bodies@.len() ==> substep_result(
                arith,
                attractors@,
                r,
                bodies@[i],
                #[trigger] outs@[i],
            ),
{
    bodies.par_iter().map(|body| substep_body(arith, *body, attractors, r)).collect()
}

} // verus!
