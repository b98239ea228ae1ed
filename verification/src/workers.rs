//! The worker pool. Chunks are handed to the threads of `rayon`; what is
//! stated here of the hand-out is believed, not proved.

use crate::engine::OptimizationEngine;
use rayon::iter::{IntoParallelRefIterator, ParallelIterator};
use vstd::prelude::*;

verus! {

/// `par_iter().map(..).collect()` of `rayon`, over the chunks and into a
/// vector: every chunk is given once to `OptimizationEngine::process_chunk`,
/// on whichever worker and in whatever order, and the vector that comes back
/// holds at each position what that call returned for the chunk at the same
/// position.
#[verifier::external_body]
pub(crate) fn dispatch_chunks<Q, S, R>(
    engine: &OptimizationEngine<Q, S, R>,
    chunks: &Vec<Vec<u64>>,
) -> (outputs: Vec<Vec<u64>>) where
    Q: Fn(u64) -> u64 + Sync,
    S: Fn(u64) -> u64 + Sync,
    R: Fn(u64) -> u64 + Sync,
    ensures
        outputs.len() == chunks.len(),
        forall|c: int|
            0 <= c < chunks.len() ==> #[trigger] engine.transforms(chunks@[c]@, outputs@[c]@),
{
    chunks.par_iter().map(|chunk| engine.process_chunk(chunk)).collect()
}

} // verus!
