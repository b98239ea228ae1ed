//! What holds of every run of an engine, given what its stages are known to
//! do.

use crate::engine::OptimizationEngine;
use crate::error::EngineError;
use crate::sample::{clamped, in_unit_interval, is_finite, lemma_clamped_properties};
use vstd::prelude::*;

verus! {

/// With deterministic stages the pipeline has one output for each sample.
pub proof fn lemma_pipeline_unique<Q: Fn(u64) -> u64, S: Fn(u64) -> u64, R: Fn(u64) -> u64>(
    engine: OptimizationEngine<Q, S, R>,
    sample: u64,
    first: u64,
    second: u64,
)
    requires
        engine.deterministic(),
        engine.pipeline_gives(sample, first),
        engine.pipeline_gives(sample, second),
    ensures
        first == second,
{
    let first_quantized = choose|quantized: u64| #[trigger]
        engine.quantize_stage().ensures((sample,), quantized) && engine.rules_give(
            quantized,
            first,
        );
    let second_quantized = choose|quantized: u64| #[trigger]
        engine.quantize_stage().ensures((sample,), quantized) && engine.rules_give(
            quantized,
            second,
        );
    assert(first_quantized == second_quantized);
    let quantized = first_quantized;
    let (first_squashed, first_shrunk) = choose|squashed: u64, shrunk: u64|
        #![trigger engine.squash_stage().ensures((quantized,), squashed), engine.shrink_stage().ensures((squashed,), shrunk)]
        engine.squash_stage().ensures((quantized,), squashed) && engine.shrink_stage().ensures(
            (squashed,),
            shrunk,
        ) && first == clamped(shrunk);
    let (second_squashed, second_shrunk) = choose|squashed: u64, shrunk: u64|
        #![trigger engine.squash_stage().ensures((quantized,), squashed), engine.shrink_stage().ensures((squashed,), shrunk)]
        engine.squash_stage().ensures((quantized,), squashed) && engine.shrink_stage().ensures(
            (squashed,),
            shrunk,
        ) && second == clamped(shrunk);
    assert(first_squashed == second_squashed);
    assert(first_shrunk == second_shrunk);
}

/// An output depends on the sample at its own position and on nothing else:
/// where two batches hold the same sample, at whatever positions, their
/// outputs hold the same value at those positions.
pub proof fn lemma_element_purity<Q: Fn(u64) -> u64, S: Fn(u64) -> u64, R: Fn(u64) -> u64>(
    engine: OptimizationEngine<Q, S, R>,
    first: Seq<u64>,
    first_out: Seq<u64>,
    second: Seq<u64>,
    second_out: Seq<u64>,
    i: int,
    j: int,
)
    requires
        engine.deterministic(),
        engine.transforms(first, first_out),
        engine.transforms(second, second_out),
        0 <= i < first.len(),
        0 <= j < second.len(),
        first[i] == second[j],
    ensures
        first_out[i] == second_out[j],
{
    assert(engine.pipeline_gives(first[i], first_out[i]));
    assert(engine.pipeline_gives(second[j], second_out[j]));
    lemma_pipeline_unique(engine, first[i], first_out[i], second_out[j]);
}

/// Rearranging the samples rearranges the outputs in the same way: if the
/// batch is read in the order that `order` gives, the output is the output of
/// the batch read in that order.
pub proof fn lemma_rearranged_input<Q: Fn(u64) -> u64, S: Fn(u64) -> u64, R: Fn(u64) -> u64>(
    engine: OptimizationEngine<Q, S, R>,
    data: Seq<u64>,
    out: Seq<u64>,
    order: Seq<int>,
    rearranged_out: Seq<u64>,
)
    requires
        engine.deterministic(),
        engine.transforms(data, out),
        forall|k: int| 0 <= k < order.len() ==> 0 <= #[trigger] order[k] < data.len(),
        engine.transforms(Seq::new(order.len(), |k: int| data[order[k]]), rearranged_out),
    ensures
        rearranged_out == Seq::new(order.len(), |k: int| out[order[k]]),
{
    let rearranged = Seq::new(order.len(), |k: int| data[order[k]]);
    assert forall|k: int| 0 <= k < order.len() implies rearranged_out[k] == out[order[k]] by {
        lemma_element_purity(engine, rearranged, rearranged_out, data, out, k, order[k]);
    }
    assert(rearranged_out =~= Seq::new(order.len(), |k: int| out[order[k]]));
}

/// Two runs over the same samples return the same: neither the chunk width
/// nor the workers that the chunks were handed to show in the result.
pub proof fn lemma_runs_agree<Q: Fn(u64) -> u64, S: Fn(u64) -> u64, R: Fn(u64) -> u64>(
    engine: OptimizationEngine<Q, S, R>,
    data: Seq<u64>,
    first_width: usize,
    first: Result<Vec<u64>, EngineError>,
    second_width: usize,
    second: Result<Vec<u64>, EngineError>,
)
    requires
        engine.deterministic(),
        first_width > 0,
        second_width > 0,
        engine.run_outcome(data, first_width, first),
        engine.run_outcome(data, second_width, second),
    ensures
        first is Ok,
        second is Ok,
        first->Ok_0@ == second->Ok_0@,
{
    let first_out = first->Ok_0@;
    let second_out = second->Ok_0@;
    assert forall|i: int| 0 <= i < data.len() implies first_out[i] == second_out[i] by {
        lemma_element_purity(engine, data, first_out, data, second_out, i, i);
    }
    assert(first_out =~= second_out);
}

/// Finite samples come out inside `[-1, 1]`, provided that the stages keep
/// numbers numbers.
pub proof fn lemma_finite_inputs_stay_in_range<
    Q: Fn(u64) -> u64,
    S: Fn(u64) -> u64,
    R: Fn(u64) -> u64,
>(engine: OptimizationEngine<Q, S, R>, input: Seq<u64>, output: Seq<u64>)
    requires
        engine.keeps_numbers(),
        engine.transforms(input, output),
        forall|i: int| 0 <= i < input.len() ==> is_finite(#[trigger] input[i]),
    ensures
        forall|i: int| 0 <= i < output.len() ==> in_unit_interval(#[trigger] output[i]),
{
    assert forall|i: int| 0 <= i < output.len() implies in_unit_interval(#[trigger] output[i]) by {
        assert(is_finite(input[i]));
        assert(engine.pipeline_gives(input[i], output[i]));
        let quantized = choose|quantized: u64| #[trigger]
            engine.quantize_stage().ensures((input[i],), quantized) && engine.rules_give(
                quantized,
                output[i],
            );
        let (squashed, shrunk) = choose|squashed: u64, shrunk: u64|
            #![trigger engine.squash_stage().ensures((quantized,), squashed), engine.shrink_stage().ensures((squashed,), shrunk)]
            engine.squash_stage().ensures((quantized,), squashed) && engine.shrink_stage().ensures(
                (squashed,),
                shrunk,
            ) && output[i] == clamped(shrunk);
        lemma_clamped_properties(shrunk);
    }
}

} // verus!
