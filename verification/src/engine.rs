//! The engine: the per-element pipeline, its run over one chunk, and the run
//! over a whole batch, on a pool of workers or on the calling thread.

use crate::array::{array_elements, array_from_vec, array_to_vec, ChunkArray};
use crate::chunker::{chunk_samples, chunks_of, concatenate, lemma_chunks_join, rows};
use crate::error::EngineError;
use crate::sample::{
    clamp_unit, clamped, in_unit_interval, is_finite, is_nan, lemma_clamped_properties,
};
use crate::workers::dispatch_chunks;
use vstd::prelude::*;
use vstd::slice::slice_to_vec;

verus! {

/// The transformation engine.
///
/// The pipeline has four stages, applied to every sample in this order:
/// quantise, squash, shrink, clamp. The first three are arithmetic on
/// binary64 values; the engine is built from them, each a function from a
/// bit pattern to a bit pattern that accepts every pattern. The clamp to
/// `[-1, 1]` is the engine's own and is applied to whatever they return.
pub struct OptimizationEngine<Q: Fn(u64) -> u64, S: Fn(u64) -> u64, R: Fn(u64) -> u64> {
    quantize: Q,
    squash: S,
    shrink: R,
}

impl<Q: Fn(u64) -> u64, S: Fn(u64) -> u64, R: Fn(u64) -> u64> OptimizationEngine<Q, S, R> {
    #[verifier::type_invariant]
    spec fn stages_are_total(&self) -> bool {
        &&& forall|value: u64| #[trigger] self.quantize.requires((value,))
        &&& forall|value: u64| #[trigger] self.squash.requires((value,))
        &&& forall|value: u64| #[trigger] self.shrink.requires((value,))
    }

    /// The first stage: it rounds a sample to the engine's fixed precision.
    pub closed spec fn quantize_stage(&self) -> Q {
        self.quantize
    }

    /// The second stage: the non-linear transform of a quantised sample.
    pub closed spec fn squash_stage(&self) -> S {
        self.squash
    }

    /// The third stage: the shrinkage of a squashed sample.
    pub closed spec fn shrink_stage(&self) -> R {
        self.shrink
    }

    /// The rules may turn `value` into `out`: `value` is squashed, the
    /// result is shrunk, and `out` is the clamped form of that.
    pub open spec fn rules_give(&self, value: u64, out: u64) -> bool {
        exists|squashed: u64, shrunk: u64|
            #![trigger self.squash_stage().ensures((value,), squashed), self.shrink_stage().ensures((squashed,), shrunk)]
            self.squash_stage().ensures((value,), squashed) && self.shrink_stage().ensures(
                (squashed,),
                shrunk,
            ) && out == clamped(shrunk)
    }

    /// The whole pipeline may turn `sample` into `out`: `sample` is
    /// quantised, and the rules are applied to the result.
    pub open spec fn pipeline_gives(&self, sample: u64, out: u64) -> bool {
        exists|quantized: u64| #[trigger]
            self.quantize_stage().ensures((sample,), quantized) && self.rules_give(quantized, out)
    }

    /// `output` is `input` sent through the pipeline, element by element and
    /// position by position.
    pub open spec fn transforms(&self, input: Seq<u64>, output: Seq<u64>) -> bool {
        &&& output.len() == input.len()
        &&& forall|i: int|
            0 <= i < input.len() ==> #[trigger] self.pipeline_gives(input[i], output[i])
    }

    /// What a run over `data` with chunks of `dimensions` samples returns: an
    /// error for a width of zero and for nothing else, and otherwise the
    /// samples sent through the pipeline, whatever the width.
    pub open spec fn run_outcome(
        &self,
        data: Seq<u64>,
        dimensions: usize,
        r: Result<Vec<u64>, EngineError>,
    ) -> bool {
        if dimensions == 0 {
            r == Err::<Vec<u64>, EngineError>(EngineError::InvalidDimension)
        } else {
            r is Ok && self.transforms(data, r->Ok_0@)
        }
    }

    /// The three stages are functions in the strict sense: for one argument
    /// each returns one value, whenever and wherever it is called.
    pub open spec fn deterministic(&self) -> bool {
        &&& forall|value: u64, first: u64, second: u64|
            #![trigger self.quantize_stage().ensures((value,), first), self.quantize_stage().ensures((value,), second)]
            self.quantize_stage().ensures((value,), first) && self.quantize_stage().ensures(
                (value,),
                second,
            ) ==> first == second
        &&& forall|value: u64, first: u64, second: u64|
            #![trigger self.squash_stage().ensures((value,), first), self.squash_stage().ensures((value,), second)]
            self.squash_stage().ensures((value,), first) && self.squash_stage().ensures(
                (value,),
                second,
            ) ==> first == second
        &&& forall|value: u64, first: u64, second: u64|
            #![trigger self.shrink_stage().ensures((value,), first), self.shrink_stage().ensures((value,), second)]
            self.shrink_stage().ensures((value,), first) && self.shrink_stage().ensures(
                (value,),
                second,
            ) ==> first == second
    }

    /// The stages keep numbers numbers: quantising a finite sample gives no
    /// NaN, and neither of the other two stages gives a NaN for anything but
    /// a NaN.
    pub open spec fn keeps_numbers(&self) -> bool {
        &&& forall|value: u64, quantized: u64|
            is_finite(value) && #[trigger] self.quantize_stage().ensures((value,), quantized)
                ==> !is_nan(quantized)
        &&& forall|value: u64, squashed: u64|
            !is_nan(value) && #[trigger] self.squash_stage().ensures((value,), squashed)
                ==> !is_nan(squashed)
        &&& forall|value: u64, shrunk: u64|
            !is_nan(value) && #[trigger] self.shrink_stage().ensures((value,), shrunk) ==> !is_nan(
                shrunk,
            )
    }

    /// An engine with the given stages.
    pub fn new(quantize: Q, squash: S, shrink: R) -> (engine: Self)
        requires
            forall|value: u64| #[trigger] quantize.requires((value,)),
            forall|value: u64| #[trigger] squash.requires((value,)),
            forall|value: u64| #[trigger] shrink.requires((value,)),
        ensures
            engine.quantize_stage() == quantize,
            engine.squash_stage() == squash,
            engine.shrink_stage() == shrink,
    {
        OptimizationEngine { quantize, squash, shrink }
    }

    /// Applies the rules to one quantised value: the non-linear transform,
    /// the shrinkage, and the clamp to `[-1, 1]`, which is never left out.
    pub fn apply_optimization_rules(&self, value: u64) -> (out: u64)
        ensures
            self.rules_give(value, out),
            is_nan(out) || in_unit_interval(out),
    {
        proof {
            use_type_invariant(self);
        }
        let squashed: u64 = (self.squash)(value);
        let shrunk: u64 = (self.shrink)(squashed);
        let out: u64 = clamp_unit(shrunk);
        proof {
            assert(self.squash_stage().ensures((value,), squashed));
            assert(self.shrink_stage().ensures((squashed,), shrunk));
        }
        out
    }

    /// Sends one chunk through the pipeline: first every element is
    /// quantised, then the rules are applied to every element.
    pub fn optimize_chunk(&self, chunk: &ChunkArray) -> (out: Vec<u64>)
        ensures
            self.transforms(array_elements(*chunk), out@),
    {
        proof {
            use_type_invariant(self);
        }
        let mut result = array_to_vec(chunk);
        let ghost input = result@;
        let mut i: usize = 0;
        while i < result.len()
            invariant
                i <= result.len(),
                result.len() == input.len(),
                forall|value: u64| #[trigger] self.quantize.requires((value,)),
                forall|k: int|
                    0 <= k < i ==> self.quantize_stage().ensures(
                        (input[k],),
                        #[trigger] result@[k],
                    ),
                forall|k: int| i <= k < result.len() ==> #[trigger] result@[k] == input[k],
            decreases result.len() - i,
        {
            let quantized: u64 = (self.quantize)(result[i]);
            result.set(i, quantized);
            i += 1;
        }
        let ghost quantized = result@;
        let mut j: usize = 0;
        while j < result.len()
            invariant
                j <= result.len(),
                result.len() == quantized.len(),
                forall|k: int| 0 <= k < j ==> self.rules_give(quantized[k], #[trigger] result@[k]),
                forall|k: int| j <= k < result.len() ==> #[trigger] result@[k] == quantized[k],
            decreases result.len() - j,
        {
            let ruled: u64 = self.apply_optimization_rules(result[j]);
            result.set(j, ruled);
            j += 1;
        }
        proof {
            assert forall|k: int| 0 <= k < input.len() implies #[trigger] self.pipeline_gives(
                input[k],
                result@[k],
            ) by {
                assert(self.quantize_stage().ensures((input[k],), quantized[k]));
                assert(self.rules_give(quantized[k], result@[k]));
            }
        }
        result
    }

    /// Sends one chunk of samples through the pipeline.
    pub fn process_chunk(&self, chunk: &Vec<u64>) -> (out: Vec<u64>)
        ensures
            self.transforms(chunk@, out@),
    {
        let array = array_from_vec(slice_to_vec(chunk.as_slice()));
        self.optimize_chunk(&array)
    }

    /// Sends a batch through the pipeline on the worker pool: the samples are
    /// cut into chunks of `dimensions` samples, the chunks are handed out to
    /// the workers, and the outputs are joined in the order of the chunks.
    ///
    /// A width of zero is refused before any work is done. An empty batch
    /// gives an empty result.
    pub fn parallel_process(&self, data: &[u64], dimensions: usize) -> (r: Result<
        Vec<u64>,
        EngineError,
    >) where Q: Sync, S: Sync, R: Sync
        ensures
            self.run_outcome(data@, dimensions, r),
            r is Err <==> dimensions == 0,
            r matches Ok(out) ==> {
                &&& out@.len() == data@.len()
                &&& forall|i: int|
                    0 <= i < out@.len() ==> is_nan(#[trigger] out@[i]) || in_unit_interval(out@[i])
            },
    {
        let chunks = match chunk_samples(data, dimensions) {
            Ok(chunks) => chunks,
            Err(error) => {
                return Err(error);
            },
        };
        let outputs = dispatch_chunks(self, &chunks);
        let out = concatenate(&outputs);
        proof {
            self.lemma_joined_outputs(data@, dimensions as nat, chunks@, outputs@);
            self.lemma_transforms_range(data@, out@);
        }
        Ok(out)
    }

    /// Sends a batch through the pipeline on the calling thread alone, chunk
    /// after chunk. It returns what `parallel_process` returns.
    pub fn sequential_process(&self, data: &[u64], dimensions: usize) -> (r: Result<
        Vec<u64>,
        EngineError,
    >)
        ensures
            self.run_outcome(data@, dimensions, r),
            r is Err <==> dimensions == 0,
            r matches Ok(out) ==> {
                &&& out@.len() == data@.len()
                &&& forall|i: int|
                    0 <= i < out@.len() ==> is_nan(#[trigger] out@[i]) || in_unit_interval(out@[i])
            },
    {
        let chunks = match chunk_samples(data, dimensions) {
            Ok(chunks) => chunks,
            Err(error) => {
                return Err(error);
            },
        };
        let mut outputs: Vec<Vec<u64>> = Vec::new();
        let mut index: usize = 0;
        while index < chunks.len()
            invariant
                index <= chunks.len(),
                outputs.len() == index,
                forall|c: int|
                    0 <= c < index ==> #[trigger] self.transforms(chunks@[c]@, outputs@[c]@),
            decreases chunks.len() - index,
        {
            let output = self.process_chunk(&chunks[index]);
            outputs.push(output);
            index += 1;
        }
        let out = concatenate(&outputs);
        proof {
            self.lemma_joined_outputs(data@, dimensions as nat, chunks@, outputs@);
            self.lemma_transforms_range(data@, out@);
        }
        Ok(out)
    }

    /// Two pieces that went through the pipeline, put end to end, are the
    /// two inputs put end to end and sent through the pipeline.
    pub proof fn lemma_transforms_concat(
        &self,
        left: Seq<u64>,
        right: Seq<u64>,
        left_out: Seq<u64>,
        right_out: Seq<u64>,
    )
        requires
            self.transforms(left, left_out),
            self.transforms(right, right_out),
        ensures
            self.transforms(left + right, left_out + right_out),
    {
        let input = left + right;
        let output = left_out + right_out;
        assert forall|i: int| 0 <= i < input.len() implies #[trigger] self.pipeline_gives(
            input[i],
            output[i],
        ) by {
            if i < left.len() {
                assert(self.pipeline_gives(left[i], left_out[i]));
            } else {
                assert(self.pipeline_gives(right[i - left.len()], right_out[i - left.len()]));
            }
        }
    }

    /// Chunks that went through the pipeline one by one, joined in order, are
    /// the joined inputs sent through the pipeline.
    pub proof fn lemma_transforms_flatten(&self, inputs: Seq<Seq<u64>>, outputs: Seq<Seq<u64>>)
        requires
            inputs.len() == outputs.len(),
            forall|c: int|
                0 <= c < inputs.len() ==> #[trigger] self.transforms(inputs[c], outputs[c]),
        ensures
            self.transforms(inputs.flatten(), outputs.flatten()),
        decreases inputs.len(),
    {
        if inputs.len() > 0 {
            let rest_in = inputs.drop_first();
            let rest_out = outputs.drop_first();
            assert forall|c: int| 0 <= c < rest_in.len() implies #[trigger] self.transforms(
                rest_in[c],
                rest_out[c],
            ) by {
                assert(self.transforms(inputs[c + 1], outputs[c + 1]));
            }
            self.lemma_transforms_flatten(rest_in, rest_out);
            assert(self.transforms(inputs[0], outputs[0]));
            self.lemma_transforms_concat(
                inputs.first(),
                rest_in.flatten(),
                outputs.first(),
                rest_out.flatten(),
            );
        }
    }

    /// Every output of the pipeline is a NaN or lies in `[-1, 1]`.
    pub proof fn lemma_transforms_range(&self, input: Seq<u64>, output: Seq<u64>)
        requires
            self.transforms(input, output),
        ensures
            forall|i: int|
                0 <= i < output.len() ==> is_nan(#[trigger] output[i]) || in_unit_interval(
                    output[i],
                ),
    {
        assert forall|i: int| 0 <= i < output.len() implies is_nan(#[trigger] output[i])
            || in_unit_interval(output[i]) by {
            assert(self.pipeline_gives(input[i], output[i]));
            let quantized = choose|quantized: u64| #[trigger]
                self.quantize_stage().ensures((input[i],), quantized) && self.rules_give(
                    quantized,
                    output[i],
                );
            let (squashed, shrunk) = choose|squashed: u64, shrunk: u64|
                #![trigger self.squash_stage().ensures((quantized,), squashed), self.shrink_stage().ensures((squashed,), shrunk)]
                self.squash_stage().ensures((quantized,), squashed) && self.shrink_stage().ensures(
                    (squashed,),
                    shrunk,
                ) && output[i] == clamped(shrunk);
            lemma_clamped_properties(shrunk);
        }
    }

    proof fn lemma_joined_outputs(
        &self,
        data: Seq<u64>,
        width: nat,
        chunks: Seq<Vec<u64>>,
        outputs: Seq<Vec<u64>>,
    )
        requires
            width > 0,
            rows(chunks) == chunks_of(data, width),
            outputs.len() == chunks.len(),
            forall|c: int|
                0 <= c < chunks.len() ==> #[trigger] self.transforms(chunks[c]@, outputs[c]@),
        ensures
            self.transforms(data, rows(outputs).flatten()),
    {
        assert forall|c: int| 0 <= c < rows(chunks).len() implies #[trigger] self.transforms(
            rows(chunks)[c],
            rows(outputs)[c],
        ) by {
            assert(self.transforms(chunks[c]@, outputs[c]@));
        }
        self.lemma_transforms_flatten(rows(chunks), rows(outputs));
        lemma_chunks_join(data, width);
    }
}

} // verus!
