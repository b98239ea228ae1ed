//! The figures that describe a run: how long it took, how much memory the
//! samples stand for, and how many samples were processed per second.
//!
//! All three are kept as whole numbers: nanoseconds, bytes, and the two
//! numbers whose quotient is the rate.

use crate::engine::OptimizationEngine;
use std::time::Instant;
use vstd::prelude::*;

verus! {

/// The size of one sample in memory.
pub const BYTES_PER_SAMPLE: u128 = 8;

/// The bytes in one unit of the memory figure, 1024 * 1024.
pub const BYTES_PER_MEBIBYTE: u128 = 1_048_576;

/// The nanoseconds in a second.
pub const NANOS_PER_SECOND: u128 = 1_000_000_000;

/// The nanoseconds in a millisecond.
pub const NANOS_PER_MILLISECOND: u128 = 1_000_000;

/// Samples per second, guarded against a division by zero.
#[derive(Clone, Copy, Debug, PartialEq, Eq)]
pub enum Throughput {
    /// Nothing was processed. The rate is zero, whatever the time.
    Zero,
    /// Samples were processed and no time was measured. The rate is the
    /// largest one that can be told.
    Saturated,
    /// `elements` samples were processed in `nanos` nanoseconds, both more
    /// than zero.
    Measured { elements: usize, nanos: u128 },
}

/// The figures of one run.
#[derive(Clone, Copy, Debug, PartialEq, Eq)]
pub struct PerformanceMetrics {
    /// The time from the start of the run to the measurement, in nanoseconds.
    pub processing_time_nanos: u128,
    /// Eight bytes for every sample.
    pub memory_usage_bytes: u128,
    /// The rate of processing.
    pub throughput: Throughput,
}

/// The rate for `element_count` samples processed in `elapsed_nanos`.
pub open spec fn throughput_of(elapsed_nanos: u128, element_count: usize) -> Throughput {
    if element_count == 0 {
        Throughput::Zero
    } else if elapsed_nanos == 0 {
        Throughput::Saturated
    } else {
        Throughput::Measured { elements: element_count, nanos: elapsed_nanos }
    }
}

/// The figures for `element_count` samples processed in `elapsed_nanos`.
pub open spec fn metrics_of(elapsed_nanos: u128, element_count: usize) -> PerformanceMetrics {
    PerformanceMetrics {
        processing_time_nanos: elapsed_nanos,
        memory_usage_bytes: (element_count * BYTES_PER_SAMPLE) as u128,
        throughput: throughput_of(elapsed_nanos, element_count),
    }
}

impl Throughput {
    /// The rate in whole samples per second, rounded down: zero where
    /// nothing was processed, the largest `u128` where no time was measured.
    pub open spec fn per_second(&self) -> nat {
        match *self {
            Throughput::Zero => 0,
            Throughput::Saturated => u128::MAX as nat,
            Throughput::Measured { elements, nanos } => if nanos == 0 {
                u128::MAX as nat
            } else {
                ((elements * NANOS_PER_SECOND) / (nanos as int)) as nat
            },
        }
    }

    /// The rate in whole samples per second, rounded down.
    pub fn elements_per_second(&self) -> (rate: u128)
        ensures
            rate == self.per_second(),
    {
        match *self {
            Throughput::Zero => 0,
            Throughput::Saturated => u128::MAX,
            Throughput::Measured { elements, nanos } => {
                if nanos == 0 {
                    u128::MAX
                } else {
                    let scaled: u128 = (elements as u128) * NANOS_PER_SECOND;
                    scaled / nanos
                }
            },
        }
    }
}

/// The figures for `data_size` samples processed in `elapsed_nanos`
/// nanoseconds.
pub fn metrics_from_elapsed(elapsed_nanos: u128, data_size: usize) -> (metrics: PerformanceMetrics)
    ensures
        metrics == metrics_of(elapsed_nanos, data_size),
        metrics.memory_usage_bytes == 8 * data_size,
        data_size > 0 ==> metrics.memory_usage_bytes > 0,
        data_size == 0 ==> metrics.throughput.per_second() == 0,
{
    let throughput = if data_size == 0 {
        Throughput::Zero
    } else if elapsed_nanos == 0 {
        Throughput::Saturated
    } else {
        Throughput::Measured { elements: data_size, nanos: elapsed_nanos }
    };
    PerformanceMetrics {
        processing_time_nanos: elapsed_nanos,
        memory_usage_bytes: (data_size as u128) * BYTES_PER_SAMPLE,
        throughput,
    }
}

/// `std::time::Instant`, a reading of the monotonic clock. Nothing inside it
/// is visible to the verifier.
#[verifier::external_type_specification]
#[verifier::external_body]
pub struct ExInstant(std::time::Instant);

/// `Instant::elapsed`: the time that has passed since the instant was taken.
/// Nothing is claimed of it: it is read from the clock.
pub assume_specification[ std::time::Instant::elapsed ](start: &Instant) -> (elapsed:
    core::time::Duration)
;

/// `Duration::as_nanos`: the whole duration in nanoseconds.
pub assume_specification[ core::time::Duration::as_nanos ](duration: &core::time::Duration) -> (nanos:
    u128)
;

impl<Q: Fn(u64) -> u64, S: Fn(u64) -> u64, R: Fn(u64) -> u64> OptimizationEngine<Q, S, R> {
    /// The figures of a run that began at `start_time` and processed
    /// `data_size` samples, with the time read from the clock now.
    pub fn calculate_metrics(&self, start_time: Instant, data_size: usize) -> (metrics:
        PerformanceMetrics)
        ensures
            metrics == metrics_of(metrics.processing_time_nanos, data_size),
            metrics.memory_usage_bytes == 8 * data_size,
            data_size > 0 ==> metrics.memory_usage_bytes > 0,
            data_size == 0 ==> metrics.throughput.per_second() == 0,
    {
        let elapsed = start_time.elapsed();
        metrics_from_elapsed(elapsed.as_nanos(), data_size)
    }
}

} // verus!
