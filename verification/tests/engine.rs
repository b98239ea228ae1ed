use optimization_engine::sample::{MINUS_ONE_BITS, ONE_BITS};
use optimization_engine::{ChunkArray, EngineError, OptimizationEngine};

fn quantize_bits(bits: u64) -> u64 {
    ((f64::from_bits(bits) * 100.0).round() / 100.0).to_bits()
}

fn squash_bits(bits: u64) -> u64 {
    f64::from_bits(bits).tanh().to_bits()
}

fn shrink_bits(bits: u64) -> u64 {
    (f64::from_bits(bits) * 0.95).to_bits()
}

fn to_bits(values: &[f64]) -> Vec<u64> {
    values.iter().map(|value| value.to_bits()).collect()
}

fn from_bits(bits: &[u64]) -> Vec<f64> {
    bits.iter().map(|pattern| f64::from_bits(*pattern)).collect()
}

fn expected(value: f64) -> f64 {
    let quantized = (value * 100.0).round() / 100.0;
    (quantized.tanh() * 0.95).clamp(-1.0, 1.0)
}

fn ramp(len: usize) -> Vec<f64> {
    (0..len).map(|index| (index as f64) * 0.37 - 40.0).collect()
}

#[test]
fn test_optimization_engine() {
    let engine = OptimizationEngine::new(quantize_bits, squash_bits, shrink_bits);
    let test_data = vec![0.5, -0.3, 0.8, -0.9, 0.1];
    let result = from_bits(&engine.parallel_process(&to_bits(&test_data), 1).unwrap());

    assert_eq!(result.len(), test_data.len());
    assert!(result.iter().all(|&x| x >= -1.0 && x <= 1.0));
}

#[test]
fn concrete_scenario_values() {
    let engine = OptimizationEngine::new(quantize_bits, squash_bits, shrink_bits);
    let input = vec![0.5, -0.3, 0.8, -0.9, 0.1];
    let result = from_bits(&engine.parallel_process(&to_bits(&input), 1).unwrap());
    assert!((result[0] - 0.4390).abs() < 1e-4);
    assert!((result[1] - (-0.2767)).abs() < 1e-4);
    assert!((result[2] - 0.6308).abs() < 1e-4);
    assert!((result[3] - (-0.6805)).abs() < 1e-4);
    assert!((result[4] - 0.0947).abs() < 1e-4);
    for (value, out) in input.iter().zip(result.iter()) {
        assert_eq!(out.to_bits(), expected(*value).to_bits());
        assert!(*out >= -1.0 && *out <= 1.0);
    }
}

#[test]
fn quantization_rounds_half_away_from_zero() {
    assert_eq!(f64::from_bits(quantize_bits(0.125f64.to_bits())), 0.13);
    assert_eq!(f64::from_bits(quantize_bits((-0.125f64).to_bits())), -0.13);
    let engine = OptimizationEngine::new(quantize_bits, squash_bits, shrink_bits);
    let result = engine.parallel_process(&to_bits(&[0.125]), 1).unwrap();
    assert_eq!(result, vec![(0.13f64.tanh() * 0.95).to_bits()]);
}

#[test]
fn length_is_preserved() {
    let engine = OptimizationEngine::new(quantize_bits, squash_bits, shrink_bits);
    for len in [0usize, 1, 2, 5, 16, 17, 100] {
        for width in [1usize, 2, 3, 16, 1000] {
            let data = to_bits(&ramp(len));
            let result = engine.parallel_process(&data, width).unwrap();
            assert_eq!(result.len(), len);
        }
    }
}

#[test]
fn outputs_lie_in_unit_interval() {
    let engine = OptimizationEngine::new(quantize_bits, squash_bits, shrink_bits);
    let data = vec![0.0, -0.0, 1e-300, -1e-300, 1.0, -1.0, 3.5, -3.5, 1e300, -1e300, f64::MAX, f64::MIN];
    let result = from_bits(&engine.parallel_process(&to_bits(&data), 4).unwrap());
    assert_eq!(result.len(), data.len());
    for out in result {
        assert!(out >= -1.0 && out <= 1.0);
    }
}

#[test]
fn chunk_width_does_not_show_in_result() {
    let engine = OptimizationEngine::new(quantize_bits, squash_bits, shrink_bits);
    let data = to_bits(&ramp(257));
    let reference = engine.parallel_process(&data, 1).unwrap();
    for width in [2usize, 3, 7, 64, 256, 257, 258, usize::MAX] {
        assert_eq!(engine.parallel_process(&data, width).unwrap(), reference);
    }
    let direct: Vec<u64> = ramp(257).iter().map(|value| expected(*value).to_bits()).collect();
    assert_eq!(reference, direct);
}

#[test]
fn pool_and_single_thread_agree() {
    let engine = OptimizationEngine::new(quantize_bits, squash_bits, shrink_bits);
    let data = to_bits(&ramp(10_000));
    for width in [1usize, 8, 333, 10_000] {
        let pooled = engine.parallel_process(&data, width).unwrap();
        let single = engine.sequential_process(&data, width).unwrap();
        assert_eq!(pooled, single);
    }
}

#[test]
fn one_worker_and_many_workers_agree() {
    let engine = OptimizationEngine::new(quantize_bits, squash_bits, shrink_bits);
    let data = to_bits(&ramp(5_000));
    let single = rayon::ThreadPoolBuilder::new().num_threads(1).build().unwrap();
    let many = rayon::ThreadPoolBuilder::new().num_threads(6).build().unwrap();
    for width in [1usize, 7, 512] {
        let on_one = single.install(|| engine.parallel_process(&data, width)).unwrap();
        let on_many = many.install(|| engine.parallel_process(&data, width)).unwrap();
        assert_eq!(on_one, on_many);
        assert_eq!(on_one, engine.sequential_process(&data, width).unwrap());
    }
}

#[test]
fn rearranged_input_rearranges_output() {
    let engine = OptimizationEngine::new(quantize_bits, squash_bits, shrink_bits);
    let data = ramp(50);
    let forward = engine.parallel_process(&to_bits(&data), 4).unwrap();
    let mut reversed_data = data.clone();
    reversed_data.reverse();
    let mut backward = engine.parallel_process(&to_bits(&reversed_data), 4).unwrap();
    backward.reverse();
    assert_eq!(forward, backward);
}

#[test]
fn neighbours_do_not_leak_across_chunk_boundaries() {
    let engine = OptimizationEngine::new(quantize_bits, squash_bits, shrink_bits);
    let first = engine.parallel_process(&to_bits(&[0.25, 0.5, 0.75, -0.5]), 2).unwrap();
    let second = engine.parallel_process(&to_bits(&[9.0, 0.5, -9.0, 0.0, 0.5]), 2).unwrap();
    assert_eq!(first[1], second[1]);
    assert_eq!(first[1], second[4]);
}

#[test]
fn empty_input_gives_empty_result() {
    let engine = OptimizationEngine::new(quantize_bits, squash_bits, shrink_bits);
    assert_eq!(engine.parallel_process(&[], 1), Ok(vec![]));
    assert_eq!(engine.parallel_process(&[], 7), Ok(vec![]));
    assert_eq!(engine.sequential_process(&[], 3), Ok(vec![]));
}

#[test]
fn zero_dimension_is_refused() {
    let engine = OptimizationEngine::new(quantize_bits, squash_bits, shrink_bits);
    let data = to_bits(&[0.5, -0.3, 0.8]);
    assert_eq!(engine.parallel_process(&data, 0), Err(EngineError::InvalidDimension));
    assert_eq!(engine.sequential_process(&data, 0), Err(EngineError::InvalidDimension));
    assert_eq!(engine.parallel_process(&[], 0), Err(EngineError::InvalidDimension));
    assert_eq!(engine.sequential_process(&[], 0), Err(EngineError::InvalidDimension));
}

#[test]
fn error_message_names_the_field() {
    assert_eq!(EngineError::InvalidDimension.message(), "dimensions must be at least 1");
}

#[test]
fn nan_and_infinities_pass_through_the_pipeline() {
    let engine = OptimizationEngine::new(quantize_bits, squash_bits, shrink_bits);
    let data = to_bits(&[f64::NAN, f64::INFINITY, f64::NEG_INFINITY]);
    let result = from_bits(&engine.parallel_process(&data, 2).unwrap());
    assert!(result[0].is_nan());
    assert_eq!(result[1], 0.95);
    assert_eq!(result[2], -0.95);
}

#[test]
fn rules_clamp_whatever_the_stages_return() {
    fn identity(bits: u64) -> u64 {
        bits
    }
    let engine = OptimizationEngine::new(identity, identity, identity);
    assert_eq!(engine.apply_optimization_rules(7.5f64.to_bits()), ONE_BITS);
    assert_eq!(engine.apply_optimization_rules((-7.5f64).to_bits()), MINUS_ONE_BITS);
    assert_eq!(engine.apply_optimization_rules(f64::INFINITY.to_bits()), ONE_BITS);
    assert_eq!(engine.apply_optimization_rules(f64::NEG_INFINITY.to_bits()), MINUS_ONE_BITS);
    assert_eq!(engine.apply_optimization_rules(0.25f64.to_bits()), 0.25f64.to_bits());
    assert!(f64::from_bits(engine.apply_optimization_rules(f64::NAN.to_bits())).is_nan());
    let data = to_bits(&[2.0, -2.0, 0.5, 1.0, -1.0]);
    let result = from_bits(&engine.parallel_process(&data, 2).unwrap());
    assert_eq!(result, vec![1.0, -1.0, 0.5, 1.0, -1.0]);
}

#[test]
fn rules_squash_shrink_and_clamp() {
    let engine = OptimizationEngine::new(quantize_bits, squash_bits, shrink_bits);
    let out = f64::from_bits(engine.apply_optimization_rules(0.5f64.to_bits()));
    assert_eq!(out, 0.5f64.tanh() * 0.95);
    let unquantized = f64::from_bits(engine.apply_optimization_rules(0.126f64.to_bits()));
    assert_eq!(unquantized, 0.126f64.tanh() * 0.95);
}

#[test]
fn chunk_is_quantized_then_ruled() {
    let engine = OptimizationEngine::new(quantize_bits, squash_bits, shrink_bits);
    let samples = to_bits(&[0.126, -0.734, 12.0]);
    let array = ChunkArray::from_samples(samples.clone());
    assert_eq!(array.to_samples(), samples);
    let out = engine.optimize_chunk(&array);
    let want: Vec<u64> = [0.126, -0.734, 12.0].iter().map(|value| expected(*value).to_bits()).collect();
    assert_eq!(out, want);
    assert_eq!(engine.process_chunk(&samples), want);
    assert_eq!(f64::from_bits(out[0]), 0.13f64.tanh() * 0.95);
}

#[test]
fn stages_run_in_order() {
    fn add_quarter(bits: u64) -> u64 {
        (f64::from_bits(bits) + 0.25).to_bits()
    }
    fn halve(bits: u64) -> u64 {
        (f64::from_bits(bits) * 0.5).to_bits()
    }
    fn take_eighth(bits: u64) -> u64 {
        (f64::from_bits(bits) - 0.125).to_bits()
    }
    let engine = OptimizationEngine::new(add_quarter, halve, take_eighth);
    let data = to_bits(&[0.0, 0.5, -1.0, 4.0]);
    let result = from_bits(&engine.parallel_process(&data, 3).unwrap());
    assert_eq!(result, vec![0.0, 0.25, -0.5, 1.0]);
    assert_eq!(f64::from_bits(engine.apply_optimization_rules(0.5f64.to_bits())), 0.125);
}
