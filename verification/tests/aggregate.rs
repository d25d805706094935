use vector_search::aggregate::{find_mismatch, total_weight, weighted_average};
use vector_search::error::PipelineError;
use vector_search::weights::calculate_weights;

fn close(a: f32, b: f32) -> bool {
    (a - b).abs() < 1e-4
}

#[test]
fn empty_vectors_are_empty_input() {
    let vectors: Vec<Vec<f32>> = Vec::new();
    assert_eq!(weighted_average(vectors, vec![1.0]), Err(PipelineError::EmptyInput));
}

#[test]
fn empty_vectors_and_empty_weights_are_empty_input() {
    let vectors: Vec<Vec<f32>> = Vec::new();
    assert_eq!(weighted_average(vectors, Vec::new()), Err(PipelineError::EmptyInput));
}

#[test]
fn no_weights_are_empty_input() {
    let vectors = vec![vec![1.0f32, 2.0]];
    assert_eq!(weighted_average(vectors, Vec::new()), Err(PipelineError::EmptyInput));
}

#[test]
fn differing_lengths_are_dimension_mismatch() {
    let vectors = vec![vec![1.0f32, 2.0], vec![1.0, 2.0, 3.0]];
    assert_eq!(
        weighted_average(vectors, vec![1.0, 0.8]),
        Err(PipelineError::DimensionMismatch { index: 1 })
    );
}

#[test]
fn first_offending_vector_is_reported() {
    let vectors = vec![vec![1.0f32], vec![2.0], vec![3.0, 4.0], vec![], vec![5.0]];
    assert_eq!(
        weighted_average(vectors, vec![1.0, 1.0, 1.0, 1.0, 1.0]),
        Err(PipelineError::DimensionMismatch { index: 2 })
    );
}

#[test]
fn mismatch_is_found_beyond_the_weights() {
    let vectors = vec![vec![1.0f32, 2.0], vec![1.0, 2.0, 3.0]];
    assert_eq!(
        weighted_average(vectors, vec![1.0]),
        Err(PipelineError::DimensionMismatch { index: 1 })
    );
}

#[test]
fn mismatch_comes_before_missing_weights() {
    let vectors = vec![vec![1.0f32, 2.0], vec![1.0]];
    assert_eq!(
        weighted_average(vectors, Vec::new()),
        Err(PipelineError::DimensionMismatch { index: 1 })
    );
}

#[test]
fn zero_weights_are_zero_total_weight() {
    let vectors = vec![vec![1.0f32, 2.0], vec![3.0, 4.0]];
    assert_eq!(weighted_average(vectors, vec![0.0, 0.0]), Err(PipelineError::ZeroTotalWeight));
}

#[test]
fn weights_that_cancel_are_zero_total_weight() {
    let vectors = vec![vec![1.0f32, 2.0], vec![3.0, 4.0]];
    assert_eq!(weighted_average(vectors, vec![1.0, -1.0]), Err(PipelineError::ZeroTotalWeight));
}

#[test]
fn single_vector_comes_back_unchanged() {
    let vector = vec![1.0f32, -2.5, 3.0, 0.0];
    assert_eq!(weighted_average(vec![vector.clone()], vec![2.0]), Ok(vector.clone()));
    assert_eq!(weighted_average(vec![vector.clone()], vec![1.0]), Ok(vector.clone()));
    assert_eq!(weighted_average(vec![vector.clone()], vec![-4.0]), Ok(vector));
}

#[test]
fn identical_vectors_come_back_unchanged() {
    let vector = vec![2.0f32, 4.0, -8.0];
    let vectors = vec![vector.clone(), vector.clone(), vector.clone()];
    assert_eq!(weighted_average(vectors, vec![1.0, 0.5, 0.25]), Ok(vector));
}

#[test]
fn identical_integer_vectors_come_back_unchanged() {
    let vector = vec![7u64, 3, 0];
    let vectors = vec![vector.clone(), vector.clone()];
    assert_eq!(weighted_average(vectors, vec![2, 5]), Ok(vector));
}

#[test]
fn result_has_the_dimension_of_the_inputs() {
    let vectors = vec![vec![0.1f32; 384], vec![0.2; 384], vec![0.3; 384]];
    let mean = weighted_average(vectors, calculate_weights(3, 0.8)).unwrap();
    assert_eq!(mean.len(), 384);
}

#[test]
fn zero_dimension_vectors_give_an_empty_mean() {
    let vectors: Vec<Vec<f32>> = vec![vec![], vec![]];
    assert_eq!(weighted_average(vectors, vec![1.0, 0.8]), Ok(Vec::new()));
}

#[test]
fn two_keywords_with_default_decay() {
    let vectors = vec![vec![1.0f32, 0.0, 0.0], vec![0.0, 1.0, 0.0]];
    let weights = calculate_weights(2, 0.8f32);
    assert_eq!(weights, vec![1.0, 0.8]);
    let mean = weighted_average(vectors, weights).unwrap();
    assert_eq!(mean.len(), 3);
    assert!(close(mean[0], 0.5556));
    assert!(close(mean[1], 0.4444));
    assert!(close(mean[2], 0.0));
    assert_eq!(mean[0], 1.0f32 / (1.0f32 + 0.8f32));
    assert_eq!(mean[1], 0.8f32 / (1.0f32 + 0.8f32));
    assert_eq!(mean[2], 0.0);
}

#[test]
fn exact_weighted_mean_of_integers() {
    let vectors = vec![vec![2u64, 4], vec![6, 8]];
    assert_eq!(weighted_average(vectors, vec![1, 3]), Ok(vec![5, 7]));
}

#[test]
fn exact_weighted_mean_of_halves() {
    let vectors = vec![vec![1.0f64, 2.0], vec![3.0, 6.0], vec![5.0, 10.0]];
    // (1*1 + 3*0.5 + 5*0.5) / 2 = 2.5, (2*1 + 6*0.5 + 10*0.5) / 2 = 5
    assert_eq!(weighted_average(vectors, vec![1.0, 0.5, 0.5]), Ok(vec![2.5, 5.0]));
}

#[test]
fn surplus_weights_count_in_the_divisor_only() {
    let vectors = vec![vec![2.0f32, 6.0]];
    assert_eq!(weighted_average(vectors, vec![1.0, 1.0]), Ok(vec![1.0, 3.0]));
}

#[test]
fn surplus_vectors_take_no_part() {
    let vectors = vec![vec![2.0f32, 6.0], vec![100.0, 100.0]];
    assert_eq!(weighted_average(vectors, vec![2.0]), Ok(vec![2.0, 6.0]));
}

#[test]
fn sums_run_from_the_left() {
    let big = 16777216.0f32;
    let vectors = vec![vec![big], vec![1.0], vec![1.0]];
    let mean = weighted_average(vectors, vec![1.0, 1.0, 1.0]).unwrap();
    let sum = (0.0f32 + big * 1.0 + 1.0 * 1.0) + 1.0 * 1.0;
    let total = ((0.0f32 + 1.0) + 1.0) + 1.0;
    assert_eq!(mean, vec![sum / total]);
    assert_eq!(sum, big);
}

#[test]
fn nan_and_infinity_are_not_sanitized() {
    let vectors = vec![vec![f32::NAN, 1.0, f32::INFINITY], vec![1.0, 1.0, 1.0]];
    let mean = weighted_average(vectors, vec![1.0, 1.0]).unwrap();
    assert!(mean[0].is_nan());
    assert_eq!(mean[1], 1.0);
    assert_eq!(mean[2], f32::INFINITY);
}

#[test]
fn nan_total_weight_is_not_zero() {
    let vectors = vec![vec![1.0f32]];
    let mean = weighted_average(vectors, vec![f32::NAN]).unwrap();
    assert!(mean[0].is_nan());
}

#[test]
fn total_weight_adds_all_weights() {
    assert_eq!(total_weight(&vec![1.0f32, 0.5, 0.25]), 1.75);
    assert_eq!(total_weight(&Vec::<f32>::new()), 0.0);
    assert_eq!(total_weight(&vec![3u32, 4, 5]), 12);
}

#[test]
fn find_mismatch_reports_the_first_odd_length() {
    assert_eq!(find_mismatch(&Vec::<Vec<u8>>::new()), None);
    assert_eq!(find_mismatch(&vec![vec![1u8, 2], vec![3, 4]]), None);
    assert_eq!(find_mismatch(&vec![vec![1u8, 2], vec![3], vec![]]), Some(1));
}

#[test]
fn single_vector_is_close_where_the_weight_rounds() {
    let vector = vec![7.0f32, 0.1, 3.3];
    let mean = weighted_average(vec![vector.clone()], vec![0.7]).unwrap();
    assert_eq!(mean.len(), 3);
    for (m, v) in mean.iter().zip(vector.iter()) {
        assert!((m - v).abs() <= 1e-6 * v.abs(), "{} is not close to {}", m, v);
    }
}

#[test]
fn identical_vectors_are_close_where_the_weights_round() {
    let vector = vec![0.1f32, 0.2, 3.3, 7.0];
    let vectors = vec![vector.clone(), vector.clone(), vector.clone()];
    let mean = weighted_average(vectors, calculate_weights(3, 0.8)).unwrap();
    for (m, v) in mean.iter().zip(vector.iter()) {
        assert!((m - v).abs() <= 1e-6 * v.abs(), "{} is not close to {}", m, v);
    }
}
