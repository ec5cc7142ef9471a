use indexes_rs::common::{HUNDRED, SCALE};
use indexes_rs::std_dev::{
    calculate_standard_deviation_simple, rolling_standard_deviation, StandardDeviation,
    StandardDeviationError, StandardDeviationInput,
};

// Values are fixed-point integers; these tests use three decimal digits of
// precision, so a value of 1.0 is written 1000 and the variance carries
// squared units (1.0 squared is 1_000_000). The integer arithmetic floors
// every quotient, so the sample variance of [1, 2, 3] comes out as 999_999
// rather than exactly one million, and its square root as 999.

#[test]
fn test_std_dev_basic_calculation() {
    let mut std_dev = StandardDeviation::with_period(3).unwrap();

    let test_values = vec![1000, 2000, 3000];

    let mut results = Vec::new();
    for value in test_values {
        let input = StandardDeviationInput { value };
        let result = std_dev.calculate(input).unwrap();
        results.push(result);
    }

    let final_result = &results[2];
    assert_eq!(final_result.mean, 2000);
    assert_eq!(final_result.variance, 999_999);
    assert_eq!(final_result.std_dev, 999);
}

#[test]
fn test_std_dev_sample_vs_population() {
    let values = vec![1000, 2000, 3000, 4000, 5000];

    let mut pop_std_dev = StandardDeviation::population(3).unwrap();
    let mut sample_std_dev = StandardDeviation::sample(3).unwrap();

    for value in values {
        let input = StandardDeviationInput { value };
        let _ = pop_std_dev.calculate(input).unwrap();
        let _ = sample_std_dev.calculate(input).unwrap();
    }

    let pop_result = pop_std_dev
        .calculate(StandardDeviationInput { value: 5000 })
        .unwrap();
    let sample_result = sample_std_dev
        .calculate(StandardDeviationInput { value: 5000 })
        .unwrap();

    assert!(sample_result.std_dev > pop_result.std_dev);
}

#[test]
fn test_std_dev_z_score() {
    let mut std_dev = StandardDeviation::with_period(5).unwrap();

    let values = vec![10_000, 12_000, 14_000, 16_000, 18_000];

    for value in values {
        let input = StandardDeviationInput { value };
        let _ = std_dev.calculate(input).unwrap();
    }

    let baseline_state = std_dev.get_state().snapshot();

    // A value near the mean has a z-score below one.
    let normal_input = StandardDeviationInput { value: 14_000 };
    let normal_result = std_dev.calculate(normal_input).unwrap();
    assert!(normal_result.z_score.abs() < SCALE);

    std_dev.set_state(baseline_state);

    // A far outlier has a z-score above one.
    let outlier_input = StandardDeviationInput { value: 30_000 };
    let outlier_result = std_dev.calculate(outlier_input).unwrap();
    assert!(
        outlier_result.z_score > SCALE,
        "Z-score {} should exceed one",
        outlier_result.z_score
    );
}

#[test]
fn test_std_dev_coefficient_of_variation() {
    let mut std_dev = StandardDeviation::with_period(3).unwrap();

    let values = vec![100_000, 110_000, 90_000];
    let mut final_result = None;

    for value in values {
        let input = StandardDeviationInput { value };
        final_result = Some(std_dev.calculate(input).unwrap());
    }

    let result = final_result.unwrap();

    let expected_cv = (result.std_dev as i128) * (HUNDRED as i128) / (result.mean as i128);
    assert_eq!(result.coefficient_of_variation, expected_cv);
}

#[test]
fn test_std_dev_volatility_classification() {
    let mut low_vol = StandardDeviation::with_period(3).unwrap();
    let mut high_vol = StandardDeviation::with_period(3).unwrap();

    let low_vol_values = vec![100_000, 100_100, 99_900];
    for value in low_vol_values {
        let input = StandardDeviationInput { value };
        let _ = low_vol.calculate(input).unwrap();
    }

    let high_vol_values = vec![100_000, 150_000, 50_000];
    for value in high_vol_values {
        let input = StandardDeviationInput { value };
        let _ = high_vol.calculate(input).unwrap();
    }

    let low_result = low_vol
        .calculate(StandardDeviationInput { value: 100_000 })
        .unwrap();
    let high_result = high_vol
        .calculate(StandardDeviationInput { value: 100_000 })
        .unwrap();

    assert!(high_result.coefficient_of_variation > low_result.coefficient_of_variation);
}

#[test]
fn test_std_dev_identical_values() {
    let mut std_dev = StandardDeviation::with_period(3).unwrap();

    let values = vec![5000, 5000, 5000];
    let mut final_result = None;

    for value in values {
        let input = StandardDeviationInput { value };
        final_result = Some(std_dev.calculate(input).unwrap());
    }

    let result = final_result.unwrap();

    assert_eq!(result.std_dev, 0);
    assert_eq!(result.variance, 0);
    assert_eq!(result.mean, 5000);
    assert_eq!(result.z_score, 0);
}

#[test]
fn test_std_dev_error_handling() {
    assert!(matches!(
        StandardDeviation::with_period(0),
        Err(StandardDeviationError::InvalidPeriod)
    ));
    assert!(matches!(
        StandardDeviation::sample(1),
        Err(StandardDeviationError::InvalidPeriod)
    ));

    let mut std_dev = StandardDeviation::new();
    let invalid_input = StandardDeviationInput { value: -1 };
    assert!(matches!(
        std_dev.calculate(invalid_input),
        Err(StandardDeviationError::InvalidValue)
    ));
}

#[test]
fn test_std_dev_simple_function() {
    let values = vec![1000, 2000, 3000, 4000, 5000];

    let result = calculate_standard_deviation_simple(&values, 3, true).unwrap();
    assert_eq!(result.len(), 5);

    for std_dev_value in result {
        assert!(std_dev_value >= 0);
    }
}

#[test]
fn test_rolling_standard_deviation() {
    let values = vec![1000, 2000, 3000, 4000, 5000];

    let result = rolling_standard_deviation(&values, 3, false).unwrap();
    assert_eq!(result.len(), 5);

    for std_dev_value in result {
        assert!(std_dev_value >= 0);
    }
}

#[test]
fn test_std_dev_state_management() {
    let mut std_dev = StandardDeviation::with_period(3).unwrap();

    for i in 1..=5 {
        let input = StandardDeviationInput { value: i * 1000 };
        let _ = std_dev.calculate(input).unwrap();
    }

    let state = std_dev.get_state().snapshot();

    std_dev.reset();
    assert!(!std_dev.get_state().has_sufficient_data());

    std_dev.set_state(state);
    assert!(std_dev.get_state().has_sufficient_data());
}

#[test]
fn test_std_dev_batch_matches_simple() {
    let values = vec![1000, 2000, 3000, 4000, 5000];

    let simple = calculate_standard_deviation_simple(&values, 3, true).unwrap();

    let mut std_dev = StandardDeviation::with_period(3).unwrap();
    let inputs: Vec<StandardDeviationInput> = values
        .iter()
        .map(|v| StandardDeviationInput { value: *v })
        .collect();
    let batch = std_dev.calculate_batch(&inputs).unwrap();

    assert_eq!(simple.len(), batch.len());
    for i in 0..simple.len() {
        assert_eq!(simple[i], batch[i].std_dev, "mismatch at index {}", i);
    }
}

#[test]
fn test_rolling_standard_deviation_short_input() {
    let values = vec![1000, 2000];
    let result = rolling_standard_deviation(&values, 3, false).unwrap();
    assert_eq!(result, vec![0, 0]);

    let empty: Vec<i64> = Vec::new();
    assert_eq!(rolling_standard_deviation(&empty, 3, true).unwrap().len(), 0);
    assert_eq!(rolling_standard_deviation(&values, 0, true).unwrap().len(), 0);
}
