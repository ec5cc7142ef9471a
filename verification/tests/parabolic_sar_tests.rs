use indexes_rs::common::PRICE_MAX;
use indexes_rs::parabolic_sar::{
    calculate_parabolic_sar_simple, ParabolicSAR, ParabolicSARConfig, ParabolicSARError,
    ParabolicSARInput, TrendDirection,
};

// Prices are fixed-point integers; these tests use one decimal digit of
// precision, so a price of 10.0 is written 100. Acceleration factors are in
// SCALE units of one million, so 0.02 is 20_000.

#[test]
fn test_parabolic_sar_basic_calculation() {
    let mut sar = ParabolicSAR::new();

    let test_data = vec![(100, 80), (110, 90), (120, 100), (130, 110), (125, 105)];

    let mut results = Vec::new();
    for (high, low) in &test_data {
        let input = ParabolicSARInput {
            high: *high,
            low: *low,
            close: None,
        };
        let result = sar.calculate(input).unwrap();
        results.push(result);
    }

    assert!(results.len() == 5);

    for (i, result) in results.iter().enumerate().skip(2) {
        if matches!(result.trend, TrendDirection::Up) {
            assert!(
                result.sar <= test_data[i].1,
                "SAR {} should be <= low {} at index {}",
                result.sar,
                test_data[i].1,
                i
            );
        }
    }
}

#[test]
fn test_parabolic_sar_trend_reversal() {
    let mut sar = ParabolicSAR::new();

    // Uptrend bars followed by a sharp drop below the stop level.
    let test_data = [(100, 80), (120, 100), (140, 120), (150, 130), (130, 70)];

    let mut results = Vec::new();
    for (high, low) in test_data.iter() {
        let input = ParabolicSARInput {
            high: *high,
            low: *low,
            close: None,
        };
        let result = sar.calculate(input).unwrap();
        results.push(result);
    }

    let has_reversal = results.iter().any(|r| r.trend_reversal);
    assert!(
        has_reversal,
        "Expected at least one trend reversal in the data"
    );

    for result in results.iter() {
        if result.trend_reversal {
            assert_eq!(result.trend, TrendDirection::Down);
            break;
        }
    }
}

#[test]
fn test_parabolic_sar_acceleration_factor() {
    let mut sar = ParabolicSAR::new();

    let test_data = [(100, 80), (110, 90), (120, 100), (130, 110)];

    let mut prev_af = 0;
    for (i, (high, low)) in test_data.iter().enumerate() {
        let input = ParabolicSARInput {
            high: *high,
            low: *low,
            close: None,
        };
        let result = sar.calculate(input).unwrap();

        if i > 1 && !result.trend_reversal {
            if result.extreme_point > test_data[i - 1].0 {
                assert!(result.acceleration_factor >= prev_af);
            }
        }
        prev_af = result.acceleration_factor;
    }
}

#[test]
fn test_parabolic_sar_error_handling() {
    let mut sar = ParabolicSAR::new();

    let input = ParabolicSARInput {
        high: 80,
        low: 100,
        close: None,
    };
    assert!(matches!(
        sar.calculate(input),
        Err(ParabolicSARError::InvalidHL)
    ));

    assert!(matches!(
        ParabolicSAR::with_acceleration(0, 20_000, 200_000),
        Err(ParabolicSARError::InvalidAcceleration)
    ));

    assert!(matches!(
        ParabolicSAR::with_acceleration(20_000, 0, 200_000),
        Err(ParabolicSARError::InvalidAcceleration)
    ));

    assert!(matches!(
        ParabolicSAR::with_acceleration(200_000, 20_000, 100_000),
        Err(ParabolicSARError::InvalidAcceleration)
    ));
}

#[test]
fn test_parabolic_sar_simple_function() {
    let highs = vec![100, 110, 120, 130, 125];
    let lows = vec![80, 90, 100, 110, 105];

    let result = calculate_parabolic_sar_simple(&highs, &lows, None, None, None).unwrap();
    assert_eq!(result.len(), 5);

    for sar_value in result {
        assert!((0..=PRICE_MAX).contains(&sar_value));
    }
}

#[test]
fn test_trend_direction_consistency() {
    let mut sar = ParabolicSAR::new();

    let uptrend_data = vec![(100, 80), (110, 90), (120, 100), (130, 110), (140, 120)];

    for (high, low) in uptrend_data {
        let input = ParabolicSARInput {
            high,
            low,
            close: None,
        };
        let result = sar.calculate(input).unwrap();

        if sar.get_state().trend_periods() > 2 && !result.trend_reversal {
            assert_eq!(result.trend, TrendDirection::Up);
        }
    }
}

#[test]
fn test_parabolic_sar_close_validation() {
    let mut sar = ParabolicSAR::new();

    let input = ParabolicSARInput {
        high: 100,
        low: 80,
        close: Some(120),
    };
    assert!(matches!(
        sar.calculate(input),
        Err(ParabolicSARError::CloseOutOfRange)
    ));

    let input = ParabolicSARInput {
        high: 100,
        low: -3,
        close: None,
    };
    assert!(matches!(
        sar.calculate(input),
        Err(ParabolicSARError::InvalidPrice)
    ));

    let input = ParabolicSARInput {
        high: 100,
        low: 80,
        close: Some(-3),
    };
    assert!(matches!(
        sar.calculate(input),
        Err(ParabolicSARError::InvalidPrice)
    ));
}

#[test]
fn test_parabolic_sar_uptrend_clamp_and_af_reset() {
    // In an established uptrend without reversal, the stop never exceeds the
    // current or previous bar's low, and the acceleration factor never
    // decreases; on the reversal bar it resets to the configured start.
    let mut sar = ParabolicSAR::new();
    let bars = [(100, 80), (120, 100), (140, 120), (150, 130), (160, 140), (130, 70)];
    let mut prev_low: i64 = 0;
    let mut prev_af: i64 = 0;
    for (i, (high, low)) in bars.iter().enumerate() {
        let out = sar
            .calculate(ParabolicSARInput { high: *high, low: *low, close: None })
            .unwrap();
        if i >= 2 && !out.trend_reversal && out.trend == TrendDirection::Up {
            assert!(out.sar <= *low);
            assert!(out.sar <= prev_low);
            assert!(out.acceleration_factor >= prev_af);
        }
        if out.trend_reversal {
            assert_eq!(out.acceleration_factor, 20_000);
            assert_eq!(out.trend_periods, 1);
        }
        prev_low = *low;
        prev_af = out.acceleration_factor;
    }
}

#[test]
fn test_parabolic_sar_reset_replays_identically() {
    let bars = [(100, 80), (120, 100), (140, 120), (150, 130), (130, 70)];
    let mut sar = ParabolicSAR::with_acceleration(20_000, 20_000, 200_000).unwrap();
    let mut first = Vec::new();
    for (high, low) in bars.iter() {
        first.push(
            sar.calculate(ParabolicSARInput { high: *high, low: *low, close: None }).unwrap(),
        );
    }
    sar.reset();
    for (i, (high, low)) in bars.iter().enumerate() {
        let again =
            sar.calculate(ParabolicSARInput { high: *high, low: *low, close: None }).unwrap();
        assert_eq!(again, first[i], "replay diverged at bar {}", i);
    }
}

#[test]
fn test_parabolic_sar_snapshot_roundtrip() {
    let mut sar = ParabolicSAR::new();
    let warmup = [(100, 80), (120, 100), (140, 120)];
    for (high, low) in warmup.iter() {
        sar.calculate(ParabolicSARInput { high: *high, low: *low, close: None }).unwrap();
    }
    let snapshot = sar.get_state().snapshot();
    let bar = ParabolicSARInput {
        high: 150,
        low: 130,
        close: Some(145),
    };
    let out1 = sar.calculate(bar).unwrap();
    sar.set_state(snapshot);
    let out2 = sar.calculate(bar).unwrap();
    assert_eq!(out1, out2);
}

#[test]
fn test_parabolic_sar_batch_matches_simple() {
    let highs = vec![100, 120, 140, 150, 130];
    let lows = vec![80, 100, 120, 130, 70];

    let simple = calculate_parabolic_sar_simple(&highs, &lows, None, None, None).unwrap();

    let mut sar = ParabolicSAR::with_config(ParabolicSARConfig::default());
    let inputs: Vec<ParabolicSARInput> = (0..highs.len())
        .map(|i| ParabolicSARInput { high: highs[i], low: lows[i], close: None })
        .collect();
    let batch = sar.calculate_batch(&inputs).unwrap();

    assert_eq!(simple.len(), batch.len());
    for i in 0..simple.len() {
        assert_eq!(simple[i], batch[i].sar, "mismatch at index {}", i);
    }
}

#[test]
fn test_parabolic_sar_simple_length_mismatch() {
    let highs = vec![100, 120];
    let lows = vec![80];
    assert!(matches!(
        calculate_parabolic_sar_simple(&highs, &lows, None, None, None),
        Err(ParabolicSARError::InvalidInput(_))
    ));
}

#[test]
fn test_parabolic_sar_getters() {
    let mut sar = ParabolicSAR::new();
    assert_eq!(sar.current_trend(), None);
    assert_eq!(sar.current_acceleration_factor(), 20_000);
    sar.calculate(ParabolicSARInput { high: 100, low: 80, close: None }).unwrap();
    sar.calculate(ParabolicSARInput { high: 120, low: 100, close: None }).unwrap();
    assert_eq!(sar.current_trend(), Some(TrendDirection::Up));
}
