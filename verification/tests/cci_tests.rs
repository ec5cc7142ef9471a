use indexes_rs::cci::{
    calculate_cci_simple, CCIConfig, CCIError, CCIInput, CCIMarketCondition, CCI,
};
use indexes_rs::common::SCALE;

// Prices are fixed-point integers; most tests here use one decimal digit of
// precision, so a price of 10.0 is written 100. CCI values and thresholds
// are in SCALE units of one million, so 100.0 is 100_000_000.

#[test]
fn test_cci_basic_calculation() {
    let mut cci = CCI::with_period(3).unwrap();

    let test_data = [
        (100, 80, 90),
        (110, 90, 100),
        (120, 100, 110),
        (130, 110, 120),
        (140, 120, 130),
    ];

    for (i, (high, low, close)) in test_data.iter().enumerate() {
        let input = CCIInput {
            high: *high,
            low: *low,
            close: *close,
        };
        let result = cci.calculate(input).unwrap();

        let expected_tp = (high + low + close) / 3;
        assert_eq!(result.typical_price, expected_tp);

        if i >= 2 {
            assert!(result.mean_deviation >= 0);
        }
    }
}

#[test]
fn test_cci_trending_market() {
    let mut cci = CCI::with_period(4).unwrap();

    let uptrend_data = vec![
        (100, 80, 90),
        (120, 100, 110),
        (140, 120, 130),
        (160, 140, 150),
        (180, 160, 170),
    ];

    let mut results = Vec::new();
    for (high, low, close) in uptrend_data {
        let input = CCIInput { high, low, close };
        let result = cci.calculate(input).unwrap();
        results.push(result);
    }

    let last_result = &results[results.len() - 1];
    if last_result.market_condition != CCIMarketCondition::Insufficient {
        assert!(last_result.cci > 0, "CCI should be positive in uptrend");
    }
}

#[test]
fn test_cci_market_conditions() {
    let config = CCIConfig {
        period: 3,
        overbought: 100 * SCALE,
        oversold: -100 * SCALE,
        extreme_overbought: 200 * SCALE,
        extreme_oversold: -200 * SCALE,
    };
    let mut cci = CCI::with_config(config);

    let input1 = CCIInput {
        high: 100,
        low: 80,
        close: 90,
    };
    let result1 = cci.calculate(input1).unwrap();
    assert_eq!(result1.market_condition, CCIMarketCondition::Insufficient);

    let input2 = CCIInput {
        high: 110,
        low: 90,
        close: 100,
    };
    let result2 = cci.calculate(input2).unwrap();
    assert_eq!(result2.market_condition, CCIMarketCondition::Insufficient);

    let input3 = CCIInput {
        high: 120,
        low: 100,
        close: 110,
    };
    let result3 = cci.calculate(input3).unwrap();
    assert_ne!(result3.market_condition, CCIMarketCondition::Insufficient);
}

#[test]
fn test_cci_typical_price() {
    let mut cci = CCI::new();

    let input = CCIInput {
        high: 150,
        low: 100,
        close: 120,
    };
    let result = cci.calculate(input).unwrap();

    // (150 + 100 + 120) / 3 = 370 / 3, which integer division floors to 123.
    assert_eq!(result.typical_price, 123);
}

#[test]
fn test_cci_zero_deviation() {
    let mut cci = CCI::with_period(3).unwrap();

    let identical_data = vec![(100, 100, 100), (100, 100, 100), (100, 100, 100)];

    for (high, low, close) in identical_data {
        let input = CCIInput { high, low, close };
        let result = cci.calculate(input).unwrap();

        if result.market_condition != CCIMarketCondition::Insufficient {
            assert_eq!(result.mean_deviation, 0);
            assert_eq!(result.cci, 0);
        }
    }
}

#[test]
fn test_cci_error_handling() {
    let mut cci = CCI::new();

    let input = CCIInput {
        high: 80,
        low: 100,
        close: 90,
    };
    assert!(matches!(cci.calculate(input), Err(CCIError::InvalidHLC)));

    let input = CCIInput {
        high: 100,
        low: 80,
        close: 120,
    };
    assert!(matches!(cci.calculate(input), Err(CCIError::InvalidHLC)));

    assert!(matches!(CCI::with_period(0), Err(CCIError::InvalidPeriod)));

    // Overbought below oversold is rejected.
    assert!(matches!(
        CCI::with_thresholds(20, -100 * SCALE, 100 * SCALE, 50 * SCALE, -200 * SCALE),
        Err(CCIError::InvalidThresholds)
    ));
}

#[test]
fn test_cci_simple_function() {
    let highs = vec![100, 110, 120, 130, 140];
    let lows = vec![80, 90, 100, 110, 120];
    let closes = vec![90, 100, 110, 120, 130];

    let result = calculate_cci_simple(&highs, &lows, &closes, 3).unwrap();
    assert_eq!(result.len(), 5);
}

#[test]
fn test_cci_boundary_conditions() {
    let mut cci = CCI::with_period(3).unwrap();

    // Very small price ranges, at four decimal digits of precision.
    let small_range_data = vec![
        (100_010, 100_000, 100_005),
        (100_020, 100_010, 100_015),
        (100_030, 100_020, 100_025),
    ];

    for (high, low, close) in small_range_data {
        let input = CCIInput { high, low, close };
        let result = cci.calculate(input).unwrap();

        assert!(result.mean_deviation >= 0);
    }
}

#[test]
fn test_cci_helper_methods() {
    let cci = CCI::new();

    assert!(cci.is_overbought(150 * SCALE as i128));
    assert!(!cci.is_overbought(50 * SCALE as i128));

    assert!(cci.is_oversold(-150 * SCALE as i128));
    assert!(!cci.is_oversold(-50 * SCALE as i128));

    assert!(cci.is_extreme_condition(250 * SCALE as i128));
    assert!(cci.is_extreme_condition(-250 * SCALE as i128));
    assert!(!cci.is_extreme_condition(50 * SCALE as i128));
}

#[test]
fn test_cci_reset_and_snapshot() {
    let bars = [(100, 80, 90), (120, 100, 110), (140, 120, 130), (160, 140, 150)];
    let mut cci = CCI::with_period(3).unwrap();
    let mut first = Vec::new();
    for (high, low, close) in bars.iter() {
        first.push(cci.calculate(CCIInput { high: *high, low: *low, close: *close }).unwrap());
    }
    cci.reset();
    for (i, (high, low, close)) in bars.iter().enumerate() {
        let again = cci.calculate(CCIInput { high: *high, low: *low, close: *close }).unwrap();
        assert_eq!(again, first[i], "replay diverged at bar {}", i);
    }

    let snapshot = cci.get_state().snapshot();
    let bar = CCIInput {
        high: 180,
        low: 160,
        close: 170,
    };
    let out1 = cci.calculate(bar).unwrap();
    cci.set_state(snapshot);
    let out2 = cci.calculate(bar).unwrap();
    assert_eq!(out1, out2);
}

#[test]
fn test_cci_batch_matches_simple() {
    let highs = vec![100, 110, 120, 130, 140];
    let lows = vec![80, 90, 100, 110, 120];
    let closes = vec![90, 100, 110, 120, 130];

    let simple = calculate_cci_simple(&highs, &lows, &closes, 3).unwrap();

    let mut cci = CCI::with_period(3).unwrap();
    let inputs: Vec<CCIInput> = (0..highs.len())
        .map(|i| CCIInput { high: highs[i], low: lows[i], close: closes[i] })
        .collect();
    let batch = cci.calculate_batch(&inputs).unwrap();

    assert_eq!(simple.len(), batch.len());
    for i in 0..simple.len() {
        assert_eq!(simple[i], batch[i].cci, "mismatch at index {}", i);
    }
}

#[test]
fn test_cci_simple_length_mismatch() {
    let highs = vec![100, 110];
    let lows = vec![80];
    let closes = vec![90, 100];
    assert!(matches!(
        calculate_cci_simple(&highs, &lows, &closes, 3),
        Err(CCIError::InvalidInput(_))
    ));
}

#[test]
fn test_cci_price_range_validation() {
    let mut cci = CCI::new();
    let input = CCIInput {
        high: 100,
        low: -5,
        close: 90,
    };
    assert!(matches!(cci.calculate(input), Err(CCIError::InvalidPrice)));
}

#[test]
fn test_cci_market_condition_getter() {
    let mut cci = CCI::with_period(2).unwrap();
    assert_eq!(cci.market_condition(), CCIMarketCondition::Insufficient);
    cci.calculate(CCIInput { high: 100, low: 80, close: 90 }).unwrap();
    cci.calculate(CCIInput { high: 110, low: 90, close: 100 }).unwrap();
    assert_eq!(cci.market_condition(), CCIMarketCondition::Normal);
}
