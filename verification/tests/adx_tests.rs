use indexes_rs::adx::{calculate_adx_simple, ADXConfig, ADXError, ADXInput, TrendDirection, TrendStrength, ADX};
use indexes_rs::common::{HUNDRED, PRICE_MAX};

// Prices are fixed-point integers; these tests use one decimal digit of
// precision, so a price of 10.0 is written 100.

#[test]
fn test_adx_basic_calculation() {
    let mut adx = ADX::with_period(3).unwrap();

    let test_data = [
        (100, 80, 90),
        (110, 90, 105),
        (125, 100, 120),
        (130, 110, 125),
        (140, 120, 135),
    ];

    for (i, (high, low, close)) in test_data.iter().enumerate() {
        let input = ADXInput {
            high: *high,
            low: *low,
            close: *close,
        };
        let result = adx.calculate(input).unwrap();

        assert!(
            result.adx >= 0 && result.adx <= HUNDRED,
            "ADX {} out of range at index {}",
            result.adx,
            i
        );
        assert!(result.plus_di >= 0 && result.plus_di <= HUNDRED);
        assert!(result.minus_di >= 0 && result.minus_di <= HUNDRED);
        assert!(result.dx >= 0 && result.dx <= HUNDRED);
    }
}

#[test]
fn test_adx_trend_direction() {
    let mut adx = ADX::with_period(3).unwrap();

    let uptrend_data = vec![
        (100, 80, 90),
        (120, 100, 115),
        (140, 120, 135),
        (160, 140, 155),
    ];

    let mut last_result = None;
    for (high, low, close) in uptrend_data {
        let input = ADXInput { high, low, close };
        let result = adx.calculate(input).unwrap();
        last_result = Some(result);
    }

    if let Some(result) = last_result {
        if result.adx > 0 {
            assert_eq!(result.trend_direction, TrendDirection::Up);
            assert!(result.plus_di >= result.minus_di);
        }
    }
}

#[test]
fn test_adx_trend_strength() {
    let mut adx = ADX::with_period(2).unwrap();

    let test_data = vec![
        (100, 80, 90),
        (150, 130, 140),
        (200, 180, 190),
        (250, 230, 240),
    ];

    for (high, low, close) in test_data {
        let input = ADXInput { high, low, close };
        let _ = adx.calculate(input).unwrap();
    }

    assert_ne!(adx.trend_strength(), TrendStrength::Insufficient);
}

#[test]
fn test_adx_true_range_calculation() {
    let mut adx = ADX::new();

    let input1 = ADXInput {
        high: 100,
        low: 80,
        close: 90,
    };
    let result1 = adx.calculate(input1).unwrap();
    assert_eq!(result1.true_range, 0);

    // Second calculation with a gap: TR is the largest of (150-120),
    // (150-90) and (120-90), so 60.
    let input2 = ADXInput {
        high: 150,
        low: 120,
        close: 140,
    };
    let result2 = adx.calculate(input2).unwrap();
    assert_eq!(result2.true_range, 60);
}

#[test]
fn test_adx_error_handling() {
    let mut adx = ADX::new();

    let input = ADXInput {
        high: 80,
        low: 100,
        close: 90,
    };
    assert!(matches!(adx.calculate(input), Err(ADXError::InvalidHLC)));

    let input = ADXInput {
        high: 100,
        low: 80,
        close: 120,
    };
    assert!(matches!(adx.calculate(input), Err(ADXError::InvalidHLC)));

    assert!(matches!(ADX::with_period(0), Err(ADXError::InvalidPeriod)));
}

#[test]
fn test_adx_simple_function() {
    let highs = vec![100, 110, 125, 130, 140];
    let lows = vec![80, 90, 100, 110, 120];
    let closes = vec![90, 105, 120, 125, 135];

    let result = calculate_adx_simple(&highs, &lows, &closes, 3).unwrap();
    assert_eq!(result.len(), 5);

    for adx_value in result {
        assert!((0..=HUNDRED).contains(&adx_value));
    }
}

#[test]
fn test_directional_movement() {
    let mut adx = ADX::new();

    let input1 = ADXInput {
        high: 100,
        low: 80,
        close: 90,
    };
    let _ = adx.calculate(input1).unwrap();

    let input2 = ADXInput {
        high: 120,
        low: 100,
        close: 110,
    };
    adx.calculate(input2).unwrap();

    let input3 = ADXInput {
        high: 140,
        low: 120,
        close: 130,
    };
    let result3 = adx.calculate(input3).unwrap();

    // Two strictly rising bars: only upward movement was recorded.
    assert!(result3.plus_di >= result3.minus_di);
    assert_eq!(result3.minus_di, 0);
}

#[test]
fn test_adx_price_range_validation() {
    let mut adx = ADX::new();

    let input = ADXInput {
        high: 100,
        low: -5,
        close: 90,
    };
    assert!(matches!(adx.calculate(input), Err(ADXError::InvalidPrice)));

    let input = ADXInput {
        high: PRICE_MAX + 1,
        low: 80,
        close: 90,
    };
    assert!(matches!(adx.calculate(input), Err(ADXError::InvalidPrice)));
}

#[test]
fn test_adx_deferred_config_validation() {
    // An unchecked constructor accepts a bad configuration; the first
    // calculate call rejects it and leaves the state untouched.
    let mut adx = ADX::with_config(ADXConfig {
        period: 0,
        adx_smoothing: 14,
        strong_trend_threshold: 25_000_000,
        very_strong_trend_threshold: 50_000_000,
    });
    let input = ADXInput {
        high: 100,
        low: 80,
        close: 90,
    };
    assert!(matches!(adx.calculate(input), Err(ADXError::InvalidPeriod)));

    let mut adx = ADX::with_config(ADXConfig {
        period: 14,
        adx_smoothing: 14,
        strong_trend_threshold: 50_000_000,
        very_strong_trend_threshold: 25_000_000,
    });
    assert!(matches!(
        adx.calculate(input),
        Err(ADXError::InvalidThresholds)
    ));
}

#[test]
fn test_adx_simple_length_mismatch() {
    let highs = vec![100, 110];
    let lows = vec![80];
    let closes = vec![90, 105];
    assert!(matches!(
        calculate_adx_simple(&highs, &lows, &closes, 3),
        Err(ADXError::InvalidInput(_))
    ));
}

#[test]
fn test_adx_reset_replays_identically() {
    let bars = [
        (100, 80, 90),
        (110, 90, 105),
        (125, 100, 120),
        (130, 110, 125),
        (140, 120, 135),
    ];
    let mut adx = ADX::with_period(3).unwrap();
    let mut first: Vec<_> = Vec::new();
    for (high, low, close) in bars.iter() {
        first.push(adx.calculate(ADXInput { high: *high, low: *low, close: *close }).unwrap());
    }
    adx.reset();
    for (i, (high, low, close)) in bars.iter().enumerate() {
        let again = adx.calculate(ADXInput { high: *high, low: *low, close: *close }).unwrap();
        assert_eq!(again, first[i], "replay diverged at bar {}", i);
    }
}

#[test]
fn test_adx_snapshot_roundtrip() {
    let mut adx = ADX::with_period(3).unwrap();
    let warmup = [(100, 80, 90), (110, 90, 105), (125, 100, 120)];
    for (high, low, close) in warmup.iter() {
        adx.calculate(ADXInput { high: *high, low: *low, close: *close }).unwrap();
    }
    let snapshot = adx.get_state().snapshot();
    let bar = ADXInput {
        high: 130,
        low: 110,
        close: 125,
    };
    let out1 = adx.calculate(bar).unwrap();
    adx.set_state(snapshot);
    let out2 = adx.calculate(bar).unwrap();
    assert_eq!(out1, out2);
}

#[test]
fn test_adx_batch_matches_simple() {
    let highs = vec![100, 110, 125, 130, 140];
    let lows = vec![80, 90, 100, 110, 120];
    let closes = vec![90, 105, 120, 125, 135];

    let simple = calculate_adx_simple(&highs, &lows, &closes, 3).unwrap();

    let mut adx = ADX::with_period(3).unwrap();
    let inputs: Vec<ADXInput> = (0..highs.len())
        .map(|i| ADXInput { high: highs[i], low: lows[i], close: closes[i] })
        .collect();
    let batch = adx.calculate_batch(&inputs).unwrap();

    assert_eq!(simple.len(), batch.len());
    for i in 0..simple.len() {
        assert_eq!(simple[i], batch[i].adx, "mismatch at index {}", i);
    }

    // And one bar at a time through a fresh calculator agrees too.
    let mut one_by_one = ADX::with_period(3).unwrap();
    for i in 0..inputs.len() {
        let out = one_by_one.calculate(inputs[i]).unwrap();
        assert_eq!(out.adx, simple[i]);
    }
}

#[test]
fn test_adx_batch_stops_at_first_error() {
    let mut adx = ADX::with_period(2).unwrap();
    let inputs = vec![
        ADXInput { high: 100, low: 80, close: 90 },
        ADXInput { high: 80, low: 100, close: 90 },
        ADXInput { high: 110, low: 90, close: 100 },
    ];
    assert!(matches!(
        adx.calculate_batch(&inputs),
        Err(ADXError::InvalidHLC)
    ));
}

#[test]
fn test_adx_with_periods_validation() {
    assert!(matches!(
        ADX::with_periods(0, 5),
        Err(ADXError::InvalidPeriod)
    ));
    assert!(matches!(
        ADX::with_periods(5, 0),
        Err(ADXError::InvalidPeriod)
    ));
    assert!(ADX::with_periods(5, 3).is_ok());
}

#[test]
fn test_adx_trend_direction_getter() {
    let mut adx = ADX::with_period(2).unwrap();
    assert_eq!(adx.trend_direction(), None);
    adx.calculate(ADXInput { high: 100, low: 80, close: 90 }).unwrap();
    assert_eq!(adx.trend_direction(), None);
    adx.calculate(ADXInput { high: 120, low: 100, close: 110 }).unwrap();
    adx.calculate(ADXInput { high: 140, low: 120, close: 130 }).unwrap();
    assert_eq!(adx.trend_direction(), Some(TrendDirection::Up));
}
