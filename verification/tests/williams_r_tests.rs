use indexes_rs::common::{HUNDRED, SCALE};
use indexes_rs::williams_r::{
    calculate_williams_r_simple, WilliamsR, WilliamsRConfig, WilliamsRError, WilliamsRInput,
    WilliamsRMarketCondition, WR_NEUTRAL,
};

// Prices are fixed-point integers; these tests use one decimal digit of
// precision, so a price of 10.0 is written 100. Oscillator values and
// thresholds are in SCALE units of one million, so -20.0 is -20_000_000.

#[test]
fn test_williams_r_basic_calculation() {
    let mut williams_r = WilliamsR::with_period(3).unwrap();

    let test_data = [
        (100, 80, 90),
        (120, 90, 110),
        (110, 85, 100),
        (130, 100, 125),
        (90, 70, 75),
    ];

    for (i, (high, low, close)) in test_data.iter().enumerate() {
        let input = WilliamsRInput {
            high: *high,
            low: *low,
            close: *close,
        };
        let result = williams_r.calculate(input).unwrap();

        assert!(
            result.williams_r >= -HUNDRED && result.williams_r <= 0,
            "Williams %R {} out of range at index {}",
            result.williams_r,
            i
        );

        if i >= 2 {
            assert!(result.highest_high >= *high);
            assert!(result.lowest_low <= *low);
        }
    }
}

#[test]
fn test_williams_r_overbought_oversold() {
    let mut williams_r = WilliamsR::with_period(3).unwrap();

    let setup_data = vec![(100, 80, 90), (120, 90, 100), (110, 80, 95)];

    for (high, low, close) in setup_data {
        let input = WilliamsRInput { high, low, close };
        let _ = williams_r.calculate(input).unwrap();
    }

    let overbought_input = WilliamsRInput {
        high: 120,
        low: 100,
        close: 118,
    };
    let overbought_result = williams_r.calculate(overbought_input).unwrap();

    assert!(
        overbought_result.williams_r > -20 * SCALE,
        "Should be overbought"
    );
    assert!(williams_r.is_overbought(overbought_result.williams_r));

    let oversold_input = WilliamsRInput {
        high: 90,
        low: 70,
        close: 72,
    };
    let oversold_result = williams_r.calculate(oversold_input).unwrap();

    assert!(
        oversold_result.williams_r < -80 * SCALE,
        "Should be oversold"
    );
    assert!(williams_r.is_oversold(oversold_result.williams_r));
}

#[test]
fn test_williams_r_formula() {
    let mut williams_r = WilliamsR::with_period(3).unwrap();

    let setup_data = vec![(150, 100, 120), (160, 110, 130), (140, 90, 110)];

    for (high, low, close) in setup_data {
        let input = WilliamsRInput { high, low, close };
        let _ = williams_r.calculate(input).unwrap();
    }

    // Window: highest high 160, lowest low 90, close 120.
    let test_input = WilliamsRInput {
        high: 130,
        low: 110,
        close: 120,
    };
    let result = williams_r.calculate(test_input).unwrap();

    // (160 - 120) / (160 - 90) x -100 = -4/7 x 100, which the fixed-point
    // division rounds to -57.142857.
    assert_eq!(result.williams_r, -(HUNDRED * 40 / 70));
    assert_eq!(result.williams_r, -57_142_857);
}

#[test]
fn test_williams_r_extreme_conditions() {
    let config = WilliamsRConfig {
        period: 3,
        overbought: -20 * SCALE,
        oversold: -80 * SCALE,
        extreme_overbought: -10 * SCALE,
        extreme_oversold: -90 * SCALE,
    };
    let mut williams_r = WilliamsR::with_config(config);

    let setup_data = vec![(100, 80, 90), (120, 90, 100), (110, 80, 95)];

    for (high, low, close) in setup_data {
        let input = WilliamsRInput { high, low, close };
        let _ = williams_r.calculate(input).unwrap();
    }

    assert!(williams_r.is_extreme_condition(-5 * SCALE));
    assert!(williams_r.is_extreme_condition(-95 * SCALE));
    assert!(!williams_r.is_extreme_condition(-50 * SCALE));
}

#[test]
fn test_williams_r_signal_strength() {
    let williams_r = WilliamsR::new();

    // Distance from the neutral -50 level, as a fraction of one.
    assert_eq!(williams_r.signal_strength(-5 * SCALE), 900_000);
    assert_eq!(williams_r.signal_strength(-95 * SCALE), 900_000);
    assert_eq!(williams_r.signal_strength(-50 * SCALE), 0);
}

#[test]
fn test_williams_r_zero_range() {
    let mut williams_r = WilliamsR::with_period(3).unwrap();

    let identical_data = vec![(100, 100, 100), (100, 100, 100), (100, 100, 100)];

    for (high, low, close) in identical_data {
        let input = WilliamsRInput { high, low, close };
        let result = williams_r.calculate(input).unwrap();

        if result.market_condition != WilliamsRMarketCondition::Insufficient {
            assert_eq!(result.williams_r, WR_NEUTRAL);
            assert_eq!(result.price_range, 0);
        }
    }
}

#[test]
fn test_williams_r_error_handling() {
    let mut williams_r = WilliamsR::new();

    let input = WilliamsRInput {
        high: 80,
        low: 100,
        close: 90,
    };
    assert!(matches!(
        williams_r.calculate(input),
        Err(WilliamsRError::InvalidHLC)
    ));

    let input = WilliamsRInput {
        high: 100,
        low: 80,
        close: 120,
    };
    assert!(matches!(
        williams_r.calculate(input),
        Err(WilliamsRError::InvalidHLC)
    ));

    assert!(matches!(
        WilliamsR::with_period(0),
        Err(WilliamsRError::InvalidPeriod)
    ));

    // A positive overbought threshold is rejected.
    assert!(matches!(
        WilliamsR::with_thresholds(14, 20 * SCALE, -80 * SCALE, -10 * SCALE, -90 * SCALE),
        Err(WilliamsRError::InvalidThresholds)
    ));
}

#[test]
fn test_williams_r_simple_function() {
    let highs = vec![100, 120, 110, 130, 90];
    let lows = vec![80, 90, 85, 100, 70];
    let closes = vec![90, 110, 100, 125, 75];

    let result = calculate_williams_r_simple(&highs, &lows, &closes, 3).unwrap();
    assert_eq!(result.len(), 5);

    for wr_value in result {
        assert!(wr_value >= -HUNDRED && wr_value <= 0);
    }
}

#[test]
fn test_williams_r_market_conditions() {
    let mut williams_r = WilliamsR::with_period(2).unwrap();

    let input1 = WilliamsRInput {
        high: 100,
        low: 80,
        close: 90,
    };
    let result1 = williams_r.calculate(input1).unwrap();
    assert_eq!(
        result1.market_condition,
        WilliamsRMarketCondition::Insufficient
    );

    let input2 = WilliamsRInput {
        high: 120,
        low: 100,
        close: 110,
    };
    let result2 = williams_r.calculate(input2).unwrap();
    assert_ne!(
        result2.market_condition,
        WilliamsRMarketCondition::Insufficient
    );
}

#[test]
fn test_williams_r_reset_and_snapshot() {
    let bars = [(100, 80, 90), (120, 90, 110), (110, 85, 100), (130, 100, 125)];
    let mut williams_r = WilliamsR::with_period(3).unwrap();
    let mut first = Vec::new();
    for (high, low, close) in bars.iter() {
        first.push(
            williams_r
                .calculate(WilliamsRInput { high: *high, low: *low, close: *close })
                .unwrap(),
        );
    }
    williams_r.reset();
    for (i, (high, low, close)) in bars.iter().enumerate() {
        let again = williams_r
            .calculate(WilliamsRInput { high: *high, low: *low, close: *close })
            .unwrap();
        assert_eq!(again, first[i], "replay diverged at bar {}", i);
    }

    let snapshot = williams_r.get_state().snapshot();
    let bar = WilliamsRInput {
        high: 90,
        low: 70,
        close: 75,
    };
    let out1 = williams_r.calculate(bar).unwrap();
    williams_r.set_state(snapshot);
    let out2 = williams_r.calculate(bar).unwrap();
    assert_eq!(out1, out2);
}

#[test]
fn test_williams_r_simple_length_mismatch() {
    let highs = vec![100, 120];
    let lows = vec![80];
    let closes = vec![90, 110];
    assert!(matches!(
        calculate_williams_r_simple(&highs, &lows, &closes, 3),
        Err(WilliamsRError::InvalidInput(_))
    ));
}

#[test]
fn test_williams_r_price_range_validation() {
    let mut williams_r = WilliamsR::new();
    let input = WilliamsRInput {
        high: -1,
        low: -2,
        close: -1,
    };
    assert!(matches!(
        williams_r.calculate(input),
        Err(WilliamsRError::InvalidPrice)
    ));
}
