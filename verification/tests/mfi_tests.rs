use indexes_rs::common::{HUNDRED, PRICE_MAX, SCALE};
use indexes_rs::mfi::{calculate_mfi_simple, MFIConfig, MFIError, MFIInput, MFIMarketCondition, MFI};

// Prices are fixed-point integers; these tests use one decimal digit of
// precision, so a price of 10.0 is written 100. MFI values and thresholds
// are in SCALE units of one million.

#[test]
fn test_mfi_basic_calculation() {
    let mut mfi = MFI::with_period(3).unwrap();

    let test_data = vec![
        (100, 80, 90, 1000),
        (110, 90, 100, 1500),
        (105, 85, 90, 1200),
        (120, 100, 110, 1800),
    ];

    for (high, low, close, volume) in test_data {
        let input = MFIInput {
            high,
            low,
            close,
            volume,
        };
        let result = mfi.calculate(input).unwrap();

        assert!(result.mfi >= 0 && result.mfi <= HUNDRED);

        let expected_tp = (high + low + close) / 3;
        assert_eq!(result.typical_price, expected_tp);
    }
}

#[test]
fn test_mfi_market_conditions() {
    let config = MFIConfig {
        period: 2,
        overbought: 80 * SCALE,
        oversold: 20 * SCALE,
    };
    let mut mfi = MFI::with_config(config);

    let input1 = MFIInput {
        high: 100,
        low: 80,
        close: 90,
        volume: 1000,
    };
    let result1 = mfi.calculate(input1).unwrap();
    assert_eq!(result1.market_condition, MFIMarketCondition::Insufficient);

    let input2 = MFIInput {
        high: 150,
        low: 130,
        close: 140,
        volume: 2000,
    };
    let result2 = mfi.calculate(input2).unwrap();

    assert_ne!(result2.market_condition, MFIMarketCondition::Insufficient);
}

#[test]
fn test_mfi_flow_direction() {
    let mut mfi = MFI::with_period(2).unwrap();

    let input1 = MFIInput {
        high: 100,
        low: 80,
        close: 90,
        volume: 1000,
    };
    let result1 = mfi.calculate(input1).unwrap();
    assert_eq!(result1.flow_direction, 0);

    let input2 = MFIInput {
        high: 120,
        low: 100,
        close: 110,
        volume: 1500,
    };
    let result2 = mfi.calculate(input2).unwrap();
    assert_eq!(result2.flow_direction, 1);

    let input3 = MFIInput {
        high: 100,
        low: 80,
        close: 90,
        volume: 1200,
    };
    let result3 = mfi.calculate(input3).unwrap();
    assert_eq!(result3.flow_direction, -1);
}

#[test]
fn test_mfi_error_handling() {
    let mut mfi = MFI::new();

    let input = MFIInput {
        high: 80,
        low: 100,
        close: 90,
        volume: 1000,
    };
    assert!(matches!(mfi.calculate(input), Err(MFIError::InvalidOHLC)));

    let input = MFIInput {
        high: 100,
        low: 80,
        close: 90,
        volume: -1000,
    };
    assert!(matches!(
        mfi.calculate(input),
        Err(MFIError::NegativeVolume)
    ));

    assert!(matches!(MFI::with_period(0), Err(MFIError::InvalidPeriod)));
}

#[test]
fn test_mfi_simple_function() {
    let highs = vec![100, 110, 105, 120];
    let lows = vec![80, 90, 85, 100];
    let closes = vec![90, 100, 90, 110];
    let volumes = vec![1000, 1500, 1200, 1800];

    let result = calculate_mfi_simple(&highs, &lows, &closes, &volumes, 3).unwrap();
    assert_eq!(result.len(), 4);

    for mfi_value in result {
        assert!((0..=HUNDRED).contains(&mfi_value));
    }
}

#[test]
fn test_mfi_all_positive_flow() {
    // Strictly rising typical prices over a full window: the index pegs at
    // one hundred because no negative flow exists.
    let mut mfi = MFI::with_period(2).unwrap();
    mfi.calculate(MFIInput { high: 100, low: 80, close: 90, volume: 1000 }).unwrap();
    let out = mfi
        .calculate(MFIInput { high: 120, low: 100, close: 110, volume: 1000 })
        .unwrap();
    assert_eq!(out.mfi, HUNDRED);

    assert!(mfi.positive_money_flow() > 0);
    assert_eq!(mfi.negative_money_flow(), 0);
}

#[test]
fn test_mfi_reset_and_snapshot() {
    let bars = [
        (100, 80, 90, 1000),
        (110, 90, 100, 1500),
        (105, 85, 90, 1200),
        (120, 100, 110, 1800),
    ];
    let mut mfi = MFI::with_period(3).unwrap();
    let mut first = Vec::new();
    for (high, low, close, volume) in bars.iter() {
        first.push(
            mfi.calculate(MFIInput {
                high: *high,
                low: *low,
                close: *close,
                volume: *volume,
            })
            .unwrap(),
        );
    }
    mfi.reset();
    for (i, (high, low, close, volume)) in bars.iter().enumerate() {
        let again = mfi
            .calculate(MFIInput { high: *high, low: *low, close: *close, volume: *volume })
            .unwrap();
        assert_eq!(again, first[i], "replay diverged at bar {}", i);
    }

    let snapshot = mfi.get_state().snapshot();
    let bar = MFIInput {
        high: 130,
        low: 110,
        close: 120,
        volume: 900,
    };
    let out1 = mfi.calculate(bar).unwrap();
    mfi.set_state(snapshot);
    let out2 = mfi.calculate(bar).unwrap();
    assert_eq!(out1, out2);
}

#[test]
fn test_mfi_batch_matches_simple() {
    let highs = vec![100, 110, 105, 120];
    let lows = vec![80, 90, 85, 100];
    let closes = vec![90, 100, 90, 110];
    let volumes = vec![1000, 1500, 1200, 1800];

    let simple = calculate_mfi_simple(&highs, &lows, &closes, &volumes, 3).unwrap();

    let mut mfi = MFI::with_period(3).unwrap();
    let inputs: Vec<MFIInput> = (0..highs.len())
        .map(|i| MFIInput {
            high: highs[i],
            low: lows[i],
            close: closes[i],
            volume: volumes[i],
        })
        .collect();
    let batch = mfi.calculate_batch(&inputs).unwrap();

    assert_eq!(simple.len(), batch.len());
    for i in 0..simple.len() {
        assert_eq!(simple[i], batch[i].mfi, "mismatch at index {}", i);
    }
}

#[test]
fn test_mfi_volume_range_validation() {
    let mut mfi = MFI::new();
    let input = MFIInput {
        high: 100,
        low: 80,
        close: 90,
        volume: PRICE_MAX + 1,
    };
    assert!(matches!(mfi.calculate(input), Err(MFIError::InvalidPrice)));
}

#[test]
fn test_mfi_simple_length_mismatch() {
    let highs = vec![100, 110];
    let lows = vec![80];
    let closes = vec![90, 100];
    let volumes = vec![1000, 1500];
    assert!(matches!(
        calculate_mfi_simple(&highs, &lows, &closes, &volumes, 3),
        Err(MFIError::InvalidInput(_))
    ));
}

#[test]
fn test_mfi_close_out_of_range() {
    let mut mfi = MFI::new();
    let input = MFIInput {
        high: 100,
        low: 80,
        close: 120,
        volume: 1000,
    };
    assert!(matches!(mfi.calculate(input), Err(MFIError::InvalidOHLC)));
}
