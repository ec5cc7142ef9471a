use indexes_rs::obv::{calculate_obv_simple, OBVError, OBVInput, OBV};

#[test]
fn test_obv_basic_calculation() {
    let mut obv = OBV::new();

    let test_cases = [
        (100, 1000),
        (105, 1500),
        (103, 1200),
        (103, 800),
        (107, 2000),
    ];

    let expected_obv = [1000, 2500, 1300, 1300, 3300];

    for (i, (close, volume)) in test_cases.iter().enumerate() {
        let input = OBVInput {
            close: *close,
            volume: *volume,
        };
        let result = obv.calculate(input).unwrap();
        assert_eq!(result.obv, expected_obv[i], "Failed at index {}", i);
    }
}

#[test]
fn test_obv_flow_direction() {
    let mut obv = OBV::new();

    let input1 = OBVInput {
        close: 100,
        volume: 1000,
    };
    let result1 = obv.calculate(input1).unwrap();
    assert_eq!(result1.flow_direction, 0);

    let input2 = OBVInput {
        close: 105,
        volume: 1500,
    };
    let result2 = obv.calculate(input2).unwrap();
    assert_eq!(result2.flow_direction, 1);

    let input3 = OBVInput {
        close: 103,
        volume: 1200,
    };
    let result3 = obv.calculate(input3).unwrap();
    assert_eq!(result3.flow_direction, -1);

    let input4 = OBVInput {
        close: 103,
        volume: 800,
    };
    let result4 = obv.calculate(input4).unwrap();
    assert_eq!(result4.flow_direction, 0);
}

#[test]
fn test_obv_simple_function() {
    let closes = vec![100, 105, 103, 103, 107];
    let volumes = vec![1000, 1500, 1200, 800, 2000];

    let result = calculate_obv_simple(&closes, &volumes).unwrap();
    let expected = vec![1000, 2500, 1300, 1300, 3300];

    assert_eq!(result, expected);
}

#[test]
fn test_obv_error_handling() {
    let mut obv = OBV::new();

    let input = OBVInput {
        close: 100,
        volume: -1000,
    };
    assert!(matches!(
        obv.calculate(input),
        Err(OBVError::NegativeVolume)
    ));

    let input = OBVInput {
        close: -1,
        volume: 1000,
    };
    assert!(matches!(obv.calculate(input), Err(OBVError::InvalidPrice)));
}

#[test]
fn test_obv_reset_replays_identically() {
    let bars = [(100, 1000), (105, 1500), (103, 1200), (107, 2000)];
    let mut obv = OBV::new();
    let mut first = Vec::new();
    for (close, volume) in bars.iter() {
        first.push(obv.calculate(OBVInput { close: *close, volume: *volume }).unwrap());
    }
    obv.reset();
    for (i, (close, volume)) in bars.iter().enumerate() {
        let again = obv.calculate(OBVInput { close: *close, volume: *volume }).unwrap();
        assert_eq!(again, first[i], "replay diverged at bar {}", i);
    }
}

#[test]
fn test_obv_snapshot_roundtrip() {
    let mut obv = OBV::new();
    obv.calculate(OBVInput { close: 100, volume: 1000 }).unwrap();
    obv.calculate(OBVInput { close: 105, volume: 1500 }).unwrap();
    let snapshot = obv.get_state().snapshot();
    let bar = OBVInput {
        close: 103,
        volume: 1200,
    };
    let out1 = obv.calculate(bar).unwrap();
    obv.set_state(snapshot);
    let out2 = obv.calculate(bar).unwrap();
    assert_eq!(out1, out2);
}

#[test]
fn test_obv_batch_matches_simple() {
    let closes = vec![100, 105, 103, 103, 107];
    let volumes = vec![1000, 1500, 1200, 800, 2000];

    let simple = calculate_obv_simple(&closes, &volumes).unwrap();

    let mut obv = OBV::new();
    let inputs: Vec<OBVInput> = (0..closes.len())
        .map(|i| OBVInput { close: closes[i], volume: volumes[i] })
        .collect();
    let batch = obv.calculate_batch(&inputs).unwrap();

    assert_eq!(simple.len(), batch.len());
    for i in 0..simple.len() {
        assert_eq!(simple[i], batch[i].obv, "mismatch at index {}", i);
    }
}

#[test]
fn test_obv_simple_length_mismatch() {
    let closes = vec![100, 105];
    let volumes = vec![1000];
    assert!(matches!(
        calculate_obv_simple(&closes, &volumes),
        Err(OBVError::InvalidInput(_))
    ));
}
