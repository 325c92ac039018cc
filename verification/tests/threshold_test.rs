use verdyce::threshold::{threshold_calc, ThresholdModel};

#[test]
fn test_linear_threshold() {
    // Rate 0.5 and start 0.1, at t = 10: 5.1, clamped to the 0.9 ceiling.
    let model = ThresholdModel::Linear(500000, 100000);
    let t = 10;
    let total = 100;
    let thres = threshold_calc(&model, t, total);
    let expected: i64 = 900000;
    assert!((thres as i64 - expected).abs() < 1000);
}

#[test]
fn test_exponential_threshold() {
    // Rate 0.5 and base 0.1, at t = 10: far along the growth curve,
    // clamped to the 0.9 ceiling.
    let model = ThresholdModel::Exponential(500000, 100000);
    let t = 10;
    let total = 100;
    let thres = threshold_calc(&model, t, total);
    let expected: i64 = 900000;
    assert!((thres as i64 - expected).abs() < 1000);
}

#[test]
fn test_sigmoid_threshold() {
    // Rate 0.5 and floor 0.1 at a tenth of the window: the logistic value
    // of 0.5 * (0.1 - 0.5) is about 0.450166, so about 0.505149 overall.
    let model = ThresholdModel::Sigmoid(500000, 100000);
    let t = 10;
    let total = 100;
    let thres = threshold_calc(&model, t, total);
    let expected: i64 = 505149;
    assert!((thres as i64 - expected).abs() < 1000);
}

#[test]
fn test_threshold_clamps_whatever_the_parameters() {
    // The [0.35, 0.9] rail holds for hostile parameters too.
    assert_eq!(threshold_calc(&ThresholdModel::Linear(-500000, 0), 100, 50), 350000);
    assert_eq!(threshold_calc(&ThresholdModel::Linear(0, 2000000), 0, 50), 900000);
    // A negative exponential rate sends the curve far below the floor.
    assert_eq!(threshold_calc(&ThresholdModel::Exponential(-1000000, 500000), 3, 50), 350000);
    // A steep sigmoid far past the window saturates at the ceiling.
    assert_eq!(threshold_calc(&ThresholdModel::Sigmoid(1000000, 100000), 1000, 10), 900000);
    // And far before the midpoint with a huge rate it sits on the floor.
    assert_eq!(threshold_calc(&ThresholdModel::Sigmoid(2000000000, 0), 0, 1000000), 350000);
}

#[test]
fn test_sigmoid_midpoint() {
    // At the exact midpoint the logistic value is one half.
    let model = ThresholdModel::Sigmoid(500000, 100000);
    let thres = threshold_calc(&model, 50, 100);
    // 0.1 + 0.9 * 0.5 = 0.55.
    assert!((thres as i64 - 550000).abs() < 1000);
}
