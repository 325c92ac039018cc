use verdyce::decay::{weight_calc, DecayModel};

#[test]
fn test_linear_decay() {
    let decay = DecayModel::Linear;
    let w = weight_calc(&decay, 600, 1800);
    let expected: i64 = 1000000 - 600 * 1000000 / 1800;
    let epsilon: i64 = 1000;
    assert!((w as i64 - expected).abs() < epsilon);
}

#[test]
fn test_exponential_decay() {
    // A rate of 0.001 per second is 1000 ppm; e^-0.3 is about 0.740818.
    let decay = DecayModel::Exponential(1000);
    let w = weight_calc(&decay, 300, 1800);
    let expected: i64 = 740818;
    let epsilon: i64 = 1000;
    assert!((w as i64 - expected).abs() < epsilon);
}

#[test]
fn test_stepped_decay() {
    let decay = DecayModel::Stepped;
    let w1 = weight_calc(&decay, 200, 1800);
    let w2 = weight_calc(&decay, 800, 1800);
    let w3 = weight_calc(&decay, 1400, 1800);
    assert_eq!(w1, 1000000);
    assert_eq!(w2, 500000);
    assert_eq!(w3, 100000);
}

#[test]
fn test_linear_decay_start_and_end() {
    // Full weight at the very start, floored from the end of the window on.
    assert_eq!(weight_calc(&DecayModel::Linear, 0, 600), 1000000);
    assert_eq!(weight_calc(&DecayModel::Linear, 300, 600), 500000);
    assert_eq!(weight_calc(&DecayModel::Linear, 600, 600), 100000);
    assert_eq!(weight_calc(&DecayModel::Linear, 5000, 600), 100000);
}

#[test]
fn test_decay_stays_within_range() {
    // Every model lands in [0.1, 1.0] ppm, even at extreme inputs.
    let models = [
        DecayModel::Linear,
        DecayModel::Exponential(0),
        DecayModel::Exponential(3000000),
        DecayModel::Stepped,
    ];
    for model in models.iter() {
        for t in [0u64, 1, 599, 600, 601, 100000].iter() {
            let w = weight_calc(model, *t, 600);
            assert!((100000..=1000000).contains(&w));
        }
    }
}

#[test]
fn test_exponential_zero_rate_never_decays() {
    // Rate zero keeps e^0 = 1.0 whatever the elapsed time.
    assert_eq!(weight_calc(&DecayModel::Exponential(0), 0, 100), 1000000);
    assert_eq!(weight_calc(&DecayModel::Exponential(0), 1000000, 100), 1000000);
}
