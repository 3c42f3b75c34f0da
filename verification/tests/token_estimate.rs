use conductor::token_estimate::{estimate_tokens, TokenCalibration};

fn ratio(c: &TokenCalibration) -> f64 {
    let (n, d) = c.ratio();
    n as f64 / d as f64
}

#[test]
fn returns_zero_for_empty_string() {
    assert_eq!(estimate_tokens(""), 0);
}

#[test]
fn estimates_based_on_character_length() {
    assert_eq!(estimate_tokens("abcd"), 1);
    assert_eq!(estimate_tokens("abcdefgh"), 2);
}

#[test]
fn rounds_up() {
    assert_eq!(estimate_tokens("abc"), 1);
}

#[test]
fn adjusts_ratio_based_on_actual_data() {
    let mut c = TokenCalibration::new();
    assert!((ratio(&c) - 4.0).abs() < f64::EPSILON);
    c.calibrate_token_estimate(100, 50);
    assert!((ratio(&c) - 2.5).abs() < f64::EPSILON);
    let mut c = TokenCalibration::new();
    c.calibrate_token_estimate(300, 100);
    assert!((ratio(&c) - 3.0).abs() < f64::EPSILON);
}

#[test]
fn clamps_ratio_to_reasonable_range() {
    let mut c = TokenCalibration::new();
    c.calibrate_token_estimate(700, 100);
    assert!((ratio(&c) - 6.0).abs() < f64::EPSILON);
}

#[test]
fn ignores_invalid_inputs() {
    let mut c = TokenCalibration::new();
    c.calibrate_token_estimate(0, 100);
    assert!((ratio(&c) - 4.0).abs() < f64::EPSILON);
    c.calibrate_token_estimate(100, 0);
    assert!((ratio(&c) - 4.0).abs() < f64::EPSILON);
}

#[test]
fn calibrated_estimate_uses_new_ratio() {
    let mut c = TokenCalibration::new();
    c.calibrate_token_estimate(300, 100);
    assert_eq!(c.estimate_tokens("abcdefg"), 3);
    assert_eq!(c.estimate_len(9), 3);
}
