use creditrisk_api_rs::model::LogisticRegression;
use creditrisk_api_rs::persist::ModelSnapshot;

fn b(x: f64) -> u64 {
    x.to_bits()
}

fn bv(xs: &[f64]) -> Vec<u64> {
    xs.iter().map(|x| x.to_bits()).collect()
}

#[test]
fn test_serialization() {
    let mut model = LogisticRegression::new(2, b(0.01));
    model.weights = bv(&[0.5, -0.3]);
    model.bias = b(0.2);
    model.initialized = true;

    let serialized = model.to_snapshot();
    let deserialized = LogisticRegression::from_snapshot(serialized);

    assert_eq!(model.weights, deserialized.weights);
    assert_eq!(model.bias, deserialized.bias);
    assert_eq!(model.learning_rate, deserialized.learning_rate);
    assert_eq!(model.initialized, deserialized.initialized);
}

#[test]
fn test_snapshot_writes_every_field() {
    let mut model = LogisticRegression::new(1, b(0.1));
    model.bias = b(0.25);
    model.initialized = true;

    let s = model.to_snapshot();
    assert_eq!(s.weights, bv(&[0.0]));
    assert_eq!(s.bias, Some(b(0.25)));
    assert_eq!(s.learning_rate, b(0.1));
    assert_eq!(s.initialized, Some(true));
}

#[test]
fn test_restore_defaults_for_absent_fields() {
    // A snapshot from before the bias and the initialized flag existed.
    let s = ModelSnapshot {
        weights: bv(&[0.5, -0.3]),
        bias: None,
        learning_rate: b(0.01),
        initialized: None,
    };

    let model = LogisticRegression::from_snapshot(s);
    assert_eq!(model.weights, bv(&[0.5, -0.3]));
    assert_eq!(model.bias, b(0.0));
    assert_eq!(model.learning_rate, b(0.01));
    assert_eq!(model.initialized, false);
}
