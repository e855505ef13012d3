use creditrisk_api_rs::api::{ApiError, TrainingFault};
use creditrisk_api_rs::model::LogisticRegression;

fn b(x: f64) -> u64 {
    x.to_bits()
}

fn bv(xs: &[f64]) -> Vec<u64> {
    xs.iter().map(|x| x.to_bits()).collect()
}

#[test]
fn test_validate_training_empty_sets() {
    let model = LogisticRegression::new(2, b(0.1));
    let r = model.validate_training(&vec![], &vec![]);
    assert!(matches!(
        r,
        Err(ApiError::InvalidRequest(TrainingFault::EmptySets))
    ));
}

#[test]
fn test_validate_training_count_mismatch() {
    let model = LogisticRegression::new(2, b(0.1));
    let x = vec![bv(&[0.0, 1.0]), bv(&[1.0, 0.0])];
    let y = bv(&[1.0]);
    let r = model.validate_training(&x, &y);
    assert!(matches!(
        r,
        Err(ApiError::InvalidRequest(TrainingFault::SampleCountMismatch {
            features: 2,
            targets: 1,
        }))
    ));
}

#[test]
fn test_validate_training_reports_first_short_sample() {
    let model = LogisticRegression::new(2, b(0.1));
    let x = vec![bv(&[0.0, 1.0]), bv(&[1.0]), bv(&[3.0, 4.0, 5.0])];
    let y = bv(&[1.0, 0.0, 1.0]);
    let r = model.validate_training(&x, &y);
    assert!(matches!(
        r,
        Err(ApiError::InvalidRequest(TrainingFault::SampleFeatureMismatch {
            index: 1,
            received: 1,
            expected: 2,
        }))
    ));
}

#[test]
fn test_train_validated_trains_on_valid_data() {
    let mut direct = LogisticRegression::new(2, b(0.1));
    let mut checked = LogisticRegression::new(2, b(0.1));
    let x = vec![bv(&[0.0, 0.0]), bv(&[1.0, 1.0])];
    let y = bv(&[0.0, 1.0]);

    direct.train(&x, &y, 5);
    let r = checked.train_validated(&x, &y, 5);

    assert!(r.is_ok());
    assert_eq!(checked.weights, direct.weights);
    assert_eq!(checked.bias, direct.bias);
    assert!(checked.initialized);
}

#[test]
fn test_train_validated_rejection_leaves_model_untouched() {
    let mut model = LogisticRegression::new(2, b(0.1));
    let x = vec![bv(&[1.0, 2.0, 3.0])];
    let y = bv(&[1.0]);
    let r = model.train_validated(&x, &y, 5);
    assert!(r.is_err());
    assert_eq!(model.weights, bv(&[0.0, 0.0]));
    assert_eq!(model.bias, b(0.0));
    assert!(!model.initialized);
}

#[test]
fn test_handle_prediction_not_ready() {
    let mut model = LogisticRegression::new(2, b(0.1));
    let r = model.handle_prediction(&bv(&[1.0, 0.0]), None, None);
    assert!(matches!(r, Err(ApiError::ModelNotReady)));
}

#[test]
fn test_handle_prediction_feature_mismatch() {
    let mut model = LogisticRegression::new(2, b(0.1));
    model.initialized = true;
    let r = model.handle_prediction(&bv(&[1.0]), None, None);
    assert!(matches!(
        r,
        Err(ApiError::FeatureMismatch { expected: 2, received: 1 })
    ));
}

#[test]
fn test_handle_prediction_predicts() {
    let mut model = LogisticRegression::new(2, b(0.1));
    model.weights = bv(&[2.0, -1.0]);
    model.initialized = true;
    let r = model.handle_prediction(&bv(&[1.0, 0.0]), None, None).unwrap();
    assert_eq!(r.0, 1);
    assert_eq!(r.1, model.predict_raw(&bv(&[1.0, 0.0])));
}

#[test]
fn test_handle_prediction_reconfigure_resets_model() {
    let mut model = LogisticRegression::new(2, b(0.1));
    model.weights = bv(&[2.0, -1.0]);
    model.initialized = true;

    let r = model
        .handle_prediction(&bv(&[1.0, 0.0]), Some(b(0.5)), Some(true))
        .unwrap();

    // The freshly reset model has zero weights and bias, so the raw
    // prediction is sigmoid(0.0) = 0.5 exactly, classified as 0.
    assert_eq!(r.0, 0);
    assert_eq!(r.1, b(0.5));
    assert_eq!(model.weights, bv(&[0.0, 0.0]));
    assert_eq!(model.bias, b(0.0));
    assert_eq!(model.learning_rate, b(0.5));
    assert!(!model.initialized);
}

#[test]
fn test_handle_prediction_without_reconfigure_flag_keeps_model() {
    let mut model = LogisticRegression::new(2, b(0.1));
    model.weights = bv(&[2.0, -1.0]);
    model.initialized = true;

    let r = model
        .handle_prediction(&bv(&[1.0, 0.0]), Some(b(0.5)), None)
        .unwrap();

    assert_eq!(r.0, 1);
    assert_eq!(model.weights, bv(&[2.0, -1.0]));
    assert_eq!(model.learning_rate, b(0.1));
}

#[test]
fn test_api_error_status_code() {
    assert_eq!(ApiError::ModelNotReady.status_code(), 400);
    assert_eq!(
        ApiError::FeatureMismatch { expected: 2, received: 1 }.status_code(),
        400
    );
    assert_eq!(
        ApiError::InvalidRequest(TrainingFault::EmptySets).status_code(),
        400
    );
}
