use onnx_service::reply::{served, Refusal, Status};
use onnx_service::text::{prefixed, push_decimal};

fn check(refusal: Refusal, status: Status, body: &str) {
    let reply = refusal.reply();
    assert_eq!(reply.status, status);
    assert_eq!(reply.body, body);
}

#[test]
fn writes_decimal_numerals() {
    for n in [0, 7, 9, 10, 99, 100, 1234567890, usize::MAX] {
        let mut text = "n=".to_string();
        push_decimal(&mut text, n);
        assert_eq!(text, format!("n={}", n));
    }
}

#[test]
fn puts_the_detail_behind_the_prefix() {
    assert_eq!(prefixed("a: ", "b"), "a: b");
}

#[test]
fn server_faults() {
    let fault = Status::InternalServerError;
    check(Refusal::ModelUnavailable("no such host".to_string()), fault, "no such host");
    check(Refusal::NoModelInputs, fault, "Model has no inputs");
    check(Refusal::NoOutputs, fault, "Model produced no outputs");
}

#[test]
fn faults_of_the_model_input() {
    let bad = Status::BadRequest;
    check(
        Refusal::UnexpectedInput("Sequence".to_string()),
        bad,
        "Unexpected model input type: Sequence",
    );
    check(
        Refusal::ElementCount { elements: 12, sensors: 2, covariates: 1, input_size: 5, expected: 15 },
        bad,
        "Model input element count (12) does not match expected (sensors+covariates)*input_size = (2+1)*5 = 15",
    );
}

#[test]
fn faults_of_the_input_resource() {
    let bad = Status::BadRequest;
    check(Refusal::MissingResource, bad, "init=true requires input_resource");
    check(
        Refusal::ResourceStatus("404".to_string()),
        bad,
        "input_resource returned error status: 404",
    );
    check(
        Refusal::ResourceUnreachable("timeout".to_string()),
        bad,
        "Failed to GET input_resource: timeout",
    );
    check(
        Refusal::ResourceMalformed("eof".to_string()),
        bad,
        "Failed to parse JSON from input_resource: eof",
    );
    check(Refusal::MissingSensorKey, bad, r#"input_resource JSON missing key "sensor_""#);
    check(Refusal::SensorNotArray, bad, "sensor_ must be an array");
    check(Refusal::RowNotArray, bad, "sensor_ must be an array of arrays");
    check(Refusal::NonNumeric, bad, "sensor_ contains non-numeric value");
    check(
        Refusal::FlattenedLength { found: 3, expected: 10 },
        bad,
        "Flattened sensor_ length (3) does not match expected_total (10)",
    );
}

#[test]
fn faults_of_the_covariates() {
    let bad = Status::BadRequest;
    check(
        Refusal::NotInitialized,
        bad,
        "init=false received but no cached input exists; call init=true first",
    );
    check(Refusal::MissingInput, bad, "init=false requires input (new covariate values)");
    check(
        Refusal::CovariatesMalformed("eof".to_string()),
        bad,
        "Invalid input JSON for covariates: eof",
    );
    check(
        Refusal::CovariateCount { expected: 2, found: 10 },
        bad,
        "Expected 2 covariate values, got 10",
    );
    check(
        Refusal::DimensionsChanged,
        bad,
        "Cached input dimensions do not match request; call init=true again",
    );
}

#[test]
fn faults_of_the_predictions() {
    let bad = Status::BadRequest;
    check(Refusal::Inference("bad rank".to_string()), bad, "bad rank");
    check(
        Refusal::PredictionCount { found: 1, sensors: 2 },
        bad,
        "Model output length (1) does not match sensors (2)",
    );
}

#[test]
fn served_requests_have_status_success() {
    let reply = served("[1.0]".to_string());
    assert_eq!(reply.status, Status::Success);
    assert_eq!(reply.body, "[1.0]");
}
