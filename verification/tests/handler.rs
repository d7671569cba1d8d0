use onnx_service::handler::{Action, Event, Exchange};
use onnx_service::input::CachedInput;
use onnx_service::json::Json;
use onnx_service::output::Choice;
use onnx_service::reply::Status;
use onnx_service::request::PredictionRequest;
use onnx_service::shape::InputType;

/// A request for one sensor and one covariate with histories of three values.
fn request(init: bool) -> PredictionRequest {
    PredictionRequest {
        init,
        input: Some("[9.0]".to_string()),
        model_url: "http://models/heating.onnx".to_string(),
        input_resource: Some("http://inputs/heating".to_string()),
        sensors: 1,
        covariates: 1,
        input_size: 3,
    }
}

fn cached() -> CachedInput<f32> {
    CachedInput {
        data: vec![1.0, 2.0, 3.0, 7.0, 8.0, 8.5],
        sensors: 1,
        covariates: 1,
        input_size: 3,
    }
}

fn floats(dimensions: &[i64]) -> Event<f32> {
    Event::Inspected(Some(InputType::Floats(dimensions.to_vec())))
}

fn document(rows: &[&[f32]]) -> Event<f32> {
    let rows = rows
        .iter()
        .map(|row| Json::Array(row.iter().map(|value| Json::Number(*value)).collect()))
        .collect();
    Event::InputFetched(Json::Object(vec![("sensor_".to_string(), Json::Array(rows))]))
}

fn names(names: &[&str]) -> Event<f32> {
    Event::Ran(names.iter().map(|name| name.to_string()).collect())
}

fn expect_reply(action: Action<f32>, status: Status, body: &str) {
    match action {
        Action::Respond(reply) => {
            assert_eq!(reply.status, status);
            assert_eq!(reply.body, body);
        }
        other => panic!("a reply must be sent, not {:?}", other),
    }
}

fn expect_inference(action: Action<f32>, expected_shape: &[usize], expected_data: &[f32]) {
    match action {
        Action::Infer { shape, data } => {
            assert_eq!(shape, expected_shape);
            assert_eq!(data, expected_data);
        }
        other => panic!("the model must be run, not {:?}", other),
    }
}

/// An exchange that has been told that the model takes six floats in a row.
fn inspected(request: PredictionRequest, input: &mut CachedInput<f32>) -> (Exchange, Action<f32>) {
    let mut exchange = Exchange::new(request);
    let action = exchange.step(floats(&[-1, 6]), input);
    (exchange, action)
}

#[test]
fn an_initial_request_is_served() {
    let mut input = CachedInput::placeholder();
    let mut exchange = Exchange::new(request(true));
    match exchange.step(floats(&[-1, 6]), &mut input) {
        Action::FetchInput(url) => assert_eq!(url, "http://inputs/heating"),
        other => panic!("the input must be fetched, not {:?}", other),
    }
    let action = exchange.step(document(&[&[1.0, 2.0, 3.0], &[7.0, 8.0, 8.5]]), &mut input);
    expect_inference(action, &[1, 6], &[1.0, 2.0, 3.0, 7.0, 8.0, 8.5]);
    assert_eq!((input.sensors, input.covariates, input.input_size), (1, 1, 3));
    match exchange.step(names(&["label", "variable"]), &mut input) {
        Action::Extract(choice) => assert_eq!(choice, Choice::Named(1)),
        other => panic!("the output must be read, not {:?}", other),
    }
    match exchange.step(Event::Extracted(vec![4.0]), &mut input) {
        Action::Encode(values) => assert_eq!(values, [4.0]),
        other => panic!("the predictions must be written, not {:?}", other),
    }
    assert_eq!(input.data, [2.0, 3.0, 4.0, 7.0, 8.0, 8.5]);
    let action = exchange.step(Event::Encoded(Ok("[4.0]".to_string())), &mut input);
    expect_reply(action, Status::Success, "[4.0]");
}

#[test]
fn an_updating_request_is_served() {
    let mut input = cached();
    let mut exchange = Exchange::new(request(false));
    match exchange.step(floats(&[1, 3, 2]), &mut input) {
        Action::ParseCovariates(text) => assert_eq!(text, "[9.0]"),
        other => panic!("the covariates must be read, not {:?}", other),
    }
    let action = exchange.step(Event::CovariatesParsed(vec![9.0]), &mut input);
    expect_inference(action, &[1, 3, 2], &[1.0, 8.0, 2.0, 8.5, 3.0, 9.0]);
    match exchange.step(names(&["label"]), &mut input) {
        Action::Extract(choice) => assert_eq!(choice, Choice::First),
        other => panic!("the output must be read, not {:?}", other),
    }
    exchange.step(Event::Extracted(vec![4.0]), &mut input);
    assert_eq!(input.data, [2.0, 3.0, 4.0, 8.0, 8.5, 9.0]);
    let action = exchange.step(Event::Encoded(Err("cannot write".to_string())), &mut input);
    expect_reply(action, Status::Success, "cannot write");
}

#[test]
fn an_initialized_model_takes_updates() {
    let mut input = CachedInput::placeholder();
    let (mut exchange, _) = inspected(request(true), &mut input);
    exchange.step(document(&[&[1.0, 2.0, 3.0, 7.0, 8.0, 8.5]]), &mut input);
    exchange.step(names(&["output"]), &mut input);
    exchange.step(Event::Extracted(vec![4.0]), &mut input);
    exchange.step(Event::Encoded(Ok("[4.0]".to_string())), &mut input);
    let (mut exchange, action) = inspected(request(false), &mut input);
    assert!(matches!(action, Action::ParseCovariates(_)));
    let action = exchange.step(Event::CovariatesParsed(vec![9.0]), &mut input);
    expect_inference(action, &[1, 6], &[2.0, 3.0, 4.0, 8.0, 8.5, 9.0]);
}

#[test]
fn an_update_needs_an_initialized_model() {
    let mut input = CachedInput::placeholder();
    let (_, action) = inspected(request(false), &mut input);
    expect_reply(
        action,
        Status::BadRequest,
        "init=false received but no cached input exists; call init=true first",
    );
}

#[test]
fn models_must_take_floats() {
    let mut input = cached();
    let action = Exchange::new(request(true)).step(Event::Inspected(None), &mut input);
    expect_reply(action, Status::InternalServerError, "Model has no inputs");
    let other = InputType::Other("Map".to_string());
    let action = Exchange::new(request(true)).step(Event::Inspected(Some(other)), &mut input);
    expect_reply(action, Status::BadRequest, "Unexpected model input type: Map");
}

#[test]
fn models_must_take_as_many_values_as_the_request_has() {
    let mut input = cached();
    let action = Exchange::new(request(true)).step(floats(&[-1, 3, 3]), &mut input);
    expect_reply(
        action,
        Status::BadRequest,
        "Model input element count (9) does not match expected (sensors+covariates)*input_size = (1+1)*3 = 6",
    );
}

#[test]
fn an_initial_request_needs_an_address() {
    let mut input = cached();
    for input_resource in [None, Some(String::new())] {
        let (_, action) =
            inspected(PredictionRequest { input_resource, ..request(true) }, &mut input);
        expect_reply(action, Status::BadRequest, "init=true requires input_resource");
    }
}

#[test]
fn an_update_needs_values() {
    let mut input = cached();
    let (_, action) = inspected(PredictionRequest { input: None, ..request(false) }, &mut input);
    expect_reply(action, Status::BadRequest, "init=false requires input (new covariate values)");
}

#[test]
fn faults_of_the_resource_are_reported() {
    let faults = [
        (Event::ResourceStatus("500".to_string()), "input_resource returned error status: 500"),
        (Event::ResourceUnreachable("dns".to_string()), "Failed to GET input_resource: dns"),
        (
            Event::ResourceMalformed("eof".to_string()),
            "Failed to parse JSON from input_resource: eof",
        ),
        (
            Event::InputFetched(Json::Null),
            r#"input_resource JSON missing key "sensor_""#,
        ),
        (document(&[&[1.0]]), "Flattened sensor_ length (1) does not match expected_total (6)"),
    ];
    for (event, body) in faults {
        let mut input = cached();
        let (mut exchange, _) = inspected(request(true), &mut input);
        expect_reply(exchange.step(event, &mut input), Status::BadRequest, body);
        assert_eq!(input.data, cached().data);
    }
}

#[test]
fn faults_of_the_covariates_are_reported() {
    let faults = [
        (
            Event::CovariatesMalformed("eof".to_string()),
            "Invalid input JSON for covariates: eof",
        ),
        (Event::CovariatesParsed(vec![]), "Expected 1 covariate values, got 0"),
    ];
    for (event, body) in faults {
        let mut input = cached();
        let (mut exchange, _) = inspected(request(false), &mut input);
        expect_reply(exchange.step(event, &mut input), Status::BadRequest, body);
        assert_eq!(input.data, cached().data);
    }
}

#[test]
fn an_update_needs_the_cached_dimensions() {
    let mut input = cached();
    let other = PredictionRequest { sensors: 5, covariates: 1, input_size: 1, ..request(false) };
    let (mut exchange, action) = inspected(other, &mut input);
    assert!(matches!(action, Action::ParseCovariates(_)));
    expect_reply(
        exchange.step(Event::CovariatesParsed(vec![9.0]), &mut input),
        Status::BadRequest,
        "Cached input dimensions do not match request; call init=true again",
    );
    assert_eq!(input.data, cached().data);
}

#[test]
fn faults_of_inference_are_reported() {
    let mut input = cached();
    let (mut exchange, _) = inspected(request(false), &mut input);
    exchange.step(Event::CovariatesParsed(vec![9.0]), &mut input);
    let action = exchange.step(Event::InferenceFailed("bad rank".to_string()), &mut input);
    expect_reply(action, Status::BadRequest, "bad rank");
    assert_eq!(input.data, [1.0, 2.0, 3.0, 8.0, 8.5, 9.0]);

    let mut input = cached();
    let (mut exchange, _) = inspected(request(false), &mut input);
    exchange.step(Event::CovariatesParsed(vec![9.0]), &mut input);
    let action = exchange.step(names(&[]), &mut input);
    expect_reply(action, Status::InternalServerError, "Model produced no outputs");
}

#[test]
fn faults_of_the_predictions_are_reported() {
    let faults = [
        (Event::InferenceFailed("not floats".to_string()), "not floats"),
        (
            Event::Extracted(vec![4.0, 5.0]),
            "Model output length (2) does not match sensors (1)",
        ),
    ];
    for (event, body) in faults {
        let mut input = cached();
        let (mut exchange, _) = inspected(request(false), &mut input);
        exchange.step(Event::CovariatesParsed(vec![9.0]), &mut input);
        exchange.step(names(&["values"]), &mut input);
        expect_reply(exchange.step(event, &mut input), Status::BadRequest, body);
        assert_eq!(input.data, [1.0, 2.0, 3.0, 8.0, 8.5, 9.0]);
    }
}

#[test]
fn unexpected_events_are_ignored() {
    let mut input = cached();
    let (mut exchange, _) = inspected(request(false), &mut input);
    let action = exchange.step(Event::Extracted(vec![4.0]), &mut input);
    assert!(matches!(action, Action::Ignore));
    assert_eq!(input.data, cached().data);
    let action = exchange.step(Event::CovariatesParsed(vec![9.0]), &mut input);
    assert!(matches!(action, Action::Infer { .. }));
}

#[test]
fn an_exchange_is_over_after_its_reply() {
    let mut input = cached();
    let mut exchange = Exchange::new(request(true));
    exchange.step(Event::Inspected(None), &mut input);
    assert!(matches!(exchange.step(floats(&[-1, 6]), &mut input), Action::Ignore));
}

#[test]
fn values_beyond_machine_integers_cannot_be_counted() {
    let exchange = Exchange::new(request(true));
    assert!(exchange.can_count(&floats(&[-1, 6])));
    assert!(!exchange.can_count(&floats(&[i64::MAX, i64::MAX])));
    assert!(exchange.can_count(&Event::<f32>::Inspected(None)));
    let huge = PredictionRequest { sensors: usize::MAX, input_size: 2, ..request(true) };
    assert!(!Exchange::new(huge).can_count(&floats(&[-1, 6])));
}

#[test]
fn empty_histories_are_never_initialized() {
    let none = |init| PredictionRequest { sensors: 1, covariates: 0, input_size: 0, ..request(init) };
    let mut input = CachedInput::placeholder();
    let mut exchange = Exchange::new(none(true));
    assert!(matches!(exchange.step(floats(&[1, 0]), &mut input), Action::FetchInput(_)));
    expect_inference(exchange.step(document(&[]), &mut input), &[1, 0], &[]);
    let action = Exchange::new(none(false)).step(floats(&[1, 0]), &mut input);
    expect_reply(
        action,
        Status::BadRequest,
        "init=false received but no cached input exists; call init=true first",
    );
}

#[test]
fn an_initial_request_starts_afresh() {
    let mut inputs = [CachedInput::placeholder(), cached()];
    let texts = [None, Some("[9.0]".to_string())];
    for (input, text) in inputs.iter_mut().zip(texts) {
        let (mut exchange, _) = inspected(PredictionRequest { input: text, ..request(true) }, input);
        let action = exchange.step(document(&[&[5.0, 5.0, 5.0, 6.0, 6.0, 6.0]]), input);
        expect_inference(action, &[1, 6], &[5.0, 5.0, 5.0, 6.0, 6.0, 6.0]);
        exchange.step(names(&["variable"]), input);
        exchange.step(Event::Extracted(vec![4.0]), input);
        assert_eq!(input.data, [5.0, 5.0, 4.0, 6.0, 6.0, 6.0]);
    }
}

#[test]
fn served_requests_build_the_histories() {
    let mut input = CachedInput::placeholder();
    let (mut exchange, _) = inspected(request(true), &mut input);
    exchange.step(document(&[&[1.0, 2.0, 3.0], &[7.0, 8.0, 9.0]]), &mut input);
    exchange.step(names(&["variable"]), &mut input);
    exchange.step(Event::Extracted(vec![4.0]), &mut input);
    assert_eq!(input.data, [2.0, 3.0, 4.0, 7.0, 8.0, 9.0]);
    for (value, prediction) in [(10.0, 5.0), (11.0, 6.0)] {
        let (mut exchange, _) = inspected(request(false), &mut input);
        exchange.step(Event::CovariatesParsed(vec![value]), &mut input);
        exchange.step(names(&["variable"]), &mut input);
        exchange.step(Event::Extracted(vec![prediction]), &mut input);
        let action = exchange.step(Event::Encoded(Ok("ok".to_string())), &mut input);
        expect_reply(action, Status::Success, "ok");
    }
    assert_eq!(input.data, [4.0, 5.0, 6.0, 9.0, 10.0, 11.0]);
}
