use onnx_service::model::{
    acquire, after_creation, after_level, after_threads, on_built, ModelAction, ModelEvent, OptimizationLevel, LEVEL, MAX_CACHED_MODELS, THREADS,
};
use onnx_service::reply::Refusal;
use onnx_service::request::PredictionRequest;

fn request() -> PredictionRequest {
    PredictionRequest {
        init: true,
        input: None,
        model_url: "http://models/heating.onnx".to_string(),
        input_resource: None,
        sensors: 1,
        covariates: 0,
        input_size: 1,
    }
}

#[test]
fn a_loaded_model_is_used() {
    assert!(matches!(acquire(&request(), ModelEvent::Hit), ModelAction::Use));
}

#[test]
fn a_missing_model_is_fetched_from_its_address() {
    match acquire(&request(), ModelEvent::Miss) {
        ModelAction::Fetch(url) => assert_eq!(url, "http://models/heating.onnx"),
        _ => panic!("the model must be fetched"),
    }
}

#[test]
fn a_failed_fetch_is_reported() {
    let event = ModelEvent::FetchFailed("no such host".to_string());
    match acquire(&request(), event) {
        ModelAction::Refuse(Refusal::ModelUnavailable(report)) => {
            assert_eq!(report, "no such host")
        }
        _ => panic!("the request must be refused"),
    }
}

#[test]
fn a_failed_build_is_reported() {
    match on_built(Err("no graph".to_string())) {
        ModelAction::Refuse(Refusal::ModelUnavailable(report)) => assert_eq!(report, "no graph"),
        _ => panic!("the request must be refused"),
    }
}

#[test]
fn the_first_failing_step_decides() {
    let outcomes = [
        after_creation(Err(ort::Error::new("no builder")), &[1, 2], LEVEL, THREADS),
        after_level(Err(ort::Error::new("no level")), &[1, 2], THREADS),
        after_threads(Err(ort::Error::new("no threads")), &[1, 2]),
    ];
    let messages = outcomes.map(|outcome| outcome.err().unwrap().to_string());
    assert_eq!(messages, ["no builder", "no level", "no threads"]);
}

#[test]
fn models_run_on_one_thread_at_the_highest_level() {
    assert_eq!(LEVEL, OptimizationLevel::Level3);
    assert_eq!(THREADS, 1);
}

#[test]
fn eight_models_are_kept() {
    assert_eq!(MAX_CACHED_MODELS, 8);
}
