use onnx_service::json::{read_sensor_values, Json};
use onnx_service::reply::Refusal;

fn numbers(values: &[f32]) -> Json<f32> {
    Json::Array(values.iter().map(|value| Json::Number(*value)).collect())
}

fn with_sensor(value: Json<f32>) -> Json<f32> {
    Json::Object(vec![
        ("time".to_string(), Json::Text("noon".to_string())),
        ("sensor_".to_string(), value),
    ])
}

#[test]
fn reads_row_after_row() {
    let document = with_sensor(Json::Array(vec![
        numbers(&[1.0, 2.5]),
        numbers(&[]),
        numbers(&[-3.0]),
    ]));
    assert_eq!(read_sensor_values(&document).unwrap(), [1.0, 2.5, -3.0]);
}

#[test]
fn reads_no_rows() {
    let document = with_sensor(Json::Array(vec![]));
    assert_eq!(read_sensor_values(&document).unwrap(), [0.0_f32; 0]);
}

#[test]
fn finds_fields_of_objects_only() {
    let key = "sensor_";
    let document = with_sensor(Json::Bool(true));
    assert!(matches!(document.get(key), Some(Json::Bool(true))));
    assert!(document.get("sensor").is_none());
    assert!(numbers(&[1.0]).get(key).is_none());
    assert!(Json::<f32>::Null.get(key).is_none());
}

#[test]
fn misses_the_field() {
    let document: Json<f32> = Json::Object(vec![("sensor".to_string(), Json::Array(vec![]))]);
    assert!(matches!(read_sensor_values(&document), Err(Refusal::MissingSensorKey)));
    assert!(matches!(read_sensor_values(&numbers(&[1.0])), Err(Refusal::MissingSensorKey)));
}

#[test]
fn wants_an_array() {
    let document = with_sensor(Json::Number(1.0));
    assert!(matches!(read_sensor_values(&document), Err(Refusal::SensorNotArray)));
}

#[test]
fn wants_an_array_of_arrays() {
    let document = with_sensor(numbers(&[1.0]));
    assert!(matches!(read_sensor_values(&document), Err(Refusal::RowNotArray)));
}

#[test]
fn wants_numbers() {
    let row = Json::Array(vec![Json::Number(1.0), Json::Text("2".to_string())]);
    let document = with_sensor(Json::Array(vec![row]));
    assert!(matches!(read_sensor_values(&document), Err(Refusal::NonNumeric)));
}

#[test]
fn reports_the_first_fault() {
    let bad_cell = Json::Array(vec![Json::Null]);
    let document = with_sensor(Json::Array(vec![numbers(&[1.0]), bad_cell, Json::Bool(false)]));
    assert!(matches!(read_sensor_values(&document), Err(Refusal::NonNumeric)));
    let bad_cell = Json::Array(vec![Json::Null]);
    let document = with_sensor(Json::Array(vec![Json::Bool(false), bad_cell]));
    assert!(matches!(read_sensor_values(&document), Err(Refusal::RowNotArray)));
}
