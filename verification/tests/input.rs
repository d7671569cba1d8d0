use onnx_service::input::CachedInput;

/// Two sensors and one covariate with three values each.
fn sample() -> CachedInput<f32> {
    CachedInput {
        data: vec![1.0, 2.0, 3.0, 10.0, 20.0, 30.0, 100.0, 200.0, 300.0],
        sensors: 2,
        covariates: 1,
        input_size: 3,
    }
}

#[test]
fn placeholder_has_no_histories() {
    let input: CachedInput<f32> = CachedInput::placeholder();
    assert!(input.data.is_empty());
    assert_eq!((input.sensors, input.covariates, input.input_size), (0, 0, 0));
}

#[test]
fn covariates_are_shifted_and_sensors_stay() {
    let mut input = sample();
    input.update_covariates(&vec![400.0]);
    assert_eq!(input.data, [1.0, 2.0, 3.0, 10.0, 20.0, 30.0, 200.0, 300.0, 400.0]);
    assert_eq!((input.sensors, input.covariates, input.input_size), (2, 1, 3));
}

#[test]
fn sensors_are_shifted_and_covariates_stay() {
    let mut input = sample();
    input.update_sensors(&vec![4.0, 40.0]);
    assert_eq!(input.data, [2.0, 3.0, 4.0, 20.0, 30.0, 40.0, 100.0, 200.0, 300.0]);
}

#[test]
fn updates_may_come_in_either_order() {
    let mut one = sample();
    one.update_covariates(&vec![400.0]);
    one.update_sensors(&vec![4.0, 40.0]);
    let mut other = sample();
    other.update_sensors(&vec![4.0, 40.0]);
    other.update_covariates(&vec![400.0]);
    assert_eq!(one.data, other.data);
    assert_eq!(one.data, [2.0, 3.0, 4.0, 20.0, 30.0, 40.0, 200.0, 300.0, 400.0]);
}

#[test]
fn rounds_of_predictions_fill_the_histories() {
    let mut input = sample();
    for round in [[4.0, 40.0], [5.0, 50.0], [6.0, 60.0], [7.0, 70.0]] {
        input.update_sensors(&round.to_vec());
    }
    assert_eq!(input.data, [5.0, 6.0, 7.0, 50.0, 60.0, 70.0, 100.0, 200.0, 300.0]);
}

#[test]
fn updates_of_empty_histories_change_nothing() {
    let mut input: CachedInput<f32> =
        CachedInput { data: vec![], sensors: 2, covariates: 1, input_size: 0 };
    input.update_sensors(&vec![1.0, 2.0]);
    input.update_covariates(&vec![3.0]);
    assert!(input.data.is_empty());
}

#[test]
fn flat_models_get_the_histories_in_a_row() {
    let input = sample();
    assert_eq!(input.input_data(&vec![1, 9]), input.data);
}

#[test]
fn time_major_models_get_the_values_by_time() {
    let input = sample();
    assert_eq!(
        input.input_data(&vec![1, 3, 3]),
        [1.0, 10.0, 100.0, 2.0, 20.0, 200.0, 3.0, 30.0, 300.0]
    );
    let wide = CachedInput { data: vec![1, 2, 3, 4, 5, 6], sensors: 1, covariates: 2, input_size: 2 };
    assert_eq!(wide.input_data(&vec![1, 2, 3]), [1, 3, 5, 2, 4, 6]);
}

#[test]
fn other_shapes_get_the_histories_in_a_row() {
    let wide = CachedInput { data: vec![1, 2, 3, 4, 5, 6], sensors: 1, covariates: 2, input_size: 2 };
    for shape in [vec![6], vec![1, 3, 2], vec![1, 1, 6], vec![2, 3], vec![1, 1, 2, 3]] {
        assert_eq!(wide.input_data(&shape), [1, 2, 3, 4, 5, 6]);
    }
}
