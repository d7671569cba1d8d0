use onnx_service::request::PredictionRequest;
use onnx_service::shape::{count_elements, input_of, shape_of, InputDeclaration, InputType};
use ort::tensor::TensorElementType;

fn request(sensors: usize, covariates: usize, input_size: usize) -> PredictionRequest {
    PredictionRequest {
        init: false,
        input: None,
        model_url: String::new(),
        input_resource: None,
        sensors,
        covariates,
        input_size,
    }
}

#[test]
fn open_dimensions_become_one() {
    assert_eq!(shape_of(&vec![-1, 12]), [1, 12]);
    assert_eq!(shape_of(&vec![-5, 0, 3]), [1, 0, 3]);
    assert_eq!(shape_of(&vec![]), [0_usize; 0]);
}

#[test]
fn counts_elements() {
    assert_eq!(count_elements(&vec![1, 3, 4]), Some(12));
    assert_eq!(count_elements(&vec![]), Some(1));
    assert_eq!(count_elements(&vec![5, 0, 7]), Some(0));
}

#[test]
fn counts_no_more_than_a_machine_integer() {
    assert_eq!(count_elements(&vec![usize::MAX, 1]), Some(usize::MAX));
    assert_eq!(count_elements(&vec![usize::MAX, 2]), None);
    assert_eq!(count_elements(&vec![usize::MAX, 2, 0]), None);
    assert_eq!(count_elements(&vec![0, usize::MAX, 2]), Some(0));
}

#[test]
fn counts_the_values_of_a_request() {
    assert_eq!(request(2, 1, 5).expected_total(), Some(15));
    assert_eq!(request(0, 0, 5).expected_total(), Some(0));
    assert_eq!(request(usize::MAX, 1, 0).expected_total(), None);
    assert_eq!(request(usize::MAX, 0, 2).expected_total(), None);
}

fn tensor(element: &str, dimensions: &[i64]) -> InputDeclaration {
    InputDeclaration {
        tensor: Some((element.to_string(), dimensions.to_vec())),
        text: format!("tensor of {}", element),
    }
}

fn map() -> InputDeclaration {
    InputDeclaration { tensor: None, text: "Map".to_string() }
}

#[test]
fn a_model_needs_an_input() {
    assert!(input_of(vec![]).is_none());
}

#[test]
fn single_precision_tensors_are_accepted() {
    match input_of(vec![tensor("Float32", &[-1, 12])]) {
        Some(InputType::Floats(dimensions)) => assert_eq!(dimensions, [-1, 12]),
        other => panic!("the input must be accepted, not {:?}", other),
    }
}

#[test]
fn other_inputs_are_described() {
    for (declaration, text) in [
        (tensor("Float64", &[1]), "tensor of Float64"),
        (tensor("Int64", &[1]), "tensor of Int64"),
        (map(), "Map"),
    ] {
        match input_of(vec![declaration]) {
            Some(InputType::Other(kind)) => assert_eq!(kind, text),
            other => panic!("the input must be described, not {:?}", other),
        }
    }
}

#[test]
fn only_the_first_input_counts() {
    let inputs = vec![map(), tensor("Float32", &[1, 12])];
    assert!(matches!(input_of(inputs), Some(InputType::Other(_))));
    let inputs = vec![tensor("Float32", &[1, 12]), map()];
    assert!(matches!(input_of(inputs), Some(InputType::Floats(_))));
}

#[test]
fn element_types_are_named_by_their_variant() {
    assert_eq!(format!("{:?}", TensorElementType::Float32), "Float32");
    assert_eq!(format!("{:?}", TensorElementType::Float64), "Float64");
    assert_eq!(format!("{:?}", TensorElementType::Float16), "Float16");
}
