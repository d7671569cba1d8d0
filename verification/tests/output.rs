use onnx_service::output::{choose_output, Choice};

fn names(names: &[&str]) -> Vec<String> {
    names.iter().map(|name| name.to_string()).collect()
}

#[test]
fn prefers_variable_then_values_then_output() {
    assert_eq!(choose_output(&names(&["output", "values", "variable"])), Choice::Named(2));
    assert_eq!(choose_output(&names(&["output", "other", "values"])), Choice::Named(2));
    assert_eq!(choose_output(&names(&["label", "output"])), Choice::Named(1));
    assert_eq!(choose_output(&names(&["variable"])), Choice::Named(0));
}

#[test]
fn takes_the_first_of_two_with_one_name() {
    assert_eq!(choose_output(&names(&["x", "values", "values"])), Choice::Named(1));
}

#[test]
fn falls_back_to_the_first_output() {
    assert_eq!(choose_output(&names(&["label", "Variable"])), Choice::First);
}

#[test]
fn finds_nothing_without_outputs() {
    assert_eq!(choose_output(&names(&[])), Choice::Nothing);
}
