use onnx_service::window::shift_append;

#[test]
fn drops_the_oldest_and_appends_the_newest() {
    let mut window = [1.0_f32, 2.0, 3.0];
    shift_append(&mut window, 4.5);
    assert_eq!(window, [2.0, 3.0, 4.5]);
}

#[test]
fn leaves_an_empty_window_alone() {
    let mut window: [f32; 0] = [];
    shift_append(&mut window, 1.0);
    assert_eq!(window, [0.0_f32; 0]);
}

#[test]
fn replaces_the_only_value() {
    let mut window = [7_u32];
    shift_append(&mut window, 9);
    assert_eq!(window, [9]);
}

#[test]
fn holds_the_newest_values_after_many_appends() {
    let mut window = [1, 2, 3];
    for value in [4, 5] {
        shift_append(&mut window, value);
    }
    assert_eq!(window, [3, 4, 5]);
    for value in [6, 7, 8, 9] {
        shift_append(&mut window, value);
    }
    assert_eq!(window, [7, 8, 9]);
}

#[test]
fn shifts_a_part_of_a_larger_slice() {
    let mut data = vec![1, 2, 3, 4, 5, 6];
    shift_append(&mut data[2..4], 0);
    assert_eq!(data, [1, 2, 4, 0, 5, 6]);
}
