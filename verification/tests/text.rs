use doclayout_detector::text::{decimal_string, list_string, optional_shape_string, shape_string};

#[test]
fn numbers_and_shapes_are_written_as_format_writes_them() {
    for n in [0u128, 7, 10, 1920000, u64::MAX as u128, u128::MAX] {
        assert_eq!(decimal_string(n), format!("{n}"));
    }
    assert_eq!(list_string(&[]), format!("{:?}", Vec::<usize>::new()));
    assert_eq!(list_string(&[5]), "[5]");
    assert_eq!(list_string(&[2, 1, 30]), format!("{:?}", [2usize, 1, 30]));
    assert_eq!(shape_string([1, 300, 25]), "[1, 300, 25]");
    assert_eq!(optional_shape_string(Some([1, 2, 3])), format!("{:?}", Some([1usize, 2, 3])));
    assert_eq!(optional_shape_string(None), "None");
}
