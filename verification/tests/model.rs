use doclayout_detector::model::BACKEND_NAME;

#[test]
fn reports_compiled_backend_name() {
    assert!(matches!(
        BACKEND_NAME,
        "ndarray" | "metal" | "vulkan" | "webgpu"
    ));
}
