use doclayout_detector::preprocess::validate_page_image;
use doclayout_detector::{LayoutError, PageImage};

#[test]
fn validates_rgb_buffer_length() {
    let image = PageImage {
        rgb: &[0; 12],
        width: 2,
        height: 2,
    };

    assert!(validate_page_image(&image).is_ok());
}

#[test]
fn rejects_rgb_buffer_of_wrong_length() {
    let image = PageImage {
        rgb: &[0; 11],
        width: 2,
        height: 2,
    };

    assert_eq!(
        validate_page_image(&image),
        Err(LayoutError::InvalidImageBuffer {
            expected: 12,
            actual: 11
        })
    );
}

#[test]
fn layout_errors_read_as_messages() {
    assert_eq!(
        LayoutError::InvalidImageBuffer { expected: 12, actual: 11 }.message(),
        "invalid RGB image buffer: expected 12 bytes, got 11"
    );
    assert_eq!(
        LayoutError::UnsupportedImageSize { expected: 800, actual: 640 }.message(),
        "unsupported model input size 640; expected 800"
    );
    assert_eq!(
        LayoutError::InvalidModelOutput("load tensor a: tensor `a` not found".to_string()).message(),
        "invalid model output: load tensor a: tensor `a` not found"
    );
}
