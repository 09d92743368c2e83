use crate::error::LayoutError;
use crate::types::PageImage;
use vstd::prelude::*;

verus! {

/// Validate that a page image contains tightly packed RGB bytes.
///
/// Returns [`LayoutError::InvalidImageBuffer`] when the byte length does not
/// match `width * height * 3`.
pub fn validate_page_image(image: &PageImage<'_>) -> (result: Result<(), LayoutError>)
    requires
        image.expected_rgb_len() <= usize::MAX,
    ensures
        result is Ok <==> image.rgb@.len() == image.expected_rgb_len(),
        result is Err ==> result == Err::<(), LayoutError>(
            LayoutError::InvalidImageBuffer {
                expected: image.expected_rgb_len() as usize,
                actual: image.rgb@.len() as usize,
            },
        ),
{
    let width = image.width as usize;
    let height = image.height as usize;
    assert(width * height <= width * height * 3) by (nonlinear_arith)
        requires
            0 <= width * height,
    ;
    let expected = width * height * 3;
    let actual = image.rgb.len();
    if actual != expected {
        return Err(LayoutError::InvalidImageBuffer { expected, actual });
    }
    Ok(())
}

} // verus!
