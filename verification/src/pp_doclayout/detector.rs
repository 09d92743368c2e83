use super::preprocess::PP_DOCLAYOUT_V3_IMAGE_SIZE;
use crate::error::LayoutError;
use crate::preprocess::validate_page_image;
use crate::text::{decimal_digits, decimal_string};
use crate::types::PageImage;
use vstd::prelude::*;
use vstd::string::StringExecFns;

verus! {

/// Whether every page image holds exactly `width * height * 3` RGB bytes.
pub open spec fn all_pages_valid<'a>(images: Seq<PageImage<'a>>) -> bool {
    forall|i: int| 0 <= i < images.len() ==> (#[trigger] images[i]).rgb@.len() == images[i].expected_rgb_len()
}

/// Index of the first page image whose RGB buffer has the wrong length.
pub open spec fn first_invalid_page<'a>(images: Seq<PageImage<'a>>) -> int {
    choose|i: int|
        0 <= i < images.len() && images[i].rgb@.len() != images[i].expected_rgb_len() && forall|j: int|
            0 <= j < i ==> (#[trigger] images[j]).rgb@.len() == images[j].expected_rgb_len()
}

/// Checks the detector's inputs before preprocessing: every page image must
/// hold tightly packed RGB bytes, then the configured input size must be the
/// checkpoint's.
///
/// The first invalid page gives [`LayoutError::InvalidImageBuffer`]; with all
/// pages valid, another input size gives [`LayoutError::UnsupportedImageSize`].
pub fn check_detector_inputs(images: &[PageImage<'_>], image_size: u32) -> (result: Result<(), LayoutError>)
    requires
        forall|i: int| 0 <= i < images@.len() ==> (#[trigger] images@[i]).expected_rgb_len() <= usize::MAX,
    ensures
        result is Ok <==> all_pages_valid(images@) && image_size == PP_DOCLAYOUT_V3_IMAGE_SIZE,
        !all_pages_valid(images@) ==> ({
            let first = images@[first_invalid_page(images@)];
            result == Err::<(), LayoutError>(
                LayoutError::InvalidImageBuffer {
                    expected: first.expected_rgb_len() as usize,
                    actual: first.rgb@.len() as usize,
                },
            )
        }),
        all_pages_valid(images@) && image_size != PP_DOCLAYOUT_V3_IMAGE_SIZE ==> result == Err::<
            (),
            LayoutError,
        >(LayoutError::UnsupportedImageSize { expected: PP_DOCLAYOUT_V3_IMAGE_SIZE, actual: image_size }),
{
    let mut i: usize = 0;
    while i < images.len()
        invariant
            i <= images@.len(),
            forall|k: int| 0 <= k < images@.len() ==> (#[trigger] images@[k]).expected_rgb_len() <= usize::MAX,
            forall|j: int| 0 <= j < i ==> (#[trigger] images@[j]).rgb@.len() == images@[j].expected_rgb_len(),
        decreases images@.len() - i,
    {
        match validate_page_image(&images[i]) {
            Ok(()) => {},
            Err(error) => {
                proof {
                    let witness = i as int;
                    assert(0 <= witness < images@.len() && images@[witness].rgb@.len()
                        != images@[witness].expected_rgb_len() && forall|j: int|
                        0 <= j < witness ==> (#[trigger] images@[j]).rgb@.len()
                            == images@[j].expected_rgb_len());
                    let first = first_invalid_page(images@);
                    if first < witness {
                        assert(images@[first].rgb@.len() == images@[first].expected_rgb_len());
                    } else if first > witness {
                        assert(images@[witness].rgb@.len() == images@[witness].expected_rgb_len());
                    }
                }
                return Err(error);
            },
        }
        i = i + 1;
    }
    if image_size != PP_DOCLAYOUT_V3_IMAGE_SIZE {
        return Err(
            LayoutError::UnsupportedImageSize {
                expected: PP_DOCLAYOUT_V3_IMAGE_SIZE,
                actual: image_size,
            },
        );
    }
    Ok(())
}

/// Number of values in one preprocessed page: three colour planes of the
/// checkpoint's square input size.
pub open spec fn page_input_len() -> int {
    3 * PP_DOCLAYOUT_V3_IMAGE_SIZE * PP_DOCLAYOUT_V3_IMAGE_SIZE
}

/// The message for a single-page input of `input_len` values.
pub open spec fn page_input_message(input_len: usize) -> Seq<char> {
    "expected CHW input length "@ + decimal_digits(page_input_len() as nat) + ", got "@
        + decimal_digits(input_len as nat)
}

/// The message for a batched input of `input_len` values for `batch_size` pages.
pub open spec fn batch_input_message(input_len: usize, batch_size: usize) -> Seq<char> {
    if batch_size == 0 {
        "batch size must be greater than zero"@
    } else {
        "expected batched CHW input length "@ + decimal_digits((batch_size * page_input_len()) as nat)
            + ", got "@ + decimal_digits(input_len as nat)
    }
}

/// Writes `prefix`, the expected length, `", got "` and the actual length.
fn length_message(prefix: &str, expected: usize, actual: usize) -> (message: String)
    ensures
        message@ == prefix@ + decimal_digits(expected as nat) + ", got "@ + decimal_digits(
            actual as nat,
        ),
{
    let mut message = String::from_str(prefix);
    let expected_text = decimal_string(expected as u128);
    message.append(expected_text.as_str());
    message.append(", got ");
    let actual_text = decimal_string(actual as u128);
    message.append(actual_text.as_str());
    message
}

/// Checks that a preprocessed single-page model input holds exactly the CHW
/// values of one page at the checkpoint's input size.
///
/// Another length gives [`LayoutError::InvalidModelOutput`] with the message
/// `expected CHW input length 1920000, got <length>`.
pub fn check_page_input(input_len: usize) -> (result: Result<(), LayoutError>)
    ensures
        result is Ok <==> input_len == page_input_len(),
        result matches Err(error) ==> error.is_model_output_error(page_input_message(input_len)),
{
    let side = PP_DOCLAYOUT_V3_IMAGE_SIZE as usize;
    let expected = 3 * side * side;
    if input_len != expected {
        return Err(
            LayoutError::InvalidModelOutput(
                length_message("expected CHW input length ", expected, input_len),
            ),
        );
    }
    Ok(())
}

/// Checks that a preprocessed model input holds exactly `batch_size` pages of
/// CHW values at the checkpoint's input size, with at least one page.
///
/// A zero batch size gives [`LayoutError::InvalidModelOutput`] with the message
/// `batch size must be greater than zero`; an input of another length gives
/// `expected batched CHW input length <expected>, got <length>`.
pub fn check_batch_input(input_len: usize, batch_size: usize) -> (result: Result<(), LayoutError>)
    requires
        batch_size * page_input_len() <= usize::MAX,
    ensures
        result is Ok <==> batch_size > 0 && input_len == batch_size * page_input_len(),
        result matches Err(error) ==> error.is_model_output_error(
            batch_input_message(input_len, batch_size),
        ),
{
    if batch_size == 0 {
        return Err(
            LayoutError::InvalidModelOutput("batch size must be greater than zero".to_string()),
        );
    }
    let side = PP_DOCLAYOUT_V3_IMAGE_SIZE as usize;
    let expected = batch_size * (3 * side * side);
    if input_len != expected {
        return Err(
            LayoutError::InvalidModelOutput(
                length_message("expected batched CHW input length ", expected, input_len),
            ),
        );
    }
    Ok(())
}

} // verus!
