use crate::text::{decimal_digits, decimal_string};
use vstd::prelude::*;
use vstd::string::StringExecFns;

verus! {

/// Errors reported by page validation, checkpoint access and output decoding.
#[derive(Debug, Clone, PartialEq, Eq)]
pub enum LayoutError {
    /// The RGB buffer does not hold exactly `width * height * 3` bytes.
    InvalidImageBuffer { expected: usize, actual: usize },
    /// The model input size differs from the checkpoint's fixed input size.
    UnsupportedImageSize { expected: u32, actual: u32 },
    /// Model outputs, checkpoint tensors or their shapes are inconsistent.
    InvalidModelOutput(String),
}

impl LayoutError {
    /// Whether this is an [`LayoutError::InvalidModelOutput`] with the message `text`.
    pub open spec fn is_model_output_error(self, text: Seq<char>) -> bool {
        match self {
            LayoutError::InvalidModelOutput(message) => message@ == text,
            _ => false,
        }
    }

    /// The text with which this error is reported.
    pub open spec fn spec_message(self) -> Seq<char> {
        match self {
            LayoutError::InvalidImageBuffer { expected, actual } => "invalid RGB image buffer: expected "@
                + decimal_digits(expected as nat) + " bytes, got "@ + decimal_digits(actual as nat),
            LayoutError::UnsupportedImageSize { expected, actual } => "unsupported model input size "@
                + decimal_digits(actual as nat) + "; expected "@ + decimal_digits(expected as nat),
            LayoutError::InvalidModelOutput(message) => "invalid model output: "@ + message@,
        }
    }

    /// The text with which this error is reported in logs and on the command line.
    pub fn message(&self) -> (text: String)
        ensures
            text@ == self.spec_message(),
    {
        match self {
            LayoutError::InvalidImageBuffer { expected, actual } => {
                let mut text = String::from_str("invalid RGB image buffer: expected ");
                let expected_text = decimal_string(*expected as u128);
                text.append(expected_text.as_str());
                text.append(" bytes, got ");
                let actual_text = decimal_string(*actual as u128);
                text.append(actual_text.as_str());
                text
            },
            LayoutError::UnsupportedImageSize { expected, actual } => {
                let mut text = String::from_str("unsupported model input size ");
                let actual_text = decimal_string(*actual as u128);
                text.append(actual_text.as_str());
                text.append("; expected ");
                let expected_text = decimal_string(*expected as u128);
                text.append(expected_text.as_str());
                text
            },
            LayoutError::InvalidModelOutput(message) => {
                let mut text = String::from_str("invalid model output: ");
                text.append(message.as_str());
                text
            },
        }
    }
}

} // verus!
